//! The sequencer: the state machine that walks the ordered segments
//! left to right, decides per segment whether it is spawned detached (a
//! pipe producer), run to completion, or skipped by the conditional
//! short-circuit, and folds every observed outcome into the aggregate.
//!
//! The sequencer owns the decisions; performing them — spawning real
//! processes and wiring their pipes — is the driver's job. The driver asks
//! [`Sequencer::next_action`] what to do, carries it out, and hands the
//! observed outcome back through one of the `apply` methods. The pending
//! pipe handle itself (the spawned-but-unjoined producer) lives with the
//! driver; the sequencer tracks only whether one exists, and there is
//! never more than one at a time.

use vstd::prelude::*;

use crate::aggregate::{Aggregate, AggregateView, Completion, CompletionView, SpawnFailure, Status};
use crate::segment::{Op, Segment, wf_segment_texts};
use crate::text::{
    lemma_trimmed_first_non_space, lemma_words_nonempty, split_words, word_views, words,
};

verus! {

/// What the driver must do next.
#[derive(Clone, Copy, Debug, PartialEq, Eq, Structural)]
pub enum Action {
    /// Spawn the current segment detached, its standard output captured as
    /// the new pending pipe, its standard input fed from the previous
    /// pending pipe if one exists. The aggregate is not touched.
    RunDetached,
    /// Run the current segment to completion, its standard input fed from
    /// the pending pipe if one exists (consuming it), and hand the
    /// captured outcome back.
    RunBlocking,
    /// The walk is over: every segment was consumed, or the conditional
    /// short-circuit aborted the run.
    Finished,
}

/// The sequencing state machine. Created over the segments of one
/// expression, driven to completion once, then read out.
pub struct Sequencer {
    /// The ordered segments of the expression, fixed at creation.
    pub segments: Vec<Segment>,
    /// The index of the segment to act on next.
    pub index: usize,
    /// The running result of the walk so far.
    pub aggregate: Aggregate,
    /// Whether a detached pipe producer is alive with the driver.
    pub pending: bool,
    /// Whether the conditional short-circuit ended the walk early.
    pub aborted: bool,
}

impl Sequencer {
    /// Well-formedness: the walk position is within bounds, every segment
    /// text is non-empty and trimmed, and a pending pipe exists only right
    /// after its pipe-linked producer, while the walk is still alive.
    pub open spec fn wf(self) -> bool {
        &&& self.index <= self.segments@.len()
        &&& wf_segment_texts(self.segments@)
        &&& self.pending ==> self.index >= 1 && self.segments@[self.index as int - 1].op
            == Op::Pipe
        &&& self.aborted ==> !self.pending
    }

    /// The walk is over: all segments consumed, or aborted.
    pub open spec fn done(self) -> bool {
        self.aborted || self.index >= self.segments@.len()
    }

    /// The current segment feeds the next one through a pipe, so it is
    /// spawned detached without touching the aggregate.
    pub open spec fn detached_next(self) -> bool {
        !self.done() && self.segments@[self.index as int].op == Op::Pipe
    }

    /// The conditional short-circuit: the previous segment was linked to
    /// this one by `&&` and the aggregate records its failure, so the
    /// current segment must not run at all.
    pub open spec fn abort_next(self) -> bool {
        &&& !self.done()
        &&& !self.detached_next()
        &&& self.index > 0
        &&& self.segments@[self.index as int - 1].op == Op::AndThen
        &&& self.aggregate@.failed()
    }

    /// The current segment is the terminal stage of whatever came before:
    /// it runs to completion and its outcome folds into the aggregate.
    pub open spec fn blocking_next(self) -> bool {
        !self.done() && !self.detached_next() && !self.abort_next()
    }

    /// Starts a walk over `segments` with an empty aggregate.
    pub fn new(segments: Vec<Segment>) -> (s: Sequencer)
        requires
            wf_segment_texts(segments@),
        ensures
            s.wf(),
            s.segments@ == segments@,
            s.index == 0,
            !s.pending,
            !s.aborted,
            s.aggregate@ == AggregateView::empty(),
    {
        Sequencer {
            segments,
            index: 0,
            aggregate: Aggregate::new(),
            pending: false,
            aborted: false,
        }
    }

    /// Decides what the driver must do for the current segment. The
    /// decision is a function of the state alone; the only state change is
    /// recording the conditional short-circuit when it strikes.
    pub fn next_action(&mut self) -> (a: Action)
        requires
            old(self).wf(),
        ensures
            final(self).wf(),
            old(self).done() ==> a == Action::Finished && *final(self) == *old(self),
            old(self).detached_next() ==> a == Action::RunDetached && *final(self) == *old(self),
            old(self).blocking_next() ==> a == Action::RunBlocking && *final(self) == *old(self),
            old(self).abort_next() ==> a == Action::Finished && *final(self) == (Sequencer {
                aborted: true,
                ..*old(self)
            }),
    {
        if self.aborted || self.index >= self.segments.len() {
            return Action::Finished;
        }
        if self.segments[self.index].op == Op::Pipe {
            return Action::RunDetached;
        }
        if self.index > 0 && self.segments[self.index - 1].op == Op::AndThen
            && self.aggregate.failed() {
            self.aborted = true;
            return Action::Finished;
        }
        Action::RunBlocking
    }

    /// The whitespace-split words of the current segment's text: the
    /// program to spawn first, then its arguments, in order. A segment's
    /// text is never empty, so there is always a program.
    pub fn current_words(&self) -> (w: Vec<String>)
        requires
            self.wf(),
            !self.done(),
        ensures
            word_views(w@) == words(self.segments@[self.index as int].text@),
            w@.len() >= 1,
    {
        proof {
            let t = self.segments@[self.index as int].text@;
            assert(t.len() > 0 && crate::text::trim(t) == t);
            lemma_trimmed_first_non_space(t);
            lemma_words_nonempty(t);
        }
        split_words(self.segments[self.index].text.as_str())
    }

    /// Records that the current pipe-linked segment was spawned detached:
    /// its output stream becomes the pending pipe, the previous pending
    /// pipe (if any) was consumed as its input, and the aggregate is
    /// untouched.
    pub fn apply_detached(&mut self)
        requires
            old(self).wf(),
            old(self).detached_next(),
        ensures
            final(self).wf(),
            final(self).segments@ == old(self).segments@,
            final(self).index == old(self).index + 1,
            final(self).pending,
            !final(self).aborted,
            final(self).aggregate == old(self).aggregate,
    {
        let n = self.segments.len();
        proof {
            assert(self.index < n);
        }
        self.index = self.index + 1;
        self.pending = true;
    }

    /// Folds the captured completion of the current blocking segment into
    /// the aggregate and moves past it. Whatever pending pipe existed was
    /// consumed as the segment's input.
    pub fn apply_completion(&mut self, c: Completion)
        requires
            old(self).wf(),
            old(self).blocking_next(),
        ensures
            final(self).wf(),
            final(self).segments@ == old(self).segments@,
            final(self).index == old(self).index + 1,
            !final(self).pending,
            !final(self).aborted,
            final(self).aggregate@ == old(self).aggregate@.folded_completion(c@),
            final(self).aggregate@.settled(),
    {
        let n = self.segments.len();
        proof {
            assert(self.index < n);
        }
        self.aggregate.fold_completion(c);
        self.index = self.index + 1;
        self.pending = false;
    }

    /// Folds a recoverable failure to spawn the current segment's program
    /// — not found or permission denied — into the aggregate and moves
    /// past the segment. A pending pipe handed to the failed spawn attempt
    /// is gone either way.
    pub fn apply_spawn_failure(&mut self, k: SpawnFailure)
        requires
            old(self).wf(),
            old(self).detached_next() || old(self).blocking_next(),
        ensures
            final(self).wf(),
            final(self).segments@ == old(self).segments@,
            final(self).index == old(self).index + 1,
            !final(self).pending,
            !final(self).aborted,
            final(self).aggregate@ == old(self).aggregate@.folded_failure(
                k,
                words(old(self).segments@[old(self).index as int].text@)[0],
            ),
            final(self).aggregate@.settled(),
    {
        let n = self.segments.len();
        proof {
            assert(self.index < n);
        }
        let w = self.current_words();
        self.aggregate.fold_failure(k, w[0].as_str());
        self.index = self.index + 1;
        self.pending = false;
    }
}

/// One observed outcome of a spawn attempt, as the driver reports it back.
pub enum Event {
    /// A detached spawn succeeded; its producer is now the pending pipe.
    Spawned,
    /// A blocking invocation ran to completion with this captured outcome.
    Completed(Completion),
    /// The spawn failed recoverably.
    SpawnFailed(SpawnFailure),
}

/// Mathematical view of an [`Event`].
pub enum EventView {
    Spawned,
    Completed(CompletionView),
    SpawnFailed(SpawnFailure),
}

impl View for Event {
    type V = EventView;

    open spec fn view(&self) -> EventView {
        match self {
            Event::Spawned => EventView::Spawned,
            Event::Completed(c) => EventView::Completed(c@),
            Event::SpawnFailed(k) => EventView::SpawnFailed(*k),
        }
    }
}

/// The views of a sequence of events.
pub open spec fn event_views(evs: Seq<Event>) -> Seq<EventView> {
    evs.map_values(|e: Event| e@)
}

/// The whole walk as an explicit fold: the final aggregate reached from
/// segment `i` in state `agg`, consuming one scripted event per spawn
/// attempt. The walk stops early when the conditional short-circuit
/// strikes, when the script runs dry, or when an event does not fit the
/// attempt it answers.
pub open spec fn walk(
    segs: Seq<Segment>,
    i: int,
    agg: AggregateView,
    events: Seq<EventView>,
) -> AggregateView
    decreases segs.len() - i,
{
    if i >= segs.len() || events.len() == 0 {
        agg
    } else if segs[i].op == Op::Pipe {
        match events[0] {
            EventView::Spawned => walk(segs, i + 1, agg, events.drop_first()),
            EventView::SpawnFailed(k) => walk(
                segs,
                i + 1,
                agg.folded_failure(k, words(segs[i].text@)[0]),
                events.drop_first(),
            ),
            EventView::Completed(_) => agg,
        }
    } else if i > 0 && segs[i - 1].op == Op::AndThen && agg.failed() {
        agg
    } else {
        match events[0] {
            EventView::Completed(c) => walk(
                segs,
                i + 1,
                agg.folded_completion(c),
                events.drop_first(),
            ),
            EventView::SpawnFailed(k) => walk(
                segs,
                i + 1,
                agg.folded_failure(k, words(segs[i].text@)[0]),
                events.drop_first(),
            ),
            EventView::Spawned => agg,
        }
    }
}

/// Law: any walk leaves the aggregate either exactly as it started —
/// nothing was folded — or settled, with exactly one of exit code and
/// signal set, never both, never neither.
pub proof fn lemma_walk_settled(
    segs: Seq<Segment>,
    i: int,
    agg: AggregateView,
    events: Seq<EventView>,
)
    ensures
        walk(segs, i, agg, events).settled() || walk(segs, i, agg, events) == agg,
    decreases segs.len() - i,
{
    if i >= segs.len() || events.len() == 0 {
    } else if segs[i].op == Op::Pipe {
        match events[0] {
            EventView::Spawned => {
                lemma_walk_settled(segs, i + 1, agg, events.drop_first());
            },
            EventView::SpawnFailed(k) => {
                lemma_walk_settled(
                    segs,
                    i + 1,
                    agg.folded_failure(k, words(segs[i].text@)[0]),
                    events.drop_first(),
                );
            },
            EventView::Completed(_) => {},
        }
    } else if i > 0 && segs[i - 1].op == Op::AndThen && agg.failed() {
    } else {
        match events[0] {
            EventView::Completed(c) => {
                lemma_walk_settled(segs, i + 1, agg.folded_completion(c), events.drop_first());
            },
            EventView::SpawnFailed(k) => {
                lemma_walk_settled(
                    segs,
                    i + 1,
                    agg.folded_failure(k, words(segs[i].text@)[0]),
                    events.drop_first(),
                );
            },
            EventView::Spawned => {},
        }
    }
}

/// Law: for an expression of a single segment and no operators, the run's
/// aggregate is exactly the lone program's own outcome — its exit code or
/// signal, its stdout and its stderr, nothing else.
pub proof fn lemma_single_segment_identity(
    segs: Seq<Segment>,
    c: CompletionView,
    events: Seq<EventView>,
)
    requires
        segs.len() == 1,
        segs[0].op == Op::Last,
        events.len() >= 1,
        events[0] == EventView::Completed(c),
    ensures
        walk(segs, 0, AggregateView::empty(), events) == (AggregateView {
            exit_code: match c.status {
                Status::Exited(code) => Some(code),
                Status::Signaled(_) => None,
            },
            signal: match c.status {
                Status::Exited(_) => None,
                Status::Signaled(sig) => Some(sig),
            },
            stdout: c.stdout,
            stderr: c.stderr,
        }),
{
    let folded = AggregateView::empty().folded_completion(c);
    assert(walk(segs, 0, AggregateView::empty(), events) == walk(
        segs,
        1,
        folded,
        events.drop_first(),
    ));
    assert(walk(segs, 1, folded, events.drop_first()) == folded);
    crate::aggregate::lemma_identity_fold(c);
}

/// Drives a whole walk against a script of pre-recorded outcomes, one per
/// spawn attempt in order, and returns the final aggregate: exactly
/// [`walk`] over the segments, the empty aggregate and the script. This is
/// the state machine folded in one piece, as a driver with a real process
/// invoker replays it event by event.
pub fn run_scripted(segments: Vec<Segment>, events: Vec<Event>) -> (agg: Aggregate)
    requires
        wf_segment_texts(segments@),
    ensures
        agg@ == walk(segments@, 0, AggregateView::empty(), event_views(events@)),
{
    let ghost script = event_views(events@);
    let mut events = events;
    let mut seq = Sequencer::new(segments);
    loop
        invariant_except_break
            walk(segments@, 0, AggregateView::empty(), script) == (if seq.aborted {
                seq.aggregate@
            } else {
                walk(segments@, seq.index as int, seq.aggregate@, event_views(events@))
            }),
        invariant
            seq.wf(),
            seq.segments@ == segments@,
        ensures
            walk(segments@, 0, AggregateView::empty(), script) == seq.aggregate@,
        decreases events@.len(),
    {
        let action = seq.next_action();
        if action == Action::Finished {
            break;
        }
        if events.len() == 0 {
            break;
        }
        let ghost evs0 = events@;
        let ev = events.remove(0);
        proof {
            assert(evs0.remove(0) =~= evs0.drop_first());
            assert(event_views(evs0).drop_first() =~= event_views(events@));
            assert(event_views(evs0)[0] == ev@);
        }
        match action {
            Action::RunDetached => {
                match ev {
                    Event::Spawned => seq.apply_detached(),
                    Event::SpawnFailed(k) => seq.apply_spawn_failure(k),
                    Event::Completed(_) => {
                        break;
                    },
                }
            },
            Action::RunBlocking => {
                match ev {
                    Event::Completed(c) => seq.apply_completion(c),
                    Event::SpawnFailed(k) => seq.apply_spawn_failure(k),
                    Event::Spawned => {
                        break;
                    },
                }
            },
            Action::Finished => {
                break;
            },
        }
    }
    seq.aggregate
}

} // verus!
