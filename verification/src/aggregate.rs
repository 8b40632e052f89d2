//! The result aggregate: the single running result of the whole
//! expression, and the two ways a segment's outcome folds into it — a
//! captured process completion (overwrite the status, append the output)
//! and a recoverable spawn failure (synthetic exit code plus a diagnostic
//! line on stderr).

use vstd::prelude::*;
use vstd::utf8::encode_utf8;

verus! {

/// How one process ended: a normal exit carrying its code, or death by a
/// signal carrying the signal number. A process never reports both.
#[derive(Clone, Copy, Debug, PartialEq, Eq, Structural)]
pub enum Status {
    Exited(i32),
    Signaled(i32),
}

/// The captured outcome of one blocking invocation: how the process ended
/// and its full standard output and standard error.
pub struct Completion {
    pub status: Status,
    pub stdout: Vec<u8>,
    pub stderr: Vec<u8>,
}

/// Mathematical view of a [`Completion`].
pub struct CompletionView {
    pub status: Status,
    pub stdout: Seq<u8>,
    pub stderr: Seq<u8>,
}

impl View for Completion {
    type V = CompletionView;

    open spec fn view(&self) -> CompletionView {
        CompletionView { status: self.status, stdout: self.stdout@, stderr: self.stderr@ }
    }
}

/// A spawn failure the run recovers from. Any other spawn error is fatal:
/// it aborts the whole run and never reaches the aggregate.
#[derive(Clone, Copy, Debug, PartialEq, Eq, Structural)]
pub enum SpawnFailure {
    /// The program was not found.
    NotFound,
    /// The program may not be executed.
    PermissionDenied,
}

/// The synthetic exit code standing in for a recoverable spawn failure.
pub open spec fn failure_exit_code(k: SpawnFailure) -> i32 {
    match k {
        SpawnFailure::NotFound => 127,
        SpawnFailure::PermissionDenied => 126,
    }
}

/// The diagnostic line appended to stderr when spawning `program` failed.
pub open spec fn failure_diagnostic(k: SpawnFailure, program: Seq<char>) -> Seq<char> {
    match k {
        SpawnFailure::NotFound => ("command not found: ")@ + program,
        SpawnFailure::PermissionDenied => ("permission denied: ")@ + program,
    }
}

/// The single running result of the whole expression. `exit_code` is
/// `None` exactly when the last folded segment was killed by a signal;
/// `stdout` and `stderr` are append-only concatenations of every folded
/// segment's output in execution order.
pub struct Aggregate {
    pub exit_code: Option<i32>,
    pub signal: Option<i32>,
    pub stdout: Vec<u8>,
    pub stderr: Vec<u8>,
}

/// Mathematical view of an [`Aggregate`].
#[verifier::ext_equal]
pub struct AggregateView {
    pub exit_code: Option<i32>,
    pub signal: Option<i32>,
    pub stdout: Seq<u8>,
    pub stderr: Seq<u8>,
}

impl View for Aggregate {
    type V = AggregateView;

    open spec fn view(&self) -> AggregateView {
        AggregateView {
            exit_code: self.exit_code,
            signal: self.signal,
            stdout: self.stdout@,
            stderr: self.stderr@,
        }
    }
}

impl AggregateView {
    /// The aggregate before any segment has run.
    pub open spec fn empty() -> AggregateView {
        AggregateView {
            exit_code: None,
            signal: None,
            stdout: Seq::empty(),
            stderr: Seq::empty(),
        }
    }

    /// Exactly one of `exit_code` and `signal` is set — the state after
    /// any segment's outcome has been folded.
    pub open spec fn settled(self) -> bool {
        (self.exit_code is Some && self.signal is None) || (self.exit_code is None
            && self.signal is Some)
    }

    /// The previous stage failed: it exited with a nonzero code.
    pub open spec fn failed(self) -> bool {
        match self.exit_code {
            Some(code) => code != 0,
            None => false,
        }
    }

    /// The aggregate after folding a captured completion: the outcome
    /// unconditionally overwrites `exit_code`/`signal`, and the captured
    /// output is appended.
    pub open spec fn folded_completion(self, c: CompletionView) -> AggregateView {
        AggregateView {
            exit_code: match c.status {
                Status::Exited(code) => Some(code),
                Status::Signaled(_) => None,
            },
            signal: match c.status {
                Status::Exited(_) => None,
                Status::Signaled(sig) => Some(sig),
            },
            stdout: self.stdout + c.stdout,
            stderr: self.stderr + c.stderr,
        }
    }

    /// The aggregate after folding a recoverable spawn failure of
    /// `program`: the synthetic exit code replaces the status and the
    /// diagnostic line, UTF-8 encoded, is appended to stderr.
    pub open spec fn folded_failure(self, k: SpawnFailure, program: Seq<char>) -> AggregateView {
        AggregateView {
            exit_code: Some(failure_exit_code(k)),
            signal: None,
            stdout: self.stdout,
            stderr: self.stderr + encode_utf8(failure_diagnostic(k, program)),
        }
    }
}

impl Aggregate {
    /// The empty aggregate: nothing has run, no output captured.
    pub fn new() -> (r: Aggregate)
        ensures
            r@ == AggregateView::empty(),
    {
        let r = Aggregate { exit_code: None, signal: None, stdout: Vec::new(), stderr: Vec::new() };
        proof {
            assert(r@ =~= AggregateView::empty());
        }
        r
    }

    /// The previous stage failed: it exited with a nonzero code. A stage
    /// killed by a signal reports no exit code and does not count as a
    /// failure here.
    pub fn failed(&self) -> (r: bool)
        ensures
            r == self@.failed(),
    {
        match self.exit_code {
            Some(code) => code != 0,
            None => false,
        }
    }

    /// Folds one captured process completion into the aggregate.
    pub fn fold_completion(&mut self, c: Completion)
        ensures
            final(self)@ == old(self)@.folded_completion(c@),
    {
        let ghost cv = c@;
        let Completion { status, stdout: mut out, stderr: mut err } = c;
        match status {
            Status::Exited(code) => {
                self.exit_code = Some(code);
                self.signal = None;
            },
            Status::Signaled(sig) => {
                self.exit_code = None;
                self.signal = Some(sig);
            },
        }
        self.stdout.append(&mut out);
        self.stderr.append(&mut err);
        proof {
            assert(self@ =~= old(self)@.folded_completion(cv));
        }
    }

    /// Folds a recoverable failure to spawn `program` into the aggregate.
    pub fn fold_failure(&mut self, k: SpawnFailure, program: &str)
        ensures
            final(self)@ == old(self)@.folded_failure(k, program@),
    {
        match k {
            SpawnFailure::NotFound => {
                self.exit_code = Some(127);
            },
            SpawnFailure::PermissionDenied => {
                self.exit_code = Some(126);
            },
        }
        self.signal = None;
        let prefix = match k {
            SpawnFailure::NotFound => "command not found: ",
            SpawnFailure::PermissionDenied => "permission denied: ",
        };
        let mut line = String::from_str(prefix);
        line.append(program);
        proof {
            assert(line@ =~= failure_diagnostic(k, program@));
        }
        let mut bytes = line.as_str().as_bytes_vec();
        self.stderr.append(&mut bytes);
        proof {
            assert(self@ =~= old(self)@.folded_failure(k, program@));
        }
    }
}

/// Law: for an expression of a single program and no operators, the
/// finished aggregate equals exactly that program's own outcome — its exit
/// code or signal, and its stdout and stderr unchanged.
pub proof fn lemma_identity_fold(c: CompletionView)
    ensures
        AggregateView::empty().folded_completion(c) == (AggregateView {
            exit_code: match c.status {
                Status::Exited(code) => Some(code),
                Status::Signaled(_) => None,
            },
            signal: match c.status {
                Status::Exited(_) => None,
                Status::Signaled(sig) => Some(sig),
            },
            stdout: c.stdout,
            stderr: c.stderr,
        }),
{
    assert(AggregateView::empty().folded_completion(c) =~= (AggregateView {
        exit_code: match c.status {
            Status::Exited(code) => Some(code),
            Status::Signaled(_) => None,
        },
        signal: match c.status {
            Status::Exited(_) => None,
            Status::Signaled(sig) => Some(sig),
        },
        stdout: c.stdout,
        stderr: c.stderr,
    }));
}

/// Law: folding any completion or recoverable spawn failure settles the
/// aggregate — exactly one of exit code and signal is set afterwards,
/// never both, never neither.
pub proof fn lemma_fold_settled(a: AggregateView, c: CompletionView, k: SpawnFailure, program: Seq<char>)
    ensures
        a.folded_completion(c).settled(),
        a.folded_failure(k, program).settled(),
{
}

} // verus!
