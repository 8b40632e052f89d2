//! The segmenter: one left-to-right scan that splits a raw expression
//! string on the operator tokens `&&`, `;` and `|` into an ordered sequence
//! of segments, each carrying the operator that links it to the next one.
//!
//! Only the exact two-character token `&&` and the single characters `;` and
//! `|` are recognized; the grammar has no quoting, nesting or precedence. A
//! lone `&` is ordinary text, and a `||` is read literally as two pipe
//! operators (whose empty middle segment is then dropped). A segment whose
//! text is empty after trimming is dropped: a trailing separator yields no
//! extra segment.

use vstd::prelude::*;

use crate::text::{char_is_space, is_space, trim, lemma_trim_idempotent};

verus! {

/// The operator linking a segment to the segment after it. `Last` marks a
/// segment with no trailing operator; it can only stand on the final
/// segment.
#[derive(Clone, Copy, Debug, PartialEq, Eq, Structural)]
pub enum Op {
    /// `;` — the next segment runs unconditionally.
    Sequence,
    /// `&&` — the next segment runs only if this one did not fail.
    AndThen,
    /// `|` — this segment's standard output feeds the next one's input.
    Pipe,
    /// No trailing operator.
    Last,
}

/// One parsed unit of the expression: the trimmed command text (program
/// name and whitespace-separated arguments) and the operator linking it to
/// the next segment.
#[derive(Debug, PartialEq)]
pub struct Segment {
    pub op: Op,
    pub text: String,
}

/// The segment a finished run of text contributes: none if the run trims to
/// nothing, else one segment of the trimmed text under the given operator.
pub open spec fn finish_segment(cur: Seq<char>, op: Op) -> Seq<(Op, Seq<char>)> {
    if trim(cur).len() == 0 {
        Seq::empty()
    } else {
        seq![(op, trim(cur))]
    }
}

/// The left-to-right scan: `cur` is the text accumulated since the last
/// operator token; `&&` is matched before the single-character operators.
pub open spec fn scan_segments(s: Seq<char>, cur: Seq<char>) -> Seq<(Op, Seq<char>)>
    decreases s.len(),
{
    if s.len() == 0 {
        finish_segment(cur, Op::Last)
    } else if s.len() >= 2 && s[0] == '&' && s[1] == '&' {
        finish_segment(cur, Op::AndThen) + scan_segments(s.skip(2), Seq::empty())
    } else if s[0] == ';' {
        finish_segment(cur, Op::Sequence) + scan_segments(s.skip(1), Seq::empty())
    } else if s[0] == '|' {
        finish_segment(cur, Op::Pipe) + scan_segments(s.skip(1), Seq::empty())
    } else {
        scan_segments(s.drop_first(), cur.push(s[0]))
    }
}

/// The ordered segments of an expression: operator and trimmed text of each.
pub open spec fn segments_of(s: Seq<char>) -> Seq<(Op, Seq<char>)> {
    scan_segments(s, Seq::empty())
}

/// The views of a sequence of produced segments.
pub open spec fn segment_views(segs: Seq<Segment>) -> Seq<(Op, Seq<char>)> {
    segs.map_values(|sg: Segment| (sg.op, sg.text@))
}

/// A produced segment's text is never empty and carries no surrounding
/// whitespace.
pub open spec fn wf_segment_texts(segs: Seq<Segment>) -> bool {
    forall|i: int|
        0 <= i < segs.len() ==> (#[trigger] segs[i].text@).len() > 0 && trim(segs[i].text@)
            == segs[i].text@
}

/// A text the scan may emit: non-empty and free of surrounding whitespace.
pub open spec fn wf_text(t: Seq<char>) -> bool {
    t.len() > 0 && trim(t) == t
}

/// Every segment the scan yields has non-empty, trimmed text.
proof fn lemma_scan_segments_texts(s: Seq<char>, cur: Seq<char>, i: int)
    requires
        0 <= i < scan_segments(s, cur).len(),
    ensures
        wf_text(scan_segments(s, cur)[i].1),
    decreases s.len(),
{
    lemma_trim_idempotent(cur);
    if s.len() == 0 {
    } else if s.len() >= 2 && s[0] == '&' && s[1] == '&' {
        let f = finish_segment(cur, Op::AndThen);
        if i >= f.len() {
            lemma_scan_segments_texts(s.skip(2), Seq::empty(), i - f.len());
        }
    } else if s[0] == ';' {
        let f = finish_segment(cur, Op::Sequence);
        if i >= f.len() {
            lemma_scan_segments_texts(s.skip(1), Seq::empty(), i - f.len());
        }
    } else if s[0] == '|' {
        let f = finish_segment(cur, Op::Pipe);
        if i >= f.len() {
            lemma_scan_segments_texts(s.skip(1), Seq::empty(), i - f.len());
        }
    } else {
        lemma_scan_segments_texts(s.drop_first(), cur.push(s[0]), i);
    }
}

/// Law: the segmenter is a pure function of the expression text — scanning
/// the same string twice yields the identical ordered segment sequence.
pub proof fn lemma_segmenter_deterministic(a: Seq<char>, b: Seq<char>)
    requires
        a == b,
    ensures
        segments_of(a) == segments_of(b),
{
}

/// Within the scan's result, only the segment emitted at the very end can
/// lack a trailing operator.
proof fn lemma_scan_segments_last_op(s: Seq<char>, cur: Seq<char>, i: int)
    requires
        0 <= i < scan_segments(s, cur).len() - 1,
    ensures
        scan_segments(s, cur)[i].0 != Op::Last,
    decreases s.len(),
{
    if s.len() == 0 {
    } else if s.len() >= 2 && s[0] == '&' && s[1] == '&' {
        let f = finish_segment(cur, Op::AndThen);
        if i >= f.len() {
            lemma_scan_segments_last_op(s.skip(2), Seq::empty(), i - f.len());
        }
    } else if s[0] == ';' {
        let f = finish_segment(cur, Op::Sequence);
        if i >= f.len() {
            lemma_scan_segments_last_op(s.skip(1), Seq::empty(), i - f.len());
        }
    } else if s[0] == '|' {
        let f = finish_segment(cur, Op::Pipe);
        if i >= f.len() {
            lemma_scan_segments_last_op(s.skip(1), Seq::empty(), i - f.len());
        }
    } else {
        lemma_scan_segments_last_op(s.drop_first(), cur.push(s[0]), i);
    }
}

/// Law: a segment without a trailing operator only ever stands last — every
/// earlier segment carries the operator linking it to its successor.
pub proof fn lemma_last_only_at_end(s: Seq<char>, i: int)
    requires
        0 <= i < segments_of(s).len() - 1,
    ensures
        segments_of(s)[i].0 != Op::Last,
{
    lemma_scan_segments_last_op(s, Seq::empty(), i);
}

/// Trims `input`'s characters in the range `[start, end)` and, if anything
/// is left, appends it as one segment under `op`.
fn push_segment(segs: &mut Vec<Segment>, input: &str, start: usize, end: usize, op: Op)
    requires
        start <= end <= input@.len(),
    ensures
        segment_views(final(segs)@) == segment_views(old(segs)@) + finish_segment(
            input@.subrange(start as int, end as int),
            op,
        ),
{
    let ghost s = input@.subrange(start as int, end as int);
    let mut a = start;
    while a < end && char_is_space(input.get_char(a))
        invariant
            start <= a <= end <= input@.len(),
            forall|j: int| start <= j < a ==> is_space(input@[j]),
        decreases end - a,
    {
        a = a + 1;
    }
    let mut b = end;
    while b > a && char_is_space(input.get_char(b - 1))
        invariant
            a <= b <= end <= input@.len(),
            forall|j: int| b <= j < end ==> is_space(input@[j]),
        decreases b,
    {
        b = b - 1;
    }
    proof {
        assert(forall|j: int| 0 <= j < a - start ==> is_space(s[j]));
        assert(forall|j: int| b - start <= j < s.len() ==> is_space(s[j]));
        crate::text::lemma_trim_bounds(s, a - start, b - start);
        assert(s.subrange(a - start, b - start) =~= input@.subrange(a as int, b as int));
    }
    if a < b {
        let text = input.substring_char(a, b).to_owned();
        segs.push(Segment { op, text });
        proof {
            assert(segment_views(segs@) =~= segment_views(segs@.drop_last()) + seq![
                (op, input@.subrange(a as int, b as int)),
            ]);
        }
    } else {
        proof {
            assert(segment_views(segs@) =~= segment_views(segs@) + finish_segment(s, op));
        }
    }
}

/// Splits a raw expression into its ordered segments: the result's operator
/// and text pairs are exactly [`segments_of`] the input, so the segmenter is
/// deterministic, and every produced text is non-empty and trimmed.
pub fn segment_expression(input: &str) -> (segs: Vec<Segment>)
    ensures
        segment_views(segs@) == segments_of(input@),
        wf_segment_texts(segs@),
{
    let n = input.unicode_len();
    let mut segs: Vec<Segment> = Vec::new();
    let mut i: usize = 0;
    let mut start: usize = 0;
    proof {
        assert(input@.skip(0) =~= input@);
        assert(input@.subrange(0, 0) =~= Seq::<char>::empty());
        assert(segments_of(input@) =~= segment_views(segs@) + scan_segments(
            input@,
            Seq::<char>::empty(),
        ));
    }
    while i < n
        invariant
            n == input@.len(),
            start <= i <= n,
            segments_of(input@) == segment_views(segs@) + scan_segments(
                input@.skip(i as int),
                input@.subrange(start as int, i as int),
            ),
        decreases n - i,
    {
        let ghost rest = input@.skip(i as int);
        let ghost cur = input@.subrange(start as int, i as int);
        let c = input.get_char(i);
        let and_here = c == '&' && i + 1 < n && input.get_char(i + 1) == '&';
        if and_here {
            push_segment(&mut segs, input, start, i, Op::AndThen);
            proof {
                assert(rest.skip(2) =~= input@.skip(i + 2));
                assert(input@.subrange(i + 2, i + 2) =~= Seq::<char>::empty());
                assert(segments_of(input@) =~= segment_views(segs@) + scan_segments(
                    input@.skip(i + 2),
                    Seq::<char>::empty(),
                ));
            }
            i = i + 2;
            start = i;
        } else if c == ';' {
            push_segment(&mut segs, input, start, i, Op::Sequence);
            proof {
                assert(rest.skip(1) =~= input@.skip(i + 1));
                assert(rest.skip(1) =~= rest.drop_first());
                assert(input@.subrange(i + 1, i + 1) =~= Seq::<char>::empty());
                assert(segments_of(input@) =~= segment_views(segs@) + scan_segments(
                    input@.skip(i + 1),
                    Seq::<char>::empty(),
                ));
            }
            i = i + 1;
            start = i;
        } else if c == '|' {
            push_segment(&mut segs, input, start, i, Op::Pipe);
            proof {
                assert(rest.skip(1) =~= input@.skip(i + 1));
                assert(rest.skip(1) =~= rest.drop_first());
                assert(input@.subrange(i + 1, i + 1) =~= Seq::<char>::empty());
                assert(segments_of(input@) =~= segment_views(segs@) + scan_segments(
                    input@.skip(i + 1),
                    Seq::<char>::empty(),
                ));
            }
            i = i + 1;
            start = i;
        } else {
            proof {
                assert(rest.drop_first() =~= input@.skip(i + 1));
                assert(cur.push(input@[i as int]) =~= input@.subrange(start as int, i + 1));
            }
            i = i + 1;
        }
    }
    proof {
        assert(input@.skip(i as int).len() == 0);
    }
    push_segment(&mut segs, input, start, n, Op::Last);
    proof {
        assert(segments_of(input@) =~= segment_views(segs@));
        assert forall|k: int| 0 <= k < segs@.len() implies (#[trigger] segs@[k].text@).len() > 0
            && trim(segs@[k].text@) == segs@[k].text@ by {
            assert(segment_views(segs@)[k] == (segs@[k].op, segs@[k].text@));
            lemma_scan_segments_texts(input@, Seq::empty(), k);
        }
    }
    segs
}

} // verus!
