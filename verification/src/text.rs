//! Character-level helpers shared by the segmenter and the invoker's
//! word splitting: the whitespace predicate, trimming, and splitting a
//! command text into whitespace-separated words.

use vstd::prelude::*;

verus! {

/// The whitespace characters recognized when trimming segment text and when
/// splitting a command into words: the ASCII blank characters.
pub open spec fn is_space(c: char) -> bool {
    c == ' ' || c == '\t' || c == '\n' || c == '\r' || c == '\u{b}' || c == '\u{c}'
}

/// Executable form of [`is_space`].
pub fn char_is_space(c: char) -> (r: bool)
    ensures
        r == is_space(c),
{
    c == ' ' || c == '\t' || c == '\n' || c == '\r' || c == '\u{b}' || c == '\u{c}'
}

/// The characters of `s` with leading and trailing whitespace removed.
pub open spec fn trim(s: Seq<char>) -> Seq<char>
    decreases s.len(),
{
    if s.len() == 0 {
        s
    } else if is_space(s[0]) {
        trim(s.drop_first())
    } else if is_space(s[s.len() - 1]) {
        trim(s.drop_last())
    } else {
        s
    }
}

/// A sequence of only whitespace trims to the empty sequence.
proof fn lemma_trim_all_space(s: Seq<char>)
    requires
        forall|j: int| 0 <= j < s.len() ==> is_space(s[j]),
    ensures
        trim(s) == Seq::<char>::empty(),
    decreases s.len(),
{
    if s.len() == 0 {
        assert(trim(s) =~= Seq::<char>::empty());
    } else {
        lemma_trim_all_space(s.drop_first());
    }
}

/// Trimming keeps exactly the characters between the first and the last
/// non-whitespace position.
pub proof fn lemma_trim_bounds(s: Seq<char>, a: int, b: int)
    requires
        0 <= a <= b <= s.len(),
        forall|j: int| 0 <= j < a ==> is_space(s[j]),
        forall|j: int| b <= j < s.len() ==> is_space(s[j]),
        a < b ==> !is_space(s[a]) && !is_space(s[b - 1]),
    ensures
        trim(s) == s.subrange(a, b),
    decreases s.len(),
{
    if a == b {
        assert(forall|j: int| 0 <= j < s.len() ==> is_space(s[j]));
        lemma_trim_all_space(s);
        assert(trim(s) =~= s.subrange(a, b));
    } else if a > 0 {
        let t = s.drop_first();
        assert(forall|j: int| 0 <= j < a - 1 ==> is_space(t[j]));
        assert(forall|j: int| b - 1 <= j < t.len() ==> is_space(t[j]));
        lemma_trim_bounds(t, a - 1, b - 1);
        assert(t.subrange(a - 1, b - 1) =~= s.subrange(a, b));
    } else if b < s.len() {
        let t = s.drop_last();
        assert(forall|j: int| b <= j < t.len() ==> is_space(t[j]));
        lemma_trim_bounds(t, a, b);
        assert(t.subrange(a, b) =~= s.subrange(a, b));
    } else {
        assert(trim(s) =~= s.subrange(a, b));
    }
}

/// A trimmed sequence trims to itself.
pub proof fn lemma_trim_idempotent(s: Seq<char>)
    ensures
        trim(trim(s)) == trim(s),
    decreases s.len(),
{
    if s.len() == 0 {
    } else if is_space(s[0]) {
        lemma_trim_idempotent(s.drop_first());
    } else if is_space(s[s.len() - 1]) {
        lemma_trim_idempotent(s.drop_last());
    }
}

/// Trimming never lengthens a sequence.
proof fn lemma_trim_len(s: Seq<char>)
    ensures
        trim(s).len() <= s.len(),
    decreases s.len(),
{
    if s.len() == 0 {
    } else if is_space(s[0]) {
        lemma_trim_len(s.drop_first());
    } else if is_space(s[s.len() - 1]) {
        lemma_trim_len(s.drop_last());
    }
}

/// A non-empty sequence that is its own trim starts with a non-whitespace
/// character.
pub proof fn lemma_trimmed_first_non_space(t: Seq<char>)
    requires
        t.len() > 0,
        trim(t) == t,
    ensures
        !is_space(t[0]),
{
    if is_space(t[0]) {
        lemma_trim_len(t.drop_first());
    }
}

/// One word emitted by the scan: nothing if the accumulated run is empty.
pub open spec fn emit_word(cur: Seq<char>) -> Seq<Seq<char>> {
    if cur.len() == 0 {
        Seq::empty()
    } else {
        seq![cur]
    }
}

/// Left-to-right scan splitting `s` into maximal runs of non-whitespace
/// characters; `cur` is the run accumulated so far.
pub open spec fn words_scan(s: Seq<char>, cur: Seq<char>) -> Seq<Seq<char>>
    decreases s.len(),
{
    if s.len() == 0 {
        emit_word(cur)
    } else if is_space(s[0]) {
        emit_word(cur) + words_scan(s.drop_first(), Seq::empty())
    } else {
        words_scan(s.drop_first(), cur.push(s[0]))
    }
}

/// The whitespace-separated words of `s`, in order.
pub open spec fn words(s: Seq<char>) -> Seq<Seq<char>> {
    words_scan(s, Seq::empty())
}

/// The views of a sequence of owned strings.
pub open spec fn word_views(ws: Seq<String>) -> Seq<Seq<char>> {
    ws.map_values(|w: String| w@)
}

/// A scan whose accumulated run is non-empty yields at least one word.
proof fn lemma_words_scan_nonempty(s: Seq<char>, cur: Seq<char>)
    requires
        cur.len() > 0 || (s.len() > 0 && !is_space(s[0])),
    ensures
        words_scan(s, cur).len() >= 1,
    decreases s.len(),
{
    if s.len() == 0 {
    } else if is_space(s[0]) {
    } else {
        lemma_words_scan_nonempty(s.drop_first(), cur.push(s[0]));
    }
}

/// A text that starts with a non-whitespace character splits into at least
/// one word.
pub proof fn lemma_words_nonempty(s: Seq<char>)
    requires
        s.len() > 0,
        !is_space(s[0]),
    ensures
        words(s).len() >= 1,
{
    lemma_words_scan_nonempty(s, Seq::empty());
}

/// Splits a command text into its whitespace-separated words, the program
/// name first, then its arguments, in order.
pub fn split_words(s: &str) -> (r: Vec<String>)
    ensures
        word_views(r@) == words(s@),
{
    let n = s.unicode_len();
    let mut r: Vec<String> = Vec::new();
    let mut i: usize = 0;
    let mut start: usize = 0;
    proof {
        assert(s@.skip(0) =~= s@);
        assert(s@.subrange(0, 0) =~= Seq::<char>::empty());
        assert(words(s@) =~= word_views(r@) + words_scan(s@, Seq::<char>::empty()));
    }
    while i < n
        invariant
            n == s@.len(),
            start <= i <= n,
            words(s@) == word_views(r@) + words_scan(
                s@.skip(i as int),
                s@.subrange(start as int, i as int),
            ),
        decreases n - i,
    {
        let ghost rest = s@.skip(i as int);
        let ghost cur = s@.subrange(start as int, i as int);
        let c = s.get_char(i);
        if char_is_space(c) {
            if start < i {
                let w = s.substring_char(start, i).to_owned();
                r.push(w);
                proof {
                    assert(word_views(r@) =~= word_views(r@.drop_last()) + seq![cur]);
                }
            }
            proof {
                assert(rest.drop_first() =~= s@.skip(i + 1));
                assert(s@.subrange(i + 1, i + 1) =~= Seq::<char>::empty());
                assert(words_scan(rest, cur) == emit_word(cur) + words_scan(
                    s@.skip(i + 1),
                    Seq::empty(),
                ));
            }
            i = i + 1;
            start = i;
        } else {
            proof {
                assert(rest.drop_first() =~= s@.skip(i + 1));
                assert(cur.push(s@[i as int]) =~= s@.subrange(start as int, i + 1));
            }
            i = i + 1;
        }
    }
    let ghost cur = s@.subrange(start as int, i as int);
    proof {
        assert(s@.skip(i as int).len() == 0);
        assert(words_scan(s@.skip(i as int), cur) == emit_word(cur));
    }
    if start < i {
        let w = s.substring_char(start, i).to_owned();
        r.push(w);
        proof {
            assert(word_views(r@) =~= word_views(r@.drop_last()) + seq![cur]);
        }
    }
    proof {
        assert(words(s@) =~= word_views(r@));
    }
    r
}

} // verus!
