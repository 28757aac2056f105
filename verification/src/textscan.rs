//! Scanning of short texts by characters: prefixes, the first place of a
//! character, and pieces cut out of a text.

use vstd::prelude::*;
use vstd::string::StrSliceExecFns;

verus! {

/// Whether `text` begins with `word`.
pub open spec fn begins_with(text: Seq<char>, word: Seq<char>) -> bool {
    text.len() >= word.len() && text.subrange(0, word.len() as int) == word
}

/// The first index at which `c` stands in `text`, or the length of the
/// text when it stands nowhere.
pub open spec fn index_of(text: Seq<char>, c: char) -> int
    decreases text.len(),
{
    if text.len() == 0 {
        0
    } else if text[0] == c {
        0
    } else {
        1 + index_of(text.skip(1), c)
    }
}

/// The index of the first character, from `from` on, that is not `c`; the
/// length of the text when there is none.
pub open spec fn first_other(text: Seq<char>, c: char, from: int) -> int
    decreases text.len() - from,
{
    if from < 0 || from >= text.len() {
        text.len() as int
    } else if text[from] != c {
        from
    } else {
        first_other(text, c, from + 1)
    }
}

/// One more than the index of the last character before `to` that is not
/// `c`, and no less than `low`.
pub open spec fn last_other(text: Seq<char>, c: char, low: int, to: int) -> int
    decreases to - low,
{
    if to <= low || to > text.len() {
        low
    } else if text[to - 1] != c {
        to
    } else {
        last_other(text, c, low, to - 1)
    }
}

/// The text without the characters `c` at its start and at its end.
pub open spec fn trimmed_of(text: Seq<char>, c: char) -> Seq<char> {
    let from = first_other(text, c, 0);
    text.subrange(from, last_other(text, c, from, text.len() as int))
}

/// An index at which `c` stands, with no `c` before it, is the first
/// index of `c`; and so is the length of a text without `c`.
pub proof fn lemma_index_of_is(text: Seq<char>, c: char, i: int)
    requires
        0 <= i <= text.len(),
        i < text.len() ==> text[i] == c,
        forall|j: int| 0 <= j < i ==> text[j] != c,
    ensures
        index_of(text, c) == i,
    decreases text.len(),
{
    if text.len() > 0 && i > 0 {
        assert(text[0] != c);
        assert forall|j: int| 0 <= j < i - 1 implies text.skip(1)[j] != c by {
            assert(text.skip(1)[j] == text[j + 1]);
        }
        lemma_index_of_is(text.skip(1), c, i - 1);
    }
}

/// Whether `text` begins with `word`.
#[verifier::loop_isolation(false)]
pub fn starts_with(text: &str, word: &str) -> (r: bool)
    ensures
        r == begins_with(text@, word@),
{
    let n = text.unicode_len();
    let m = word.unicode_len();
    if n < m {
        return false;
    }
    let mut i: usize = 0;
    while i < m
        invariant
            i <= m,
            forall|j: int| 0 <= j < i ==> text@[j] == word@[j],
        decreases m - i,
    {
        if text.get_char(i) != word.get_char(i) {
            assert(text@.subrange(0, m as int)[i as int] != word@[i as int]);
            return false;
        }
        i += 1;
    }
    assert(text@.subrange(0, m as int) =~= word@);
    true
}

/// Whether `word` stands somewhere in `text`.
pub open spec fn holds(text: Seq<char>, word: Seq<char>) -> bool {
    exists|i: int|
        0 <= i <= text.len() - word.len() && #[trigger] text.subrange(i, i + word.len()) == word
}

/// Whether `word` stands somewhere in `text`.
pub fn contains_text(text: &str, word: &str) -> (r: bool)
    ensures
        r == holds(text@, word@),
{
    let n = text.unicode_len();
    let m = word.unicode_len();
    if m > n {
        return false;
    }
    if m == 0 {
        assert(text@.subrange(0int, 0int + word@.len()) =~= word@);
        return true;
    }
    let mut i: usize = 0;
    while i <= n - m
        invariant
            0 < m <= n,
            n == text@.len(),
            m == word@.len(),
            i <= n - m + 1,
            forall|k: int| 0 <= k < i ==> #[trigger] text@.subrange(k, k + m) != word@,
        decreases n - m + 1 - i,
    {
        if same_text(text.substring_char(i, i + m), word) {
            assert(text@.subrange(i as int, i + m) == word@);
            return true;
        }
        i += 1;
    }
    false
}

/// Whether two texts are the same.
pub fn same_text(a: &str, b: &str) -> (r: bool)
    ensures
        r == (a@ == b@),
{
    if a.unicode_len() != b.unicode_len() {
        return false;
    }
    assert(a@.subrange(0, b@.len() as int) =~= a@);
    starts_with(a, b)
}

/// The first index at which `c` stands in `text`, or the length of the
/// text.
#[verifier::loop_isolation(false)]
pub fn find_char(text: &str, c: char) -> (r: usize)
    ensures
        r == index_of(text@, c),
        r <= text@.len(),
{
    let n = text.unicode_len();
    let mut i: usize = 0;
    while i < n
        invariant
            i <= n,
            forall|j: int| 0 <= j < i ==> text@[j] != c,
        decreases n - i,
    {
        if text.get_char(i) == c {
            proof {
                lemma_index_of_is(text@, c, i as int);
            }
            return i;
        }
        i += 1;
    }
    proof {
        lemma_index_of_is(text@, c, n as int);
    }
    n
}

/// The text without the characters `c` at its start and at its end.
#[verifier::loop_isolation(false)]
pub fn trim_char<'a>(text: &'a str, c: char) -> (r: &'a str)
    ensures
        r@ == trimmed_of(text@, c),
{
    let n = text.unicode_len();
    let mut from: usize = 0;
    while from < n && text.get_char(from) == c
        invariant
            from <= n,
            first_other(text@, c, 0) == first_other(text@, c, from as int),
        decreases n - from,
    {
        from += 1;
    }
    let mut to: usize = n;
    while to > from && text.get_char(to - 1) == c
        invariant
            from <= to <= n,
            last_other(text@, c, from as int, n as int) == last_other(
                text@,
                c,
                from as int,
                to as int,
            ),
        decreases to - from,
    {
        to -= 1;
    }
    text.substring_char(from, to)
}

/// The pieces of a text between the occurrences of `c`, in order. A text
/// without `c` is one piece; a text that ends in `c` has an empty last
/// piece.
pub open spec fn pieces(text: Seq<char>, c: char) -> Seq<Seq<char>>
    decreases text.len(),
{
    let i = index_of(text, c);
    if 0 <= i < text.len() {
        seq![text.subrange(0, i)] + pieces(text.skip(i + 1), c)
    } else {
        seq![text]
    }
}

/// The views of the pieces of a list.
pub open spec fn piece_views(parts: Seq<&str>) -> Seq<Seq<char>> {
    Seq::new(parts.len(), |i: int| parts[i]@)
}

/// The first index of `c` lies within the text or is its length.
pub proof fn lemma_index_of_bounds(text: Seq<char>, c: char)
    ensures
        0 <= index_of(text, c) <= text.len(),
    decreases text.len(),
{
    if text.len() > 0 && text[0] != c {
        lemma_index_of_bounds(text.skip(1), c);
    }
}

/// The first index of `c` lies within the text exactly when the text
/// holds `c`.
pub proof fn lemma_index_of_contains(text: Seq<char>, c: char)
    ensures
        (index_of(text, c) < text.len()) == text.contains(c),
    decreases text.len(),
{
    if text.len() > 0 {
        if text[0] == c {
            assert(text.contains(c));
        } else {
            let rest = text.skip(1);
            lemma_index_of_contains(rest, c);
            if rest.contains(c) {
                let j = choose|j: int| 0 <= j < rest.len() && rest[j] == c;
                assert(text[j + 1] == c);
            }
            if text.contains(c) {
                let j = choose|j: int| 0 <= j < text.len() && text[j] == c;
                assert(rest[j - 1] == c);
            }
        }
    }
}

/// Cuts a text at every occurrence of `c`.
#[verifier::loop_isolation(false)]
pub fn split_at_char<'a>(text: &'a str, c: char) -> (r: Vec<&'a str>)
    ensures
        piece_views(r@) == pieces(text@, c),
        r@.len() >= 1,
{
    let n = text.unicode_len();
    let mut out: Vec<&'a str> = Vec::new();
    let mut rest: &'a str = text;
    let mut left = n;
    loop
        invariant
            left == rest@.len(),
            pieces(text@, c) == piece_views(out@) + pieces(rest@, c),
        decreases left,
    {
        let i = find_char(rest, c);
        if i >= left {
            let ghost before = piece_views(out@);
            out.push(rest);
            assert(piece_views(out@) =~= before + seq![rest@]);
            proof {
                lemma_index_of_bounds(rest@, c);
            }
            return out;
        }
        let piece = rest.substring_char(0, i);
        let tail = rest.substring_char(i + 1, left);
        let ghost before = piece_views(out@);
        assert(rest@.subrange(i + 1, left as int) =~= rest@.skip(i + 1));
        out.push(piece);
        assert(piece_views(out@) =~= before + seq![piece@]);
        assert(before + (seq![piece@] + pieces(tail@, c)) =~= (before + seq![piece@]) + pieces(
            tail@,
            c,
        ));
        rest = tail;
        left = left - i - 1;
    }
}

} // verus!
