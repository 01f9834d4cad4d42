//! Text: white space, and the parts of a text.
use vstd::prelude::*;

verus! {

/// Whether `c` is white space: the characters with the Unicode property
/// `White_Space`.
pub open spec fn is_whitespace(c: char) -> bool {
    ||| ('\u{9}' <= c && c <= '\u{d}')
    ||| c == ' '
    ||| c == '\u{85}'
    ||| c == '\u{a0}'
    ||| c == '\u{1680}'
    ||| ('\u{2000}' <= c && c <= '\u{200a}')
    ||| c == '\u{2028}'
    ||| c == '\u{2029}'
    ||| c == '\u{202f}'
    ||| c == '\u{205f}'
    ||| c == '\u{3000}'
}

/// Computes [`is_whitespace`].
pub fn is_whitespace_char(c: char) -> (b: bool)
    ensures
        b == is_whitespace(c),
{
    ('\u{9}' <= c && c <= '\u{d}') || c == ' ' || c == '\u{85}' || c == '\u{a0}' || c
        == '\u{1680}' || ('\u{2000}' <= c && c <= '\u{200a}') || c == '\u{2028}' || c
        == '\u{2029}' || c == '\u{202f}' || c == '\u{205f}' || c == '\u{3000}'
}

/// The characters of `text`, one by one.
pub fn chars_of(text: &str) -> (chars: Vec<char>)
    ensures
        chars@ == text@,
{
    broadcast use vstd::string::group_string_axioms;

    let mut chars: Vec<char> = Vec::new();
    for c in it: text.chars()
        invariant
            it.seq() == text@,
            chars@ == text@.take(it.index() as int),
    {
        chars.push(c);
    }
    chars
}

/// The number of white space characters that `s` starts with.
pub open spec fn leading_whitespace(s: Seq<char>) -> nat
    decreases s.len(),
{
    if s.len() > 0 && is_whitespace(s[0]) {
        1 + leading_whitespace(s.drop_first())
    } else {
        0
    }
}

/// The number of white space characters that `s` ends with.
pub open spec fn trailing_whitespace(s: Seq<char>) -> nat
    decreases s.len(),
{
    if s.len() > 0 && is_whitespace(s.last()) {
        1 + trailing_whitespace(s.drop_last())
    } else {
        0
    }
}

/// The text without the white space that it starts with and ends with.
pub open spec fn trimmed(s: Seq<char>) -> Seq<char> {
    let rest = s.skip(leading_whitespace(s) as int);
    rest.take(rest.len() - trailing_whitespace(rest))
}

/// Takes the white space off both ends of a text.
pub fn trim(text: &str) -> (result: &str)
    ensures
        result@ == trimmed(text@),
{
    let chars = chars_of(text);
    let n = chars.len();
    let mut start: usize = 0;
    assert(text@.skip(0) == text@);
    while start < n && is_whitespace_char(chars[start])
        invariant
            chars@ == text@,
            n == chars@.len(),
            start <= n,
            leading_whitespace(text@) == start + leading_whitespace(text@.skip(start as int)),
        decreases n - start,
    {
        assert(text@.skip(start as int).drop_first() == text@.skip(start + 1));
        start = start + 1;
    }
    let ghost rest = text@.skip(start as int);
    assert(leading_whitespace(rest) == 0);
    let mut end: usize = n;
    assert(rest.take(rest.len() as int) == rest);
    while end > start && is_whitespace_char(chars[end - 1])
        invariant
            chars@ == text@,
            n == chars@.len(),
            start <= end <= n,
            rest == text@.skip(start as int),
            trailing_whitespace(rest) == (n - end) + trailing_whitespace(
                rest.take(end - start),
            ),
        decreases end,
    {
        assert(rest.take(end - start).last() == text@[end - 1]);
        assert(rest.take(end - start).drop_last() == rest.take(end - 1 - start));
        end = end - 1;
    }
    proof {
        let kept = rest.take(end - start);
        if end > start {
            assert(kept.last() == text@[end - 1]);
        }
        assert(trailing_whitespace(kept) == 0);
        assert(kept == text@.subrange(start as int, end as int));
    }
    text.substring_char(start, end)
}

/// Whether `part` stands in `text` at the position `at`.
pub open spec fn occurs_at(text: Seq<char>, part: Seq<char>, at: int) -> bool {
    0 <= at && at + part.len() <= text.len() && text.subrange(at, at + part.len()) == part
}

/// Whether `part` stands somewhere in `text`.
pub open spec fn has_substring(text: Seq<char>, part: Seq<char>) -> bool {
    exists|at: int| occurs_at(text, part, at)
}

/// Whether `part` stands in `text` at the position `at`.
pub fn matches_at(text: &Vec<char>, part: &Vec<char>, at: usize) -> (found: bool)
    ensures
        found == occurs_at(text@, part@, at as int),
{
    if part.len() > text.len() || at > text.len() - part.len() {
        return false;
    }
    let mut k: usize = 0;
    while k < part.len()
        invariant
            k <= part.len(),
            at + part.len() <= text.len(),
            forall|j: int| 0 <= j < k ==> text@[at + j] == part@[j],
        decreases part.len() - k,
    {
        if text[at + k] != part[k] {
            assert(text@.subrange(at as int, at + part.len())[k as int] != part@[k as int]);
            return false;
        }
        k = k + 1;
    }
    assert(text@.subrange(at as int, at + part.len()) == part@);
    true
}

/// Whether `text` starts with `part`.
pub fn starts_with(text: &Vec<char>, part: &Vec<char>) -> (found: bool)
    ensures
        found == part@.is_prefix_of(text@),
{
    matches_at(text, part, 0)
}

/// Whether `part` stands somewhere in `text`.
pub fn contains(text: &Vec<char>, part: &Vec<char>) -> (found: bool)
    ensures
        found == has_substring(text@, part@),
{
    if part.len() > text.len() {
        assert forall|at: int| !occurs_at(text@, part@, at) by {}
        return false;
    }
    let last = text.len() - part.len();
    let mut at: usize = 0;
    while at < last
        invariant
            last == text.len() - part.len(),
            at <= last,
            forall|k: int| 0 <= k < at ==> !occurs_at(text@, part@, k),
        decreases last - at,
    {
        if matches_at(text, part, at) {
            return true;
        }
        at = at + 1;
    }
    let found = matches_at(text, part, last);
    if !found {
        assert forall|k: int| !occurs_at(text@, part@, k) by {}
    }
    found
}

} // verus!
