//! Small operations on text: its characters, white space, trimming,
//! comparing with a word.

use vstd::prelude::*;

verus! {

/// The characters of a string, in order.
pub fn to_chars(s: &str) -> (v: Vec<char>)
    ensures
        v@ == s@,
{
    broadcast use vstd::string::group_string_axioms;

    let mut v: Vec<char> = Vec::new();
    for c in it: s.chars()
        invariant
            it.seq() == s@,
            v@ == it.seq().take(it.index()),
    {
        assert(it.seq().take(it.index() + 1) == it.seq().take(it.index()).push(c));
        v.push(c);
    }
    assert(s@.take(s@.len() as int) == s@);
    v
}

/// Whether `c` occurs in `v[from..to)`.
pub fn contains_char(v: &Vec<char>, from: usize, to: usize, c: char) -> (found: bool)
    requires
        from <= to <= v.len(),
    ensures
        found == v@.subrange(from as int, to as int).contains(c),
{
    let ghost s = v@.subrange(from as int, to as int);
    let mut i = from;
    while i < to
        invariant
            from <= i <= to <= v.len(),
            s == v@.subrange(from as int, to as int),
            forall|j: int| 0 <= j < i - from ==> s[j] != c,
        decreases to - i,
    {
        if v[i] == c {
            assert(s[i - from] == c);
            return true;
        }
        i += 1;
    }
    false
}

/// Whether a character is white space, as Unicode defines it.
pub open spec fn is_whitespace(c: char) -> bool {
    ||| '\u{0009}' <= c <= '\u{000D}'
    ||| c == '\u{0020}'
    ||| c == '\u{0085}'
    ||| c == '\u{00A0}'
    ||| c == '\u{1680}'
    ||| '\u{2000}' <= c <= '\u{200A}'
    ||| c == '\u{2028}'
    ||| c == '\u{2029}'
    ||| c == '\u{202F}'
    ||| c == '\u{205F}'
    ||| c == '\u{3000}'
}

/// The text without the white space that leads it.
pub open spec fn trim_start(s: Seq<char>) -> Seq<char>
    decreases s.len(),
{
    if s.len() > 0 && is_whitespace(s[0]) {
        trim_start(s.skip(1))
    } else {
        s
    }
}

/// The text without the white space that ends it.
pub open spec fn trim_end(s: Seq<char>) -> Seq<char>
    decreases s.len(),
{
    if s.len() > 0 && is_whitespace(s.last()) {
        trim_end(s.drop_last())
    } else {
        s
    }
}

/// The text without white space at either end.
pub open spec fn trimmed(s: Seq<char>) -> Seq<char> {
    trim_end(trim_start(s))
}

fn whitespace(c: char) -> (b: bool)
    ensures
        b == is_whitespace(c),
{
    ('\u{0009}' <= c && c <= '\u{000D}') || c == '\u{0020}' || c == '\u{0085}' || c == '\u{00A0}'
        || c == '\u{1680}' || ('\u{2000}' <= c && c <= '\u{200A}') || c == '\u{2028}' || c
        == '\u{2029}' || c == '\u{202F}' || c == '\u{205F}' || c == '\u{3000}'
}

/// Finds the part of `v` that is left when white space is trimmed from
/// both ends.
pub fn trim_range(v: &Vec<char>) -> (r: (usize, usize))
    ensures
        r.0 <= r.1 <= v.len(),
        v@.subrange(r.0 as int, r.1 as int) == trimmed(v@),
{
    let n = v.len();
    let mut from: usize = 0;
    assert(v@.skip(0) == v@);
    while from < n && whitespace(v[from])
        invariant
            from <= n == v.len(),
            trim_start(v@) == trim_start(v@.skip(from as int)),
        decreases n - from,
    {
        assert(v@.skip(from as int).skip(1) == v@.skip(from + 1));
        from += 1;
    }
    let ghost rest = v@.skip(from as int);
    assert(trim_start(v@) == rest);
    let mut to: usize = n;
    assert(rest.take(rest.len() as int) == rest);
    while to > from && whitespace(v[to - 1])
        invariant
            from <= to <= n == v.len(),
            rest == v@.skip(from as int),
            trim_end(rest) == trim_end(rest.take(to - from)),
        decreases to,
    {
        assert(rest.take(to - from).drop_last() == rest.take(to - from - 1));
        to -= 1;
    }
    assert(rest.take(to - from) == v@.subrange(from as int, to as int));
    (from, to)
}

/// Whether `v[from..to)` is the text `word`.
pub fn range_is(v: &Vec<char>, from: usize, to: usize, word: &str) -> (b: bool)
    requires
        from <= to <= v.len(),
    ensures
        b == (v@.subrange(from as int, to as int) == word@),
{
    let w = to_chars(word);
    let ghost s = v@.subrange(from as int, to as int);
    if w.len() != to - from {
        return false;
    }
    let mut i: usize = 0;
    while i < w.len()
        invariant
            i <= w.len() == to - from,
            from <= to <= v.len(),
            s == v@.subrange(from as int, to as int),
            w@ == word@,
            forall|j: int| 0 <= j < i ==> s[j] == w@[j],
        decreases w.len() - i,
    {
        if v[from + i] != w[i] {
            assert(s[i as int] != w@[i as int]);
            return false;
        }
        i += 1;
    }
    assert(s =~= w@);
    true
}

} // verus!
