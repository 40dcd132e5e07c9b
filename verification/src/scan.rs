//! Scanning primitives of the XML reader: each finds the first position at or
//! after a start where a run of characters ends.

use crate::text::{has_at, holds_at};
use vstd::prelude::*;

verus! {

/// White space inside markup: space, tab, line feed, carriage return.
pub open spec fn is_xml_space(c: char) -> bool {
    c == ' ' || c == '\t' || c == '\n' || c == '\r'
}

/// Whether `c` is white space inside markup.
pub fn is_xml_space_char(c: char) -> (b: bool)
    ensures
        b == is_xml_space(c),
{
    c == ' ' || c == '\t' || c == '\n' || c == '\r'
}

/// A character that may stand in the name of an element or attribute:
/// anything but white space and the characters that delimit markup.
pub open spec fn is_name_char(c: char) -> bool {
    !is_xml_space(c) && c != '<' && c != '>' && c != '/' && c != '=' && c != '"' && c != '\''
        && c != '&'
}

/// Whether `c` may stand in a name.
pub fn is_name_character(c: char) -> (b: bool)
    ensures
        b == is_name_char(c),
{
    !is_xml_space_char(c) && c != '<' && c != '>' && c != '/' && c != '=' && c != '"' && c != '\''
        && c != '&'
}

/// The first position at or after `pos` that holds no markup white space, or
/// the length of `s`.
pub open spec fn skip_spaces(s: Seq<char>, pos: int) -> int
    decreases s.len() - pos,
{
    if 0 <= pos < s.len() && is_xml_space(s[pos]) {
        skip_spaces(s, pos + 1)
    } else {
        pos
    }
}

/// What `skip_spaces` returns is the least position from `pos` on that holds
/// no white space.
pub proof fn lemma_skip_spaces(s: Seq<char>, pos: int)
    requires
        0 <= pos <= s.len(),
    ensures
        pos <= skip_spaces(s, pos) <= s.len(),
        skip_spaces(s, pos) < s.len() ==> !is_xml_space(s[skip_spaces(s, pos)]),
        forall|i: int| pos <= i < skip_spaces(s, pos) ==> is_xml_space(#[trigger] s[i]),
    decreases s.len() - pos,
{
    if pos < s.len() && is_xml_space(s[pos]) {
        lemma_skip_spaces(s, pos + 1);
    }
}

/// The first position at or after `pos` that holds no name character, or the
/// length of `s`.
pub open spec fn name_end(s: Seq<char>, pos: int) -> int
    decreases s.len() - pos,
{
    if 0 <= pos < s.len() && is_name_char(s[pos]) {
        name_end(s, pos + 1)
    } else {
        pos
    }
}

/// What `name_end` returns is the least position from `pos` on that holds no
/// name character.
pub proof fn lemma_name_end(s: Seq<char>, pos: int)
    requires
        0 <= pos <= s.len(),
    ensures
        pos <= name_end(s, pos) <= s.len(),
        name_end(s, pos) < s.len() ==> !is_name_char(s[name_end(s, pos)]),
        forall|i: int| pos <= i < name_end(s, pos) ==> is_name_char(#[trigger] s[i]),
    decreases s.len() - pos,
{
    if pos < s.len() && is_name_char(s[pos]) {
        lemma_name_end(s, pos + 1);
    }
}

/// The first position in `pos..end` that holds `c`, or `end`.
pub open spec fn find_char(s: Seq<char>, pos: int, end: int, c: char) -> int
    decreases end - pos,
{
    if 0 <= pos < end <= s.len() && s[pos] != c {
        find_char(s, pos + 1, end, c)
    } else {
        pos
    }
}

/// What `find_char` returns is the least position in `pos..end` that holds
/// `c`, or `end` where none does.
pub proof fn lemma_find_char(s: Seq<char>, pos: int, end: int, c: char)
    requires
        0 <= pos <= end <= s.len(),
    ensures
        pos <= find_char(s, pos, end, c) <= end,
        find_char(s, pos, end, c) < end ==> s[find_char(s, pos, end, c)] == c,
        forall|i: int| pos <= i < find_char(s, pos, end, c) ==> #[trigger] s[i] != c,
    decreases end - pos,
{
    if pos < end && s[pos] != c {
        lemma_find_char(s, pos + 1, end, c);
    }
}

/// The first position at or after `pos` where `s` holds `pat`, or the length
/// of `s`.
pub open spec fn find_seq(s: Seq<char>, pos: int, pat: Seq<char>) -> int
    decreases s.len() - pos,
{
    if 0 <= pos < s.len() && !holds_at(s, pos, pat) {
        find_seq(s, pos + 1, pat)
    } else {
        pos
    }
}

/// What `find_seq` returns is the least position from `pos` on where `s`
/// holds `pat`; it is the length of `s` where there is none.
pub proof fn lemma_find_seq(s: Seq<char>, pos: int, pat: Seq<char>)
    requires
        0 <= pos <= s.len(),
    ensures
        pos <= find_seq(s, pos, pat) <= s.len(),
        find_seq(s, pos, pat) < s.len() ==> holds_at(s, find_seq(s, pos, pat), pat),
        forall|i: int| pos <= i < find_seq(s, pos, pat) ==> !holds_at(s, i, pat),
    decreases s.len() - pos,
{
    if pos < s.len() && !holds_at(s, pos, pat) {
        lemma_find_seq(s, pos + 1, pat);
    }
}

/// A run of name characters that ends at another character, or at the end
/// of the text, is one name.
pub proof fn lemma_name_end_of_run(s: Seq<char>, pos: int, end: int)
    requires
        0 <= pos <= end <= s.len(),
        forall|i: int| pos <= i < end ==> is_name_char(#[trigger] s[i]),
        end == s.len() || !is_name_char(s[end]),
    ensures
        name_end(s, pos) == end,
    decreases end - pos,
{
    if pos < end {
        lemma_name_end_of_run(s, pos + 1, end);
    }
}

/// Where `c` stands at `stop` and nowhere before it from `pos` on,
/// `find_char` finds it there; where it stands nowhere from `pos` to `end`,
/// `find_char` returns `end`.
pub proof fn lemma_find_char_of_run(s: Seq<char>, pos: int, stop: int, end: int, c: char)
    requires
        0 <= pos <= stop <= end <= s.len(),
        forall|i: int| pos <= i < stop ==> #[trigger] s[i] != c,
        stop == end || s[stop] == c,
    ensures
        find_char(s, pos, end, c) == stop,
    decreases stop - pos,
{
    if pos < stop {
        lemma_find_char_of_run(s, pos + 1, stop, end, c);
    }
}

/// Skips markup white space from `pos` on.
pub(crate) fn skip_space_run(s: &Vec<char>, pos: usize) -> (r: usize)
    requires
        pos <= s.len(),
    ensures
        r == skip_spaces(s@, pos as int),
        pos <= r <= s.len(),
{
    let mut i: usize = pos;
    while i < s.len() && is_xml_space_char(s[i])
        invariant
            pos <= i <= s.len(),
            skip_spaces(s@, i as int) == skip_spaces(s@, pos as int),
        decreases s.len() - i,
    {
        i += 1;
    }
    i
}

/// Finds the end of the name that starts at `pos`.
pub(crate) fn scan_name(s: &Vec<char>, pos: usize) -> (r: usize)
    requires
        pos <= s.len(),
    ensures
        r == name_end(s@, pos as int),
        pos <= r <= s.len(),
{
    let mut i: usize = pos;
    while i < s.len() && is_name_character(s[i])
        invariant
            pos <= i <= s.len(),
            name_end(s@, i as int) == name_end(s@, pos as int),
        decreases s.len() - i,
    {
        i += 1;
    }
    i
}

/// Finds the first `c` in `pos..end`.
pub(crate) fn scan_char(s: &Vec<char>, pos: usize, end: usize, c: char) -> (r: usize)
    requires
        pos <= end <= s.len(),
    ensures
        r == find_char(s@, pos as int, end as int, c),
        pos <= r <= end,
{
    let mut i: usize = pos;
    while i < end && s[i] != c
        invariant
            pos <= i <= end <= s.len(),
            find_char(s@, i as int, end as int, c) == find_char(s@, pos as int, end as int, c),
        decreases end - i,
    {
        i += 1;
    }
    i
}

/// Finds the first place from `pos` on where `s` holds `pat`.
pub(crate) fn scan_seq(s: &Vec<char>, pos: usize, pat: &Vec<char>) -> (r: usize)
    requires
        pos <= s.len(),
    ensures
        r == find_seq(s@, pos as int, pat@),
        pos <= r <= s.len(),
{
    let mut i: usize = pos;
    while i < s.len() && !has_at(s, i, pat)
        invariant
            pos <= i <= s.len(),
            find_seq(s@, i as int, pat@) == find_seq(s@, pos as int, pat@),
        decreases s.len() - i,
    {
        i += 1;
    }
    i
}

/// Whether the characters `a..b` of `s` equal the characters `c..d`.
pub(crate) fn same_range(s: &Vec<char>, a: usize, b: usize, c: usize, d: usize) -> (r: bool)
    requires
        a <= b <= s.len(),
        c <= d <= s.len(),
    ensures
        r == (s@.subrange(a as int, b as int) == s@.subrange(c as int, d as int)),
{
    if b - a != d - c {
        assert(s@.subrange(a as int, b as int).len() != s@.subrange(c as int, d as int).len());
        return false;
    }
    let n: usize = b - a;
    let mut i: usize = 0;
    while i < n
        invariant
            a <= b <= s.len(),
            c <= d <= s.len(),
            n == b - a,
            n == d - c,
            i <= n,
            s@.subrange(a as int, a + i) == s@.subrange(c as int, c + i),
        decreases n - i,
    {
        if s[a + i] != s[c + i] {
            assert(s@.subrange(a as int, b as int)[i as int] != s@.subrange(c as int, d as int)[i as int]);
            return false;
        }
        i += 1;
        assert(s@.subrange(a as int, a + i) =~= s@.subrange(a as int, a + i - 1).push(
            s@[a + i - 1],
        ));
        assert(s@.subrange(c as int, c + i) =~= s@.subrange(c as int, c + i - 1).push(
            s@[c + i - 1],
        ));
    }
    true
}

/// Whether the characters `a..b` of `s` are the text `word`.
pub(crate) fn range_is(s: &Vec<char>, a: usize, b: usize, word: &Vec<char>) -> (r: bool)
    requires
        a <= b <= s.len(),
    ensures
        r == (s@.subrange(a as int, b as int) == word@),
{
    if b - a != word.len() {
        assert(s@.subrange(a as int, b as int).len() != word@.len());
        return false;
    }
    let r = has_at(s, a, word);
    assert(a + word@.len() == b);
    r
}

} // verus!
