//! Conversions between strings and character vectors, white space, and the
//! splitting of a text into its words.

use vstd::prelude::*;

verus! {

/// The characters of `s`, in order.
pub fn chars_of(s: &str) -> (v: Vec<char>)
    ensures
        v@ == s@,
{
    let mut v: Vec<char> = Vec::new();
    for c in it: s.chars()
        invariant
            it.seq() == s@,
            v@ == it.seq().take(it.index() as int),
    {
        v.push(c);
        assert(v@ == it.seq().take(it.index() + 1));
    }
    assert(v@ == s@);
    v
}

/// Trusted: `String::from_iter` of std over the characters of a vector. The
/// standard library documents that the string holds exactly the characters
/// that the iterator yields, in order; nothing of this is proved here.
#[verifier::external_body]
pub(crate) fn string_of(v: &Vec<char>) -> (s: String)
    ensures
        s@ == v@,
{
    String::from_iter(v)
}

/// The characters `v[from..to]` as a vector of their own.
pub(crate) fn copy_range(v: &Vec<char>, from: usize, to: usize) -> (r: Vec<char>)
    requires
        from <= to <= v.len(),
    ensures
        r@ == v@.subrange(from as int, to as int),
{
    let mut r: Vec<char> = Vec::new();
    let mut i: usize = from;
    while i < to
        invariant
            from <= i <= to <= v.len(),
            r@ == v@.subrange(from as int, i as int),
        decreases to - i,
    {
        r.push(v[i]);
        i += 1;
        assert(r@ == v@.subrange(from as int, i as int));
    }
    r
}

/// The characters `v[from..to]` as a string.
pub(crate) fn string_of_range(v: &Vec<char>, from: usize, to: usize) -> (s: String)
    requires
        from <= to <= v.len(),
    ensures
        s@ == v@.subrange(from as int, to as int),
{
    let part = copy_range(v, from, to);
    string_of(&part)
}

/// Appends the characters of `tail` to `v`.
pub fn append_chars(v: &mut Vec<char>, tail: &Vec<char>)
    ensures
        final(v)@ == old(v)@ + tail@,
{
    let mut i: usize = 0;
    while i < tail.len()
        invariant
            i <= tail.len(),
            v@ == old(v)@ + tail@.take(i as int),
        decreases tail.len() - i,
    {
        v.push(tail[i]);
        i += 1;
        assert(v@ == old(v)@ + tail@.take(i as int));
    }
    assert(tail@.take(tail.len() as int) == tail@);
}

/// Appends the characters of the string `tail` to `v`.
pub fn append_str(v: &mut Vec<char>, tail: &str)
    ensures
        final(v)@ == old(v)@ + tail@,
{
    let t = chars_of(tail);
    append_chars(v, &t);
}

/// Whether two vectors hold the same characters.
pub fn same_chars(a: &Vec<char>, b: &Vec<char>) -> (r: bool)
    ensures
        r == (a@ == b@),
{
    if a.len() != b.len() {
        return false;
    }
    let mut i: usize = 0;
    while i < a.len()
        invariant
            a.len() == b.len(),
            i <= a.len(),
            a@.take(i as int) == b@.take(i as int),
        decreases a.len() - i,
    {
        if a[i] != b[i] {
            return false;
        }
        i += 1;
        assert(a@.take(i as int) =~= a@.take(i - 1).push(a@[i - 1]));
        assert(b@.take(i as int) =~= b@.take(i - 1).push(b@[i - 1]));
    }
    assert(a@.take(a.len() as int) == a@);
    assert(b@.take(b.len() as int) == b@);
    true
}

/// Whether two strings hold the same characters.
pub fn same_text(a: &str, b: &str) -> (r: bool)
    ensures
        r == (a@ == b@),
{
    same_chars(&chars_of(a), &chars_of(b))
}

/// The digits of the decimal system.
pub const DIGITS: &'static str = "0123456789";

/// The number `n` in decimal, without leading zeros.
pub open spec fn decimal_of(n: nat) -> Seq<char>
    decreases n,
{
    if n < 10 {
        seq![DIGITS@[n as int]]
    } else {
        decimal_of(n / 10) + seq![DIGITS@[(n % 10) as int]]
    }
}

/// Appends the number `n` in decimal.
pub fn append_decimal(out: &mut Vec<char>, n: u64)
    ensures
        final(out)@ == old(out)@ + decimal_of(n as nat),
    decreases n,
{
    let digits = chars_of(DIGITS);
    proof {
        reveal_strlit("0123456789");
    }
    if n < 10 {
        out.push(digits[n as usize]);
        assert(out@ =~= old(out)@ + decimal_of(n as nat));
    } else {
        append_decimal(out, n / 10);
        out.push(digits[(n % 10) as usize]);
        assert(out@ =~= old(out)@ + decimal_of(n as nat));
    }
}

/// The value of a decimal digit.
pub open spec fn digit_value(c: char) -> Option<nat> {
    if 0x30 <= c as u32 <= 0x39 {
        Some((c as u32 - 0x30) as nat)
    } else {
        None
    }
}

/// The number that `s` writes in decimal: `s` is not empty and holds
/// digits alone.
pub open spec fn decimal_value(s: Seq<char>) -> Option<nat>
    decreases s.len(),
{
    if s.len() == 0 {
        None
    } else if s.len() == 1 {
        digit_value(s[0])
    } else {
        match (decimal_value(s.drop_last()), digit_value(s.last())) {
            (Some(a), Some(d)) => Some(10 * a + d),
            _ => None,
        }
    }
}

/// A number that is written is read back.
pub proof fn lemma_decimal_value_of_decimal(n: nat)
    ensures
        decimal_value(decimal_of(n)) == Some(n),
    decreases n,
{
    reveal_strlit("0123456789");
    if n >= 10 {
        lemma_decimal_value_of_decimal(n / 10);
        let head = decimal_of(n / 10);
        let s = decimal_of(n);
        lemma_decimal_is_not_empty(n / 10);
        assert(s.drop_last() =~= head);
        assert(s.last() == DIGITS@[(n % 10) as int]);
    }
}

/// What is written of a number holds at least one digit.
pub proof fn lemma_decimal_is_not_empty(n: nat)
    ensures
        decimal_of(n).len() >= 1,
    decreases n,
{
    if n >= 10 {
        lemma_decimal_is_not_empty(n / 10);
    }
}

/// The number that a text writes is at least the number that any of its
/// beginnings writes, and where the text writes a number, so does each of
/// its beginnings.
pub proof fn lemma_decimal_value_grows(s: Seq<char>, i: int)
    requires
        1 <= i <= s.len(),
        decimal_value(s) is Some,
    ensures
        decimal_value(s.take(i)) is Some,
        decimal_value(s.take(i))->0 <= decimal_value(s)->0,
    decreases s.len(),
{
    if i == s.len() {
        assert(s.take(i) =~= s);
    } else {
        lemma_decimal_value_grows(s.drop_last(), i);
        assert(s.drop_last().take(i) =~= s.take(i));
    }
}

/// Reads a number in decimal. There is none where the text is empty, holds
/// anything but digits, or writes a number beyond the greatest of 64 bits.
pub fn parse_decimal(text: &str) -> (r: Option<u64>)
    ensures
        match r {
            Some(n) => decimal_value(text@) == Some(n as nat),
            None => decimal_value(text@) is None || decimal_value(text@)->0 > u64::MAX,
        },
{
    let s = chars_of(text);
    if s.len() == 0 {
        return None;
    }
    let mut acc: u64 = 0;
    let mut i: usize = 0;
    while i < s.len()
        invariant
            i <= s.len(),
            s@ == text@,
            s.len() > 0,
            i > 0 ==> decimal_value(s@.take(i as int)) == Some(acc as nat),
            i == 0 ==> acc == 0,
        decreases s.len() - i,
    {
        let n: u32 = s[i] as u32;
        let ghost longer = s@.take(i + 1);
        proof {
            assert(longer.last() == s@[i as int]);
            assert(longer.drop_last() =~= s@.take(i as int));
        }
        if n < 0x30 || n > 0x39 {
            proof {
                assert(decimal_value(longer) is None);
                if decimal_value(s@) is Some {
                    lemma_decimal_value_grows(s@, i + 1);
                }
            }
            return None;
        }
        let d: u64 = (n - 0x30) as u64;
        if acc > (u64::MAX - d) / 10 {
            proof {
                assert(10 * acc + d > u64::MAX);
                assert(decimal_value(longer) == Some((10 * acc + d) as nat));
                if decimal_value(s@) is Some {
                    lemma_decimal_value_grows(s@, i + 1);
                }
            }
            return None;
        }
        acc = 10 * acc + d;
        i += 1;
        assert(decimal_value(longer) == Some(acc as nat));
    }
    assert(s@.take(s.len() as int) =~= s@);
    Some(acc)
}

/// White space as Unicode defines it (the property `White_Space`): the
/// characters at which a list of words is split.
pub open spec fn is_space(c: char) -> bool {
    let n = c as u32;
    (0x09 <= n <= 0x0d) || n == 0x20 || n == 0x85 || n == 0xa0 || n == 0x1680 || (0x2000 <= n
        <= 0x200a) || n == 0x2028 || n == 0x2029 || n == 0x202f || n == 0x205f || n == 0x3000
}

/// Whether `c` is white space.
pub fn is_space_char(c: char) -> (b: bool)
    ensures
        b == is_space(c),
{
    let n: u32 = c as u32;
    (0x09 <= n && n <= 0x0d) || n == 0x20 || n == 0x85 || n == 0xa0 || n == 0x1680 || (0x2000 <= n
        && n <= 0x200a) || n == 0x2028 || n == 0x2029 || n == 0x202f || n == 0x205f || n == 0x3000
}

/// The end of the word that starts at `pos`: the first position at or after
/// `pos` that holds white space, or the length of `s`.
pub open spec fn word_end(s: Seq<char>, pos: int) -> int
    decreases s.len() - pos,
{
    if pos < 0 || pos >= s.len() || is_space(s[pos]) {
        pos
    } else {
        word_end(s, pos + 1)
    }
}

/// `word_end` stops inside the text, at white space or at the end, and
/// passes no white space on its way.
pub proof fn lemma_word_end(s: Seq<char>, pos: int)
    requires
        0 <= pos <= s.len(),
    ensures
        pos <= word_end(s, pos) <= s.len(),
        word_end(s, pos) < s.len() ==> is_space(s[word_end(s, pos)]),
        forall|i: int| pos <= i < word_end(s, pos) ==> !is_space(#[trigger] s[i]),
    decreases s.len() - pos,
{
    if pos < s.len() && !is_space(s[pos]) {
        lemma_word_end(s, pos + 1);
    }
}

/// The words of `s` from `pos` on: its maximal runs of characters that are
/// not white space, in order.
pub open spec fn words_from(s: Seq<char>, pos: int) -> Seq<Seq<char>>
    decreases s.len() - pos,
{
    if pos < 0 || pos >= s.len() {
        Seq::empty()
    } else if is_space(s[pos]) {
        words_from(s, pos + 1)
    } else {
        proof {
            lemma_word_end(s, pos + 1);
        }
        seq![s.subrange(pos, word_end(s, pos + 1))] + words_from(s, word_end(s, pos + 1))
    }
}

/// The words of a text: what splitting at white space yields.
pub open spec fn split_words(s: Seq<char>) -> Seq<Seq<char>> {
    words_from(s, 0)
}

/// The end of the word that starts at `pos`.
pub(crate) fn find_word_end(v: &Vec<char>, pos: usize) -> (end: usize)
    requires
        pos <= v.len(),
    ensures
        end == word_end(v@, pos as int),
        pos <= end <= v.len(),
{
    let mut i: usize = pos;
    while i < v.len() && !is_space_char(v[i])
        invariant
            pos <= i <= v.len(),
            word_end(v@, i as int) == word_end(v@, pos as int),
        decreases v.len() - i,
    {
        i += 1;
    }
    i
}

/// Splits a vector of characters into its words.
pub fn split_chars(v: &Vec<char>) -> (words: Vec<String>)
    ensures
        words.deep_view() == split_words(v@),
{
    let mut words: Vec<String> = Vec::new();
    let mut pos: usize = 0;
    assert(words.deep_view() =~= Seq::<Seq<char>>::empty());
    while pos < v.len()
        invariant
            pos <= v.len(),
            words.deep_view() + words_from(v@, pos as int) == split_words(v@),
        decreases v.len() - pos,
    {
        if is_space_char(v[pos]) {
            pos += 1;
        } else {
            let end = find_word_end(v, pos + 1);
            let word = string_of_range(v, pos, end);
            let ghost before = words.deep_view();
            words.push(word);
            assert(words.deep_view() =~= before + seq![v@.subrange(pos as int, end as int)]);
            assert(before + (seq![v@.subrange(pos as int, end as int)] + words_from(v@, end as int))
                =~= (before + seq![v@.subrange(pos as int, end as int)]) + words_from(
                v@,
                end as int,
            ));
            pos = end;
        }
    }
    assert(words.deep_view() + Seq::<Seq<char>>::empty() =~= words.deep_view());
    words
}

/// Splits a text at white space, as `str::split_whitespace` does.
pub fn split_whitespace(s: &str) -> (words: Vec<String>)
    ensures
        words.deep_view() == split_words(s@),
{
    let v = chars_of(s);
    split_chars(&v)
}

/// A word: a text that is not empty and holds no white space.
pub open spec fn is_word(w: Seq<char>) -> bool {
    w.len() > 0 && forall|i: int| 0 <= i < w.len() ==> !is_space(#[trigger] w[i])
}

/// A gap: a text of white space, possibly empty.
pub open spec fn is_gap(g: Seq<char>) -> bool {
    forall|i: int| 0 <= i < g.len() ==> is_space(#[trigger] g[i])
}

/// The text that holds the words from `k` on with a gap before each and
/// one behind the last: `gaps[k] + words[k] + gaps[k + 1] + ..`.
pub open spec fn spaced(words: Seq<Seq<char>>, gaps: Seq<Seq<char>>, k: int) -> Seq<char>
    decreases words.len() - k,
{
    if k < 0 || k >= words.len() {
        if 0 <= k < gaps.len() {
            gaps[k]
        } else {
            Seq::empty()
        }
    } else {
        gaps[k] + words[k] + spaced(words, gaps, k + 1)
    }
}

/// Words and the gaps around them: one gap more than words, and no gap
/// between two words is empty.
pub open spec fn well_spaced(words: Seq<Seq<char>>, gaps: Seq<Seq<char>>) -> bool {
    &&& gaps.len() == words.len() + 1
    &&& forall|i: int| 0 <= i < words.len() ==> is_word(#[trigger] words[i])
    &&& forall|i: int| 0 <= i < gaps.len() ==> is_gap(#[trigger] gaps[i])
    &&& forall|i: int| 0 < i < words.len() ==> (#[trigger] gaps[i]).len() > 0
}

/// A run without white space that ends at white space or at the end of the
/// text is one word.
pub proof fn lemma_word_end_of_run(s: Seq<char>, pos: int, end: int)
    requires
        0 <= pos <= end <= s.len(),
        forall|i: int| pos <= i < end ==> !is_space(#[trigger] s[i]),
        end == s.len() || is_space(s[end]),
    ensures
        word_end(s, pos) == end,
    decreases end - pos,
{
    if pos < end {
        lemma_word_end_of_run(s, pos + 1, end);
    }
}

/// White space before the words adds no word.
pub proof fn lemma_words_skip_spaces(s: Seq<char>, pos: int, end: int)
    requires
        0 <= pos <= end <= s.len(),
        forall|i: int| pos <= i < end ==> is_space(#[trigger] s[i]),
    ensures
        words_from(s, pos) == words_from(s, end),
    decreases end - pos,
{
    if pos < end {
        lemma_words_skip_spaces(s, pos + 1, end);
    }
}

/// In a concatenation, a word of the second part ends where it ends there.
pub proof fn lemma_word_end_shift(a: Seq<char>, b: Seq<char>, k: int)
    requires
        0 <= k,
    ensures
        word_end(a + b, a.len() + k) == a.len() + word_end(b, k),
    decreases b.len() - k,
{
    if k < b.len() {
        assert((a + b)[a.len() + k] == b[k]);
        if !is_space(b[k]) {
            lemma_word_end_shift(a, b, k + 1);
        }
    }
}

/// In a concatenation, the words from a place behind the first part are
/// the words of the second part from there.
pub proof fn lemma_words_shift(a: Seq<char>, b: Seq<char>, k: int)
    requires
        0 <= k,
    ensures
        words_from(a + b, a.len() + k) == words_from(b, k),
    decreases b.len() - k,
{
    if k < b.len() {
        assert((a + b)[a.len() + k] == b[k]);
        if is_space(b[k]) {
            lemma_words_shift(a, b, k + 1);
        } else {
            let e = word_end(b, k + 1);
            lemma_word_end(b, k + 1);
            lemma_word_end_shift(a, b, k + 1);
            assert((a + b).subrange(a.len() + k, a.len() + e) =~= b.subrange(k, e));
            lemma_words_shift(a, b, e);
        }
    }
}

/// A word followed by nothing or by white space is the first word of the
/// text, and the words behind it are those of the rest.
pub proof fn lemma_words_of_word_then(w: Seq<char>, rest: Seq<char>)
    requires
        is_word(w),
        rest.len() == 0 || is_space(rest[0]),
    ensures
        words_from(w + rest, 0) == seq![w] + words_from(rest, 0),
{
    let s = w + rest;
    assert forall|i: int| 0 <= i < w.len() implies !is_space(#[trigger] s[i]) by {
        assert(s[i] == w[i]);
    }
    if rest.len() > 0 {
        assert(s[w.len() as int] == rest[0]);
    }
    assert(!is_space(s[0]));
    lemma_word_end_of_run(s, 1, w.len() as int);
    assert(s.subrange(0, w.len() as int) =~= w);
    lemma_words_shift(w, rest, 0);
}

/// Splitting finds the words of a text again, whatever white space stands
/// around them: the words of `spaced(words, gaps, k)` are `words` from `k` on.
pub proof fn lemma_split_spaced(words: Seq<Seq<char>>, gaps: Seq<Seq<char>>, k: int)
    requires
        well_spaced(words, gaps),
        0 <= k <= words.len(),
    ensures
        split_words(spaced(words, gaps, k)) == words.skip(k),
    decreases words.len() - k,
{
    let t = spaced(words, gaps, k);
    let g = gaps[k];
    if k == words.len() {
        assert forall|i: int| 0 <= i < t.len() implies is_space(#[trigger] t[i]) by {}
        lemma_words_skip_spaces(t, 0, t.len() as int);
        assert(words.skip(k) =~= Seq::<Seq<char>>::empty());
    } else {
        let w = words[k];
        let rest = spaced(words, gaps, k + 1);
        lemma_split_spaced(words, gaps, k + 1);
        assert(t =~= g + (w + rest));
        assert forall|i: int| 0 <= i < g.len() implies is_space(#[trigger] t[i]) by {
            assert(t[i] == g[i]);
        }
        lemma_words_skip_spaces(t, 0, g.len() as int);
        lemma_words_shift(g, w + rest, 0);
        if rest.len() > 0 {
            if k + 1 < words.len() {
                assert(rest =~= gaps[k + 1] + (words[k + 1] + spaced(words, gaps, k + 2)));
                assert(rest[0] == gaps[k + 1][0]);
            } else {
                assert(rest == gaps[k + 1]);
            }
            assert(is_space(rest[0]));
        }
        lemma_words_of_word_then(w, rest);
        assert(seq![w] + words.skip(k + 1) =~= words.skip(k));
    }
}

/// Whether `s` holds `pat` at position `pos`.
pub open spec fn holds_at(s: Seq<char>, pos: int, pat: Seq<char>) -> bool {
    0 <= pos && pos + pat.len() <= s.len() && s.subrange(pos, pos + pat.len()) == pat
}

/// Whether `s` holds `pat` at position `pos`.
pub(crate) fn has_at(s: &Vec<char>, pos: usize, pat: &Vec<char>) -> (b: bool)
    requires
        pos <= s.len(),
    ensures
        b == holds_at(s@, pos as int, pat@),
{
    if pat.len() > s.len() - pos {
        return false;
    }
    let mut i: usize = 0;
    while i < pat.len()
        invariant
            pos + pat.len() <= s.len(),
            i <= pat.len(),
            s@.subrange(pos as int, pos + i) == pat@.take(i as int),
        decreases pat.len() - i,
    {
        if s[pos + i] != pat[i] {
            assert(s@.subrange(pos as int, pos + pat.len())[i as int] != pat@[i as int]);
            return false;
        }
        i += 1;
        assert(s@.subrange(pos as int, pos + i) =~= pat@.take(i as int)) by {
            assert(s@.subrange(pos as int, pos + i) =~= s@.subrange(pos as int, pos + i - 1).push(
                s@[pos + i - 1],
            ));
        }
    }
    assert(pat@.take(pat.len() as int) == pat@);
    true
}

} // verus!
