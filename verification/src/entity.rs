//! Character data of XML: writing a text so that markup characters are
//! harmless, and reading the five predefined entities back.
//!
//! Character references by number (`&#10;`) are not accepted: a text that
//! holds one is not read.

use crate::text::{append_chars, has_at, holds_at};
use vstd::prelude::*;

verus! {

/// `&lt;`
pub open spec fn ent_lt() -> Seq<char> {
    seq!['&', 'l', 't', ';']
}

/// `&gt;`
pub open spec fn ent_gt() -> Seq<char> {
    seq!['&', 'g', 't', ';']
}

/// `&amp;`
pub open spec fn ent_amp() -> Seq<char> {
    seq!['&', 'a', 'm', 'p', ';']
}

/// `&quot;`
pub open spec fn ent_quot() -> Seq<char> {
    seq!['&', 'q', 'u', 'o', 't', ';']
}

/// `&apos;`
pub open spec fn ent_apos() -> Seq<char> {
    seq!['&', 'a', 'p', 'o', 's', ';']
}

/// The entity that `s` holds at `pos`: the character it stands for and its
/// length in `s`.
pub open spec fn entity_at(s: Seq<char>, pos: int) -> Option<(char, int)> {
    if holds_at(s, pos, ent_lt()) {
        Some(('<', 4))
    } else if holds_at(s, pos, ent_gt()) {
        Some(('>', 4))
    } else if holds_at(s, pos, ent_amp()) {
        Some(('&', 5))
    } else if holds_at(s, pos, ent_quot()) {
        Some(('"', 6))
    } else if holds_at(s, pos, ent_apos()) {
        Some(('\'', 6))
    } else {
        None
    }
}

/// `head` before what `tail` holds, where it holds anything.
pub open spec fn prepend(head: Seq<char>, tail: Option<Seq<char>>) -> Option<Seq<char>> {
    match tail {
        Some(t) => Some(head + t),
        None => None,
    }
}

/// The text that the character data `s` stands for from `pos` on: each
/// entity replaced by its character, every other character kept. There is
/// none where an `&` starts no entity.
pub open spec fn unescape_from(s: Seq<char>, pos: int) -> Option<Seq<char>>
    decreases s.len() - pos,
{
    if pos < 0 || pos >= s.len() {
        Some(Seq::empty())
    } else if s[pos] != '&' {
        prepend(seq![s[pos]], unescape_from(s, pos + 1))
    } else {
        match entity_at(s, pos) {
            Some((c, n)) => prepend(seq![c], unescape_from(s, pos + n)),
            None => None,
        }
    }
}

/// The text that the character data `s` stands for.
pub open spec fn unescape(s: Seq<char>) -> Option<Seq<char>> {
    unescape_from(s, 0)
}

/// How one character is written in character data.
pub open spec fn escape_char(c: char) -> Seq<char> {
    if c == '<' {
        ent_lt()
    } else if c == '>' {
        ent_gt()
    } else if c == '&' {
        ent_amp()
    } else {
        seq![c]
    }
}

/// How the text `s` is written in character data, from `pos` on.
pub open spec fn escape_from(s: Seq<char>, pos: int) -> Seq<char>
    decreases s.len() - pos,
{
    if pos < 0 || pos >= s.len() {
        Seq::empty()
    } else {
        escape_char(s[pos]) + escape_from(s, pos + 1)
    }
}

/// How the text `s` is written in character data: `<`, `>` and `&` as
/// entities, every other character as itself.
pub open spec fn escape(s: Seq<char>) -> Seq<char> {
    escape_from(s, 0)
}

/// Reads the entity at `pos`, if there is one.
pub(crate) fn read_entity(s: &Vec<char>, pos: usize) -> (r: Option<(char, usize)>)
    requires
        pos <= s.len(),
    ensures
        match r {
            Some((c, n)) => entity_at(s@, pos as int) == Some((c, n as int)) && 4 <= n && pos + n
                <= s.len(),
            None => entity_at(s@, pos as int) is None,
        },
{
    let lt: Vec<char> = vec!['&', 'l', 't', ';'];
    let gt: Vec<char> = vec!['&', 'g', 't', ';'];
    let amp: Vec<char> = vec!['&', 'a', 'm', 'p', ';'];
    let quot: Vec<char> = vec!['&', 'q', 'u', 'o', 't', ';'];
    let apos: Vec<char> = vec!['&', 'a', 'p', 'o', 's', ';'];
    assert(lt@ =~= ent_lt());
    assert(gt@ =~= ent_gt());
    assert(amp@ =~= ent_amp());
    assert(quot@ =~= ent_quot());
    assert(apos@ =~= ent_apos());
    if has_at(s, pos, &lt) {
        Some(('<', 4))
    } else if has_at(s, pos, &gt) {
        Some(('>', 4))
    } else if has_at(s, pos, &amp) {
        Some(('&', 5))
    } else if has_at(s, pos, &quot) {
        Some(('"', 6))
    } else if has_at(s, pos, &apos) {
        Some(('\'', 6))
    } else {
        None
    }
}

/// Reads character data: the text it stands for, or nothing where an `&`
/// starts no entity.
pub fn unescape_chars(s: &Vec<char>) -> (r: Option<Vec<char>>)
    ensures
        match r {
            Some(v) => unescape(s@) == Some(v@),
            None => unescape(s@) is None,
        },
{
    let mut out: Vec<char> = Vec::new();
    let mut pos: usize = 0;
    assert(prepend(out@, unescape_from(s@, 0)) == unescape(s@)) by {
        if unescape_from(s@, 0) is Some {
            assert(out@ + unescape_from(s@, 0)->0 =~= unescape_from(s@, 0)->0);
        }
    }
    while pos < s.len()
        invariant
            pos <= s.len(),
            prepend(out@, unescape_from(s@, pos as int)) == unescape(s@),
        decreases s.len() - pos,
    {
        let c = s[pos];
        if c != '&' {
            let ghost before = out@;
            out.push(c);
            proof {
                let rest = unescape_from(s@, pos + 1);
                if rest is Some {
                    assert(before + (seq![c] + rest->0) =~= out@ + rest->0);
                }
            }
            pos += 1;
        } else {
            match read_entity(s, pos) {
                Some((d, n)) => {
                    let ghost before = out@;
                    out.push(d);
                    proof {
                        let rest = unescape_from(s@, pos + n);
                        if rest is Some {
                            assert(before + (seq![d] + rest->0) =~= out@ + rest->0);
                        }
                    }
                    pos += n;
                },
                None => {
                    return None;
                },
            }
        }
    }
    assert(out@ + Seq::<char>::empty() =~= out@);
    Some(out)
}

/// Writes a text as character data.
pub fn escape_chars(s: &Vec<char>) -> (r: Vec<char>)
    ensures
        r@ == escape(s@),
{
    let mut out: Vec<char> = Vec::new();
    let mut pos: usize = 0;
    assert(out@ + escape_from(s@, 0) =~= escape(s@));
    while pos < s.len()
        invariant
            pos <= s.len(),
            out@ + escape_from(s@, pos as int) == escape(s@),
        decreases s.len() - pos,
    {
        let c = s[pos];
        let ghost before = out@;
        if c == '<' {
            let e: Vec<char> = vec!['&', 'l', 't', ';'];
            assert(e@ =~= ent_lt());
            append_chars(&mut out, &e);
        } else if c == '>' {
            let e: Vec<char> = vec!['&', 'g', 't', ';'];
            assert(e@ =~= ent_gt());
            append_chars(&mut out, &e);
        } else if c == '&' {
            let e: Vec<char> = vec!['&', 'a', 'm', 'p', ';'];
            assert(e@ =~= ent_amp());
            append_chars(&mut out, &e);
        } else {
            out.push(c);
            assert(out@ =~= before + seq![c]);
        }
        assert(out@ == before + escape_char(c));
        assert(before + (escape_char(c) + escape_from(s@, pos + 1)) =~= out@ + escape_from(
            s@,
            pos + 1,
        ));
        pos += 1;
    }
    assert(out@ + Seq::<char>::empty() =~= out@);
    out
}

/// In a concatenation, what the second part holds at a place is what the
/// whole holds behind the first part.
pub proof fn lemma_holds_at_shift(a: Seq<char>, b: Seq<char>, k: int, pat: Seq<char>)
    requires
        0 <= k,
    ensures
        holds_at(a + b, a.len() + k, pat) == holds_at(b, k, pat),
{
    if k + pat.len() <= b.len() {
        assert((a + b).subrange(a.len() + k, a.len() + k + pat.len()) =~= b.subrange(
            k,
            k + pat.len(),
        ));
    }
}

/// Reading a concatenation from a place behind its first part reads the
/// second part.
pub proof fn lemma_unescape_shift(a: Seq<char>, b: Seq<char>, k: int)
    requires
        0 <= k,
    ensures
        unescape_from(a + b, a.len() + k) == unescape_from(b, k),
    decreases b.len() - k,
{
    let s = a + b;
    let p = a.len() + k;
    if k < b.len() {
        assert(s[p] == b[k]);
        if b[k] != '&' {
            lemma_unescape_shift(a, b, k + 1);
        } else {
            lemma_holds_at_shift(a, b, k, ent_lt());
            lemma_holds_at_shift(a, b, k, ent_gt());
            lemma_holds_at_shift(a, b, k, ent_amp());
            lemma_holds_at_shift(a, b, k, ent_quot());
            lemma_holds_at_shift(a, b, k, ent_apos());
            assert(entity_at(s, p) == entity_at(b, k));
            match entity_at(b, k) {
                Some((c, n)) => {
                    lemma_unescape_shift(a, b, k + n);
                },
                None => {},
            }
        }
    }
}

/// What `escape_char` writes, followed by anything, is read back as the
/// character and then the rest.
pub proof fn lemma_unescape_escaped_char(c: char, rest: Seq<char>)
    ensures
        unescape(escape_char(c) + rest) == prepend(seq![c], unescape(rest)),
{
    let e = escape_char(c);
    let s = e + rest;
    lemma_unescape_shift(e, rest, 0);
    if c == '<' {
        assert(s.subrange(0, 4) =~= ent_lt());
    } else if c == '>' {
        assert(s.subrange(0, 4) =~= ent_gt());
        assert(s.subrange(0, 4) != ent_lt()) by {
            assert(s.subrange(0, 4)[1] == 'g');
            assert(ent_lt()[1] == 'l');
        }
    } else if c == '&' {
        assert(s.subrange(0, 5) =~= ent_amp());
        assert(s.subrange(0, 4) != ent_lt()) by {
            assert(s.subrange(0, 4)[1] == 'a');
            assert(ent_lt()[1] == 'l');
        }
        assert(s.subrange(0, 4) != ent_gt()) by {
            assert(s.subrange(0, 4)[1] == 'a');
            assert(ent_gt()[1] == 'g');
        }
    } else {
        assert(s[0] == c);
    }
}

/// Reading what was written gives the text back: `unescape` undoes `escape`.
pub proof fn lemma_unescape_escape(s: Seq<char>)
    ensures
        unescape(escape(s)) == Some(s),
{
    lemma_unescape_escape_from(s, 0);
    assert(s.skip(0) =~= s);
}

/// Reading what was written of `s` from `pos` on gives that part of `s`.
pub proof fn lemma_unescape_escape_from(s: Seq<char>, pos: int)
    requires
        0 <= pos <= s.len(),
    ensures
        unescape(escape_from(s, pos)) == Some(s.skip(pos)),
    decreases s.len() - pos,
{
    if pos >= s.len() {
        assert(s.skip(pos) =~= Seq::<char>::empty());
    } else {
        lemma_unescape_escape_from(s, pos + 1);
        lemma_unescape_escaped_char(s[pos], escape_from(s, pos + 1));
        assert(seq![s[pos]] + s.skip(pos + 1) =~= s.skip(pos));
    }
}

/// Writing loses nothing: two texts that are written the same way are
/// the same text.
pub proof fn lemma_escape_injective(a: Seq<char>, b: Seq<char>)
    requires
        escape(a) == escape(b),
    ensures
        a == b,
{
    lemma_unescape_escape(a);
    lemma_unescape_escape(b);
}

/// A text without `<`, `>` and `&` is written as it stands.
pub proof fn lemma_escape_plain(s: Seq<char>)
    requires
        forall|i: int| 0 <= i < s.len() ==> s[i] != '<' && s[i] != '>' && s[i] != '&',
    ensures
        escape(s) == s,
{
    lemma_escape_plain_from(s, 0);
    assert(s.skip(0) =~= s);
}

/// A text without `<`, `>` and `&` is written as it stands, from any place
/// on.
pub proof fn lemma_escape_plain_from(s: Seq<char>, pos: int)
    requires
        0 <= pos <= s.len(),
        forall|i: int| 0 <= i < s.len() ==> s[i] != '<' && s[i] != '>' && s[i] != '&',
    ensures
        escape_from(s, pos) == s.skip(pos),
    decreases s.len() - pos,
{
    if pos >= s.len() {
        assert(s.skip(pos) =~= Seq::<char>::empty());
    } else {
        lemma_escape_plain_from(s, pos + 1);
        assert(seq![s[pos]] + s.skip(pos + 1) =~= s.skip(pos));
    }
}

/// What is written as character data holds no `<` and no `>`.
pub proof fn lemma_escaped_holds_no_markup(s: Seq<char>, pos: int)
    requires
        0 <= pos,
    ensures
        forall|i: int|
            0 <= i < escape_from(s, pos).len() ==> #[trigger] escape_from(s, pos)[i] != '<'
                && escape_from(s, pos)[i] != '>',
    decreases s.len() - pos,
{
    if pos < s.len() {
        lemma_escaped_holds_no_markup(s, pos + 1);
        let head = escape_char(s[pos]);
        let tail = escape_from(s, pos + 1);
        assert forall|i: int| 0 <= i < (head + tail).len() implies #[trigger] (head + tail)[i]
            != '<' && (head + tail)[i] != '>' by {
            if i >= head.len() {
                assert((head + tail)[i] == tail[i - head.len()]);
            }
        }
    }
}

} // verus!
