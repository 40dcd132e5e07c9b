//! What the library writes, the library reads: an element that is written
//! with a text as its character data is read back with that text.

use crate::document::{
    attributes_from, chunk_text, document_of, node_of, nodes_of, text_from, Node,
};
use crate::entity::{escape, lemma_escaped_holds_no_markup, lemma_unescape_escape};
use crate::markup::{
    attrs_from, end_tag_step, initial_scan, local_start, name_ok, pat_cdata_open, pat_comment_open,
    pat_declaration_open, pat_end_tag_open, pat_instruction_open, read_document, read_from,
    start_tag_step, step, text_step, with_chunk, Attribute, Chunk, Element, Scan, Tables,
};
use crate::scan::{
    is_name_char, lemma_find_char_of_run, lemma_name_end_of_run, name_end, skip_spaces,
};
use crate::query::same_but_prefixes;
use crate::text::holds_at;
use vstd::prelude::*;

verus! {

/// A part of a name, prefix or local part, that can stand in a tag: name
/// characters alone, no colon, and neither `?` nor `!` at the start.
pub open spec fn is_name_part(part: Seq<char>) -> bool {
    &&& part.len() > 0
    &&& forall|i: int| 0 <= i < part.len() ==> is_name_char(#[trigger] part[i]) && part[i] != ':'
    &&& part[0] != '?'
    &&& part[0] != '!'
}

/// A name as it is written: the local part alone, or the prefix, a colon
/// and the local part.
pub open spec fn qualified(prefix: Seq<char>, local: Seq<char>) -> Seq<char> {
    if prefix.len() == 0 {
        local
    } else {
        prefix + seq![':'] + local
    }
}

/// An element with `text` as its character data, as it is written: the
/// start tag, the text with its markup characters as entities, the end tag.
pub open spec fn element_text(prefix: Seq<char>, local: Seq<char>, text: Seq<char>) -> Seq<char> {
    seq!['<'] + qualified(prefix, local) + seq!['>'] + escape(text) + seq!['<', '/'] + qualified(
        prefix,
        local,
    ) + seq!['>']
}

/// The element that `element_text` writes, as the queries see it.
pub open spec fn element_node(prefix: Seq<char>, local: Seq<char>, text: Seq<char>) -> Node {
    Node { prefix, local, parent: None, text, attributes: Seq::empty() }
}

/// At a `<` that neither `?` nor `!` follows, no instruction, comment,
/// CDATA section or declaration starts.
proof fn lemma_no_special_markup(s: Seq<char>, pos: int)
    requires
        0 <= pos,
        pos + 1 < s.len(),
        s[pos] == '<',
        s[pos + 1] != '?',
        s[pos + 1] != '!',
    ensures
        !holds_at(s, pos, pat_instruction_open()),
        !holds_at(s, pos, pat_comment_open()),
        !holds_at(s, pos, pat_cdata_open()),
        !holds_at(s, pos, pat_declaration_open()),
{
    if pos + 2 <= s.len() {
        assert(s.subrange(pos, pos + 2)[1] == s[pos + 1]);
        assert(pat_instruction_open()[1] == '?');
        assert(pat_declaration_open()[1] == '!');
    }
    if pos + 4 <= s.len() {
        assert(s.subrange(pos, pos + 4)[1] == s[pos + 1]);
        assert(pat_comment_open()[1] == '!');
    }
    if pos + 9 <= s.len() {
        assert(s.subrange(pos, pos + 9)[1] == s[pos + 1]);
        assert(pat_cdata_open()[1] == '!');
    }
}

/// Where the parts of a written element stand: behind the name of the
/// start tag, behind its `>`, and behind the character data.
pub open spec fn name_length(prefix: Seq<char>, local: Seq<char>) -> int {
    qualified(prefix, local).len() as int
}

/// Where the colon of the start tag stands, or the end of the name where
/// the name has no prefix.
pub open spec fn colon_place(prefix: Seq<char>, local: Seq<char>) -> int {
    if prefix.len() == 0 {
        1 + name_length(prefix, local)
    } else {
        1 + prefix.len() as int
    }
}

/// Where the local part of the name of the start tag starts.
pub open spec fn local_place(prefix: Seq<char>) -> int {
    if prefix.len() == 0 {
        1
    } else {
        2 + prefix.len() as int
    }
}

/// The tables of a written element: one element, no attribute, and one run
/// of character data where the text is not empty.
pub open spec fn element_tables(prefix: Seq<char>, local: Seq<char>, text: Seq<char>) -> Tables {
    let n = name_length(prefix, local);
    let e = escape(text).len() as int;
    Tables {
        elements: seq![
            Element {
                name_start: 1,
                local_start: local_place(prefix) as usize,
                name_end: (1 + n) as usize,
                parent: None,
            },
        ],
        attributes: Seq::empty(),
        chunks: if e == 0 {
            Seq::empty()
        } else {
            seq![Chunk { owner: 0, start: (2 + n) as usize, end: (2 + n + e) as usize, raw: false }]
        },
    }
}

/// What stands where in a written element.
pub open spec fn laid_out(s: Seq<char>, prefix: Seq<char>, local: Seq<char>, text: Seq<char>) -> bool {
    let name = qualified(prefix, local);
    let body = escape(text);
    let n = name.len() as int;
    let e = body.len() as int;
    let a = 2 + n;
    let b = a + e;
    &&& s.len() == b + 3 + n
    &&& n >= 1
    &&& s[0] == '<'
    &&& s[1] != '?' && s[1] != '!' && s[1] != '/'
    &&& s[1 + n] == '>'
    &&& s[b] == '<'
    &&& s[b + 1] == '/'
    &&& s[b + 2 + n] == '>'
    &&& s.subrange(1, 1 + n) == name
    &&& s.subrange(a, b) == body
    &&& s.subrange(b + 2, b + 2 + n) == name
    &&& forall|i: int| 1 <= i < 1 + n ==> is_name_char(#[trigger] s[i])
    &&& forall|i: int| b + 2 <= i < b + 2 + n ==> is_name_char(#[trigger] s[i])
    &&& forall|i: int| 1 <= i < colon_place(prefix, local) ==> #[trigger] s[i] != ':'
    &&& (prefix.len() > 0 ==> s[colon_place(prefix, local)] == ':' && s.subrange(
        1,
        colon_place(prefix, local),
    ) == prefix && 2 + prefix.len() < 1 + n)
    &&& s.subrange(local_place(prefix), 1 + n) == local
    &&& forall|i: int| a <= i < b ==> #[trigger] s[i] != '<'
}

/// What a text spells that is made of a start tag with `name`, `body`,
/// and an end tag with `name`.
spec fn spelled(s: Seq<char>, name: Seq<char>, body: Seq<char>) -> bool {
    let n = name.len() as int;
    let e = body.len() as int;
    let b = 2 + n + e;
    &&& s.len() == b + 3 + n
    &&& s[0] == '<'
    &&& s[1 + n] == '>'
    &&& s[b] == '<'
    &&& s[b + 1] == '/'
    &&& s[b + 2 + n] == '>'
    &&& forall|i: int| 0 <= i < n ==> #[trigger] s[1 + i] == name[i]
    &&& forall|i: int| 0 <= i < e ==> #[trigger] s[2 + n + i] == body[i]
    &&& forall|i: int| 0 <= i < n ==> #[trigger] s[b + 2 + i] == name[i]
}

/// The middle of three texts stands behind the first.
proof fn lemma_middle(x: Seq<char>, y: Seq<char>, z: Seq<char>)
    ensures
        forall|i: int| 0 <= i < y.len() ==> #[trigger] (x + y + z)[x.len() + i] == y[i],
        (x + y + z).len() == x.len() + y.len() + z.len(),
{
}

/// A start tag, a body and an end tag spell what `spelled` says.
proof fn lemma_spelled(name: Seq<char>, body: Seq<char>)
    ensures
        spelled(
            seq!['<'] + name + seq!['>'] + body + seq!['<', '/'] + name + seq!['>'],
            name,
            body,
        ),
{
    let s = seq!['<'] + name + seq!['>'] + body + seq!['<', '/'] + name + seq!['>'];
    let n = name.len() as int;
    let e = body.len() as int;
    let b = 2 + n + e;
    let open = seq!['<'];
    let start = open + name + seq!['>'];
    let front = start + body + seq!['<', '/'];
    assert(s == front + name + seq!['>']);
    assert(front.len() == b + 2);
    lemma_middle(front, name, seq!['>']);
    assert forall|i: int| 0 <= i < n implies #[trigger] s[b + 2 + i] == name[i] by {
        assert((front + name + seq!['>'])[front.len() + i] == name[i]);
    }
    assert(s[b + 2 + n] == '>');
    assert forall|i: int| 0 <= i < b + 2 implies s[i] == #[trigger] front[i] by {}
    assert(front == start + body + seq!['<', '/']);
    lemma_middle(start, body, seq!['<', '/']);
    assert forall|i: int| 0 <= i < e implies #[trigger] s[2 + n + i] == body[i] by {
        assert((start + body + seq!['<', '/'])[start.len() + i] == body[i]);
        assert(s[2 + n + i] == front[2 + n + i]);
    }
    assert(front[b] == '<' && front[b + 1] == '/');
    assert(s[b] == front[b] && s[b + 1] == front[b + 1]);
    assert forall|i: int| 0 <= i < n + 2 implies front[i] == #[trigger] start[i] by {}
    lemma_middle(open, name, seq!['>']);
    assert forall|i: int| 0 <= i < n implies #[trigger] s[1 + i] == name[i] by {
        assert((open + name + seq!['>'])[open.len() + i] == name[i]);
        assert(front[1 + i] == start[1 + i]);
        assert(s[1 + i] == front[1 + i]);
    }
    assert(start[0] == '<' && start[1 + n] == '>');
    assert(front[0] == start[0] && front[1 + n] == start[1 + n]);
    assert(s[0] == front[0] && s[1 + n] == front[1 + n]);
}

/// What a qualified name holds: name characters alone, neither `?`, `!`
/// nor `/` at the start, the prefix before the first colon, and the local
/// part behind it.
spec fn name_spelled(prefix: Seq<char>, local: Seq<char>) -> bool {
    let name = qualified(prefix, local);
    let n = name.len() as int;
    let m = prefix.len() as int;
    &&& n >= 1
    &&& forall|i: int| 0 <= i < n ==> is_name_char(#[trigger] name[i])
    &&& name[0] != '?' && name[0] != '!' && name[0] != '/'
    &&& (m == 0 ==> name == local && forall|i: int| 0 <= i < n ==> #[trigger] name[i] != ':')
    &&& (m > 0 ==> n == m + 1 + local.len() && name[m] == ':' && name.subrange(0, m) == prefix
        && name.subrange(m + 1, n) == local && forall|i: int|
        0 <= i < m ==> #[trigger] name[i] != ':')
}

/// A qualified name holds what `name_spelled` says.
proof fn lemma_name_spelled(prefix: Seq<char>, local: Seq<char>)
    requires
        is_name_part(local),
        prefix.len() == 0 || is_name_part(prefix),
    ensures
        name_spelled(prefix, local),
{
    let name = qualified(prefix, local);
    let n = name.len() as int;
    let m = prefix.len() as int;
    if m > 0 {
        assert forall|i: int| 0 <= i < n implies is_name_char(#[trigger] name[i]) by {
            if i < m {
                assert(name[i] == prefix[i]);
            } else if i > m {
                assert(name[i] == local[i - m - 1]);
            }
        }
        assert(name[0] == prefix[0]);
        assert(name.subrange(0, m) =~= prefix);
        assert(name.subrange(m + 1, n) =~= local);
        assert forall|i: int| 0 <= i < m implies #[trigger] name[i] != ':' by {
            assert(name[i] == prefix[i]);
        }
    }
}

/// A written element is laid out as `laid_out` says.
proof fn lemma_laid_out(prefix: Seq<char>, local: Seq<char>, text: Seq<char>)
    requires
        is_name_part(local),
        prefix.len() == 0 || is_name_part(prefix),
    ensures
        laid_out(element_text(prefix, local, text), prefix, local, text),
{
    let s = element_text(prefix, local, text);
    let name = qualified(prefix, local);
    let body = escape(text);
    let n = name.len() as int;
    let e = body.len() as int;
    let m = prefix.len() as int;
    let a = 2 + n;
    let b = a + e;
    lemma_spelled(name, body);
    lemma_name_spelled(prefix, local);
    lemma_escaped_holds_no_markup(text, 0);
    assert(spelled(s, name, body));
    assert(s[1] == name[0]) by {
        assert(s[1 + 0int] == name[0]);
    }
    assert(s.subrange(1, 1 + n) =~= name) by {
        assert forall|i: int| 0 <= i < n implies s.subrange(1, 1 + n)[i] == name[i] by {
            assert(s[1 + i] == name[i]);
        }
    }
    assert(s.subrange(a, b) =~= body) by {
        assert forall|i: int| 0 <= i < e implies s.subrange(a, b)[i] == body[i] by {
            assert(s[2 + n + i] == body[i]);
        }
    }
    assert(s.subrange(b + 2, b + 2 + n) =~= name) by {
        assert forall|i: int| 0 <= i < n implies s.subrange(b + 2, b + 2 + n)[i] == name[i] by {
            assert(s[b + 2 + i] == name[i]);
        }
    }
    assert forall|i: int| 1 <= i < 1 + n implies is_name_char(#[trigger] s[i]) by {
        assert(s[1 + (i - 1)] == name[i - 1]);
    }
    assert forall|i: int| b + 2 <= i < b + 2 + n implies is_name_char(#[trigger] s[i]) by {
        assert(s[b + 2 + (i - b - 2)] == name[i - b - 2]);
    }
    assert forall|i: int| 1 <= i < colon_place(prefix, local) implies #[trigger] s[i] != ':' by {
        assert(s[1 + (i - 1)] == name[i - 1]);
    }
    assert forall|i: int| a <= i < b implies #[trigger] s[i] != '<' by {
        assert(s[2 + n + (i - a)] == body[i - a]);
    }
    if m > 0 {
        assert(s[1 + m] == name[m]);
        let head = s.subrange(1, 1 + m);
        let given = name.subrange(0, m);
        assert(head =~= given) by {
            assert forall|i: int| 0 <= i < m implies #[trigger] head[i] == given[i] by {
                assert(s[1 + i] == name[i]);
            }
        }
        let tail = s.subrange(2 + m, 1 + n);
        let wanted = name.subrange(m + 1, n);
        assert(tail =~= wanted) by {
            assert forall|i: int| 0 <= i < n - m - 1 implies #[trigger] tail[i] == wanted[i] by {
                assert(s[1 + (m + 1 + i)] == name[m + 1 + i]);
            }
        }
    }
}

/// The tables that are read of a text that is laid out as a written
/// element.
#[verifier::rlimit(60)]
proof fn lemma_laid_out_is_read(s: Seq<char>, prefix: Seq<char>, local: Seq<char>, text: Seq<char>)
    requires
        laid_out(s, prefix, local, text),
        s.len() <= usize::MAX,
    ensures
        read_document(s) == Some(element_tables(prefix, local, text)),
{
    let body = escape(text);
    let n = name_length(prefix, local);
    let e = body.len() as int;
    let a = 2 + n;
    let b = a + e;
    let len = b + 3 + n;
    let colon = colon_place(prefix, local);
    let first = local_place(prefix);

    // The start tag.
    let st0 = initial_scan();
    lemma_no_special_markup(s, 0);
    assert(!holds_at(s, 0, pat_end_tag_open())) by {
        assert(s.subrange(0, 2)[1] == s[1]);
        assert(pat_end_tag_open()[1] == '/');
    }
    lemma_name_end_of_run(s, 1, 1 + n);
    lemma_find_char_of_run(s, 1, colon, 1 + n, ':');
    assert(name_ok(s, 1, 1 + n));
    assert(local_start(s, 1, 1 + n) == first);
    assert(skip_spaces(s, 1 + n) == 1 + n);
    assert(attrs_from(s, 1 + n, 0, Seq::empty()) == Some((Seq::<Attribute>::empty(), a, false)));
    let element = Element {
        name_start: 1,
        local_start: first as usize,
        name_end: (1 + n) as usize,
        parent: None,
    };
    let st1 = Scan {
        tables: Tables {
            elements: seq![element],
            attributes: Seq::empty(),
            chunks: Seq::empty(),
        },
        open: seq![0usize],
        roots: 1,
    };
    assert(st0.tables.elements.push(element) =~= seq![element]);
    assert(st0.tables.attributes + Seq::<Attribute>::empty() =~= Seq::<Attribute>::empty());
    assert(st0.open.push(0usize) =~= seq![0usize]);
    assert(start_tag_step(s, 0, st0) == Some((st1, a)));
    assert(step(s, 0, st0) == Some((st1, a)));

    // The character data, where there is any.
    lemma_unescape_escape(text);
    let chunk = Chunk { owner: 0, start: a as usize, end: b as usize, raw: false };
    let st2 = if e == 0 {
        st1
    } else {
        with_chunk(st1, chunk)
    };
    if e > 0 {
        lemma_find_char_of_run(s, a, b, len, '<');
        assert(st1.open.last() == 0);
        assert(text_step(s, a, st1) == Some((st2, b)));
        assert(s[a] != '<');
        assert(step(s, a, st1) == Some((st2, b)));
        assert(st2.tables.chunks =~= seq![chunk]);
    }
    assert(st2.open == st1.open);
    assert(st2.tables.elements == st1.tables.elements);

    // The end tag.
    lemma_no_special_markup(s, b);
    assert(holds_at(s, b, pat_end_tag_open())) by {
        assert(s.subrange(b, b + 2) =~= pat_end_tag_open());
    }
    lemma_name_end_of_run(s, b + 2, b + 2 + n);
    assert(skip_spaces(s, b + 2 + n) == b + 2 + n);
    let st3 = Scan { tables: st2.tables, open: st2.open.drop_last(), roots: st2.roots };
    assert(st2.tables.elements[st2.open.last() as int] == element);
    assert(end_tag_step(s, b, st2) == Some((st3, len)));
    assert(step(s, b, st2) == Some((st3, len)));
    assert(st3.open.len() == 0);

    // The whole.
    assert(read_from(s, len, st3) == Some(st3));
    assert(read_from(s, b, st2) == Some(st3));
    if e > 0 {
        assert(read_from(s, a, st1) == Some(st3));
    }
    assert(read_from(s, 0, st0) == Some(st3));
    assert(st3.tables == element_tables(prefix, local, text));
}

/// What the queries see of the tables of a written element.
proof fn lemma_laid_out_is_seen(s: Seq<char>, prefix: Seq<char>, local: Seq<char>, text: Seq<char>)
    requires
        laid_out(s, prefix, local, text),
        s.len() <= usize::MAX,
    ensures
        nodes_of(s, element_tables(prefix, local, text)) == seq![
            element_node(prefix, local, text),
        ],
{
    let tables = element_tables(prefix, local, text);
    let body = escape(text);
    let n = name_length(prefix, local);
    let e = body.len() as int;
    let a = 2 + n;
    let b = a + e;
    lemma_unescape_escape(text);
    assert(attributes_from(s, tables.attributes, 0, 0) =~= Seq::<(Seq<char>, Seq<char>)>::empty());
    if e > 0 {
        let chunk = tables.chunks[0];
        assert(chunk_text(s, chunk) == text);
        assert(text_from(s, tables.chunks, 0, 1) =~= Seq::<char>::empty());
        assert(text_from(s, tables.chunks, 0, 0) =~= text);
    } else {
        assert(body =~= Seq::<char>::empty());
        assert(text =~= Seq::<char>::empty());
        assert(text_from(s, tables.chunks, 0, 0) =~= text);
    }
    if prefix.len() == 0 {
        assert(prefix =~= Seq::<char>::empty());
    }
    assert(node_of(s, tables, 0) == element_node(prefix, local, text));
    assert(nodes_of(s, tables) =~= seq![element_node(prefix, local, text)]);
}

/// An element that is written is read back: the text that `element_text`
/// writes is a document of one element, which has the prefix, the local
/// name and the text that were written.
pub proof fn lemma_element_reads_back(prefix: Seq<char>, local: Seq<char>, text: Seq<char>)
    requires
        is_name_part(local),
        prefix.len() == 0 || is_name_part(prefix),
        element_text(prefix, local, text).len() <= usize::MAX,
    ensures
        document_of(element_text(prefix, local, text)) == Some(
            seq![element_node(prefix, local, text)],
        ),
{
    let s = element_text(prefix, local, text);
    lemma_laid_out(prefix, local, text);
    lemma_laid_out_is_read(s, prefix, local, text);
    lemma_laid_out_is_seen(s, prefix, local, text);
}

/// The prefix under which an element is written makes no difference to
/// what is read of it but the prefix: the local name and the text are the
/// same under any two prefixes.
pub proof fn lemma_prefix_makes_no_difference(
    one: Seq<char>,
    other: Seq<char>,
    local: Seq<char>,
    text: Seq<char>,
)
    requires
        is_name_part(local),
        one.len() == 0 || is_name_part(one),
        other.len() == 0 || is_name_part(other),
        element_text(one, local, text).len() <= usize::MAX,
        element_text(other, local, text).len() <= usize::MAX,
    ensures
        document_of(element_text(one, local, text)) is Some,
        document_of(element_text(other, local, text)) is Some,
        same_but_prefixes(
            document_of(element_text(one, local, text))->0,
            document_of(element_text(other, local, text))->0,
        ),
{
    lemma_element_reads_back(one, local, text);
    lemma_element_reads_back(other, local, text);
}

} // verus!
