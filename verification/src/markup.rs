//! The grammar of the XML reader: what one step of reading does to the
//! tables of elements, attributes and character data, stated over the
//! characters of the document.
//!
//! The reader accepts a prolog and processing instructions (`<?..?>`),
//! comments, elements with attributes, empty-element tags, character data
//! with the five predefined entities, and CDATA sections. It accepts no
//! document type declaration. A document has exactly one root element and
//! nothing but white space outside it.

use crate::entity::unescape;
use crate::scan::{find_char, find_seq, lemma_find_char, lemma_name_end, lemma_skip_spaces, name_end, skip_spaces};
use crate::text::holds_at;
use vstd::prelude::*;

verus! {

/// An element: where its name stands in the document, where the local part
/// of the name starts, and the element that holds it.
#[derive(Clone, Copy, Debug)]
pub struct Element {
    pub name_start: usize,
    pub local_start: usize,
    pub name_end: usize,
    pub parent: Option<usize>,
}

/// An attribute of the element `owner`: where its name and its value stand.
#[derive(Clone, Copy, Debug)]
pub struct Attribute {
    pub owner: usize,
    pub name_start: usize,
    pub local_start: usize,
    pub name_end: usize,
    pub value_start: usize,
    pub value_end: usize,
}

/// A run of character data directly inside the element `owner`. A `raw` run
/// comes from a CDATA section and is taken as it stands.
#[derive(Clone, Copy, Debug)]
pub struct Chunk {
    pub owner: usize,
    pub start: usize,
    pub end: usize,
    pub raw: bool,
}

/// What was read of a document: its elements in the order of their start
/// tags, and their attributes and character data in document order.
pub struct Tables {
    pub elements: Seq<Element>,
    pub attributes: Seq<Attribute>,
    pub chunks: Seq<Chunk>,
}

/// The state of reading: the tables so far, the elements that are still
/// open (innermost last), and the number of root elements seen.
pub struct Scan {
    pub tables: Tables,
    pub open: Seq<usize>,
    pub roots: nat,
}

/// The state before anything was read.
pub open spec fn initial_scan() -> Scan {
    Scan {
        tables: Tables { elements: Seq::empty(), attributes: Seq::empty(), chunks: Seq::empty() },
        open: Seq::empty(),
        roots: 0,
    }
}

/// `<?`
pub open spec fn pat_instruction_open() -> Seq<char> {
    seq!['<', '?']
}

/// `?>`
pub open spec fn pat_instruction_close() -> Seq<char> {
    seq!['?', '>']
}

/// `<!--`
pub open spec fn pat_comment_open() -> Seq<char> {
    seq!['<', '!', '-', '-']
}

/// `-->`
pub open spec fn pat_comment_close() -> Seq<char> {
    seq!['-', '-', '>']
}

/// `<![CDATA[`
pub open spec fn pat_cdata_open() -> Seq<char> {
    seq!['<', '!', '[', 'C', 'D', 'A', 'T', 'A', '[']
}

/// `]]>`
pub open spec fn pat_cdata_close() -> Seq<char> {
    seq![']', ']', '>']
}

/// `<!`
pub open spec fn pat_declaration_open() -> Seq<char> {
    seq!['<', '!']
}

/// `</`
pub open spec fn pat_end_tag_open() -> Seq<char> {
    seq!['<', '/']
}

/// Where the local part of the name `a..b` starts: behind its first colon,
/// or at `a` where it has none.
pub open spec fn local_start(s: Seq<char>, a: int, b: int) -> int {
    let c = find_char(s, a, b, ':');
    if c < b {
        c + 1
    } else {
        a
    }
}

/// A name is not empty, and neither is its prefix nor its local part where
/// it has a colon.
pub open spec fn name_ok(s: Seq<char>, a: int, b: int) -> bool {
    let c = find_char(s, a, b, ':');
    a < b && (c == b || (a < c && c + 1 < b))
}

/// The state with one more run of character data.
pub open spec fn with_chunk(st: Scan, c: Chunk) -> Scan {
    Scan {
        tables: Tables {
            elements: st.tables.elements,
            attributes: st.tables.attributes,
            chunks: st.tables.chunks.push(c),
        },
        open: st.open,
        roots: st.roots,
    }
}

/// Character data from `pos` to the next `<`. Outside the root element it
/// must be white space; inside, its entities must be known.
pub open spec fn text_step(s: Seq<char>, pos: int, st: Scan) -> Option<(Scan, int)> {
    let e = find_char(s, pos, s.len() as int, '<');
    if st.open.len() == 0 {
        if skip_spaces(s, pos) >= e {
            Some((st, e))
        } else {
            None
        }
    } else if unescape(s.subrange(pos, e)) is None {
        None
    } else {
        Some(
            (
                with_chunk(
                    st,
                    Chunk { owner: st.open.last(), start: pos as usize, end: e as usize, raw: false },
                ),
                e,
            ),
        )
    }
}

/// Markup that is passed over: it starts with `open_len` characters at `pos`
/// and ends with the first `close` behind them.
pub open spec fn skip_step(s: Seq<char>, pos: int, st: Scan, open_len: int, close: Seq<char>)
    -> Option<(Scan, int)> {
    let e = find_seq(s, pos + open_len, close);
    if e >= s.len() {
        None
    } else {
        Some((st, e + close.len()))
    }
}

/// A CDATA section: character data taken as it stands, inside an element.
pub open spec fn cdata_step(s: Seq<char>, pos: int, st: Scan) -> Option<(Scan, int)> {
    let e = find_seq(s, pos + 9, pat_cdata_close());
    if e >= s.len() || st.open.len() == 0 {
        None
    } else {
        Some(
            (
                with_chunk(
                    st,
                    Chunk {
                        owner: st.open.last(),
                        start: (pos + 9) as usize,
                        end: e as usize,
                        raw: true,
                    },
                ),
                e + 3,
            ),
        )
    }
}

/// An end tag: it names the innermost open element, which it closes.
pub open spec fn end_tag_step(s: Seq<char>, pos: int, st: Scan) -> Option<(Scan, int)> {
    let ne = name_end(s, pos + 2);
    let g = skip_spaces(s, ne);
    if g >= s.len() || s[g] != '>' || st.open.len() == 0 {
        None
    } else {
        let top = st.tables.elements[st.open.last() as int];
        if s.subrange(pos + 2, ne) != s.subrange(top.name_start as int, top.name_end as int) {
            None
        } else {
            Some((Scan { tables: st.tables, open: st.open.drop_last(), roots: st.roots }, g + 1))
        }
    }
}

/// The attributes of a start tag from `pos` on, added to `acc`; then the
/// position behind the tag and whether the tag closes its element at once.
/// Each attribute stands behind white space and has the form
/// `name="value"` or `name='value'`, its value without `<` and with known
/// entities.
pub open spec fn attrs_from(s: Seq<char>, pos: int, owner: usize, acc: Seq<Attribute>) -> Option<
    (Seq<Attribute>, int, bool),
>
    decreases s.len() - pos,
{
    if pos < 0 || pos > s.len() {
        None
    } else {
        let p = skip_spaces(s, pos);
        if p >= s.len() {
            None
        } else if s[p] == '>' {
            Some((acc, p + 1, false))
        } else if s[p] == '/' {
            if p + 1 < s.len() && s[p + 1] == '>' {
                Some((acc, p + 2, true))
            } else {
                None
            }
        } else {
            let ne = name_end(s, p);
            let q = skip_spaces(s, ne);
            if p == pos || !name_ok(s, p, ne) || q >= s.len() || s[q] != '=' {
                None
            } else {
                let v = skip_spaces(s, q + 1);
                if v >= s.len() || (s[v] != '"' && s[v] != '\'') {
                    None
                } else {
                    let e = find_char(s, v + 1, s.len() as int, s[v]);
                    if e >= s.len() || find_char(s, v + 1, e, '<') < e || unescape(
                        s.subrange(v + 1, e),
                    ) is None {
                        None
                    } else {
                        proof {
                            lemma_skip_spaces(s, pos);
                            lemma_name_end(s, p);
                            lemma_skip_spaces(s, ne);
                            lemma_skip_spaces(s, q + 1);
                            lemma_find_char(s, v + 1, s.len() as int, s[v]);
                        }
                        attrs_from(
                            s,
                            e + 1,
                            owner,
                            acc.push(
                                Attribute {
                                    owner,
                                    name_start: p as usize,
                                    local_start: local_start(s, p, ne) as usize,
                                    name_end: ne as usize,
                                    value_start: (v + 1) as usize,
                                    value_end: e as usize,
                                },
                            ),
                        )
                    }
                }
            }
        }
    }
}

/// A start tag or an empty-element tag: a new element inside the innermost
/// open one. Outside every element it is the root, and there is one root.
pub open spec fn start_tag_step(s: Seq<char>, pos: int, st: Scan) -> Option<(Scan, int)> {
    let ne = name_end(s, pos + 1);
    let index = st.tables.elements.len() as usize;
    if !name_ok(s, pos + 1, ne) || (st.open.len() == 0 && st.roots >= 1) {
        None
    } else {
        match attrs_from(s, ne, index, Seq::empty()) {
            None => None,
            Some((attrs, next, closed)) => Some(
                (
                    Scan {
                        tables: Tables {
                            elements: st.tables.elements.push(
                                Element {
                                    name_start: (pos + 1) as usize,
                                    local_start: local_start(s, pos + 1, ne) as usize,
                                    name_end: ne as usize,
                                    parent: if st.open.len() == 0 {
                                        None
                                    } else {
                                        Some(st.open.last())
                                    },
                                },
                            ),
                            attributes: st.tables.attributes + attrs,
                            chunks: st.tables.chunks,
                        },
                        open: if closed {
                            st.open
                        } else {
                            st.open.push(index)
                        },
                        roots: if st.open.len() == 0 {
                            st.roots + 1
                        } else {
                            st.roots
                        },
                    },
                    next,
                ),
            ),
        }
    }
}

/// One step of reading at `pos`: the new state and the position behind what
/// was read, or nothing where the document is malformed there.
pub open spec fn step(s: Seq<char>, pos: int, st: Scan) -> Option<(Scan, int)> {
    if s[pos] != '<' {
        text_step(s, pos, st)
    } else if holds_at(s, pos, pat_instruction_open()) {
        skip_step(s, pos, st, 2, pat_instruction_close())
    } else if holds_at(s, pos, pat_comment_open()) {
        skip_step(s, pos, st, 4, pat_comment_close())
    } else if holds_at(s, pos, pat_cdata_open()) {
        cdata_step(s, pos, st)
    } else if holds_at(s, pos, pat_declaration_open()) {
        None
    } else if holds_at(s, pos, pat_end_tag_open()) {
        end_tag_step(s, pos, st)
    } else {
        start_tag_step(s, pos, st)
    }
}

/// Reading from `pos` to the end: the final state, or nothing where the
/// document is malformed. At the end every element is closed and there is
/// one root.
pub open spec fn read_from(s: Seq<char>, pos: int, st: Scan) -> Option<Scan>
    decreases s.len() - pos,
{
    if pos < 0 || pos >= s.len() {
        if st.open.len() == 0 && st.roots == 1 {
            Some(st)
        } else {
            None
        }
    } else {
        match step(s, pos, st) {
            None => None,
            Some(p) => if p.1 <= pos || p.1 > s.len() {
                None
            } else {
                read_from(s, p.1, p.0)
            },
        }
    }
}

/// The tables of a document, or nothing where it is malformed.
pub open spec fn read_document(s: Seq<char>) -> Option<Tables> {
    match read_from(s, 0, initial_scan()) {
        Some(st) => Some(st.tables),
        None => None,
    }
}

/// Every place that the tables name lies inside the document, every element
/// stands behind the one that holds it, and every run of character data can
/// be read.
pub open spec fn tables_fit(s: Seq<char>, t: Tables) -> bool {
    &&& forall|i: int|
        0 <= i < t.elements.len() ==> {
            let e = #[trigger] t.elements[i];
            &&& e.name_start <= e.local_start < e.name_end <= s.len()
            &&& (e.parent matches Some(p) ==> p < i)
        }
    &&& forall|i: int|
        0 <= i < t.attributes.len() ==> {
            let a = #[trigger] t.attributes[i];
            &&& a.owner < t.elements.len()
            &&& a.name_start <= a.local_start < a.name_end <= a.value_start <= a.value_end
                <= s.len()
            &&& unescape(s.subrange(a.value_start as int, a.value_end as int)) is Some
        }
    &&& forall|i: int|
        0 <= i < t.chunks.len() ==> {
            let c = #[trigger] t.chunks[i];
            &&& c.owner < t.elements.len()
            &&& c.start <= c.end <= s.len()
            &&& (!c.raw ==> unescape(s.subrange(c.start as int, c.end as int)) is Some)
        }
}

/// The tables fit the document and every open element is in them.
pub open spec fn scan_fits(s: Seq<char>, st: Scan) -> bool {
    &&& tables_fit(s, st.tables)
    &&& forall|k: int| 0 <= k < st.open.len() ==> #[trigger] st.open[k] < st.tables.elements.len()
    &&& st.roots <= 1
}

/// The state behind the step at `pos`, where there is one.
pub open spec fn stepped(s: Seq<char>, pos: int, st: Scan) -> Scan {
    match step(s, pos, st) {
        Some(p) => p.0,
        None => st,
    }
}

/// The position behind the step at `pos`, where there is one.
pub open spec fn step_end(s: Seq<char>, pos: int, st: Scan) -> int {
    match step(s, pos, st) {
        Some(p) => p.1,
        None => pos,
    }
}

/// What was read so far is a tree: where there are elements, the first is
/// the root, every other stands inside one before it, and every open
/// element is among them.
pub open spec fn is_tree_so_far(st: Scan) -> bool {
    let elements = st.tables.elements;
    &&& st.roots <= 1
    &&& (st.roots == 0 ==> elements.len() == 0)
    &&& (st.roots == 1 ==> elements.len() >= 1 && elements[0].parent is None)
    &&& (elements.len() == 0 ==> st.open.len() == 0)
    &&& forall|i: int|
        1 <= i < elements.len() ==> (#[trigger] elements[i]).parent is Some && elements[i].parent->0
            < i
    &&& forall|k: int| 0 <= k < st.open.len() ==> #[trigger] st.open[k] < elements.len()
}

/// One step of reading keeps a tree a tree.
pub proof fn lemma_step_keeps_tree(s: Seq<char>, pos: int, st: Scan)
    requires
        is_tree_so_far(st),
        0 <= pos < s.len(),
        step(s, pos, st) is Some,
    ensures
        is_tree_so_far(stepped(s, pos, st)),
{
    let after = stepped(s, pos, st);
    if s[pos] != '<' {
    } else if holds_at(s, pos, pat_instruction_open()) {
    } else if holds_at(s, pos, pat_comment_open()) {
    } else if holds_at(s, pos, pat_cdata_open()) {
    } else if holds_at(s, pos, pat_declaration_open()) {
    } else if holds_at(s, pos, pat_end_tag_open()) {
        assert forall|k: int| 0 <= k < after.open.len() implies #[trigger] after.open[k]
            < after.tables.elements.len() by {
            assert(after.open[k] == st.open[k]);
        }
    } else {
        let before = st.tables.elements;
        let now = after.tables.elements;
        let index = before.len() as usize;
        assert(now.len() == before.len() + 1);
        assert(index <= before.len());
        assert forall|i: int| 1 <= i < now.len() implies (#[trigger] now[i]).parent is Some
            && now[i].parent->0 < i by {
            if i < before.len() {
                assert(now[i] == before[i]);
            } else {
                assert(st.open.len() > 0);
                assert(st.open[st.open.len() - 1] < before.len());
            }
        }
        if before.len() > 0 {
            assert(now[0] == before[0]);
        }
        assert forall|k: int| 0 <= k < after.open.len() implies #[trigger] after.open[k]
            < now.len() by {
            if k < st.open.len() {
                assert(after.open[k] == st.open[k]);
            }
        }
    }
}

/// Reading to the end keeps a tree a tree.
pub proof fn lemma_read_keeps_tree(s: Seq<char>, pos: int, st: Scan)
    requires
        is_tree_so_far(st),
        read_from(s, pos, st) is Some,
    ensures
        is_tree_so_far(read_from(s, pos, st)->0),
        read_from(s, pos, st)->0.roots == 1,
        read_from(s, pos, st)->0.open.len() == 0,
    decreases s.len() - pos,
{
    if 0 <= pos < s.len() {
        lemma_step_keeps_tree(s, pos, st);
        lemma_read_keeps_tree(s, step_end(s, pos, st), stepped(s, pos, st));
    }
}

/// A document is a tree with one root: it has an element, the first
/// element stands inside no other, and every other element stands inside
/// one that comes before it.
pub proof fn lemma_document_is_a_tree(s: Seq<char>)
    requires
        read_document(s) is Some,
    ensures
        read_document(s)->0.elements.len() >= 1,
        read_document(s)->0.elements[0].parent is None,
        forall|i: int|
            1 <= i < read_document(s)->0.elements.len() ==> (#[trigger] read_document(
                s,
            )->0.elements[i]).parent is Some && read_document(s)->0.elements[i].parent->0 < i,
{
    lemma_read_keeps_tree(s, 0, initial_scan());
}

/// The smallest document: one empty element. The text `<a/>` is read as a
/// single element with the name `a`.
pub proof fn lemma_smallest_document()
    ensures
        read_document(seq!['<', 'a', '/', '>']) == Some(
            Tables {
                elements: seq![
                    Element { name_start: 1, local_start: 1, name_end: 2, parent: None },
                ],
                attributes: Seq::empty(),
                chunks: Seq::empty(),
            },
        ),
{
    let s = seq!['<', 'a', '/', '>'];
    let st = initial_scan();
    assert(s[0] == '<' && s[1] == 'a' && s[2] == '/' && s[3] == '>');
    assert(!holds_at(s, 0, pat_instruction_open())) by {
        assert(s.subrange(0, 2)[1] == 'a');
        assert(pat_instruction_open()[1] == '?');
    }
    assert(!holds_at(s, 0, pat_comment_open())) by {
        assert(s.subrange(0, 4)[1] == 'a');
        assert(pat_comment_open()[1] == '!');
    }
    assert(!holds_at(s, 0, pat_cdata_open()));
    assert(!holds_at(s, 0, pat_declaration_open())) by {
        assert(s.subrange(0, 2)[1] == 'a');
        assert(pat_declaration_open()[1] == '!');
    }
    assert(!holds_at(s, 0, pat_end_tag_open())) by {
        assert(s.subrange(0, 2)[1] == 'a');
        assert(pat_end_tag_open()[1] == '/');
    }
    assert(name_end(s, 2) == 2);
    assert(name_end(s, 1) == 2);
    assert(find_char(s, 2, 2, ':') == 2);
    assert(find_char(s, 1, 2, ':') == 2);
    assert(name_ok(s, 1, 2));
    assert(local_start(s, 1, 2) == 1);
    assert(skip_spaces(s, 2) == 2);
    assert(attrs_from(s, 2, 0, Seq::empty()) == Some((Seq::<Attribute>::empty(), 4int, true)));
    let element = Element { name_start: 1, local_start: 1, name_end: 2, parent: None };
    let after = Scan {
        tables: Tables {
            elements: seq![element],
            attributes: Seq::empty(),
            chunks: Seq::empty(),
        },
        open: Seq::empty(),
        roots: 1,
    };
    assert(st.tables.elements.push(element) =~= seq![element]);
    assert(st.tables.attributes + Seq::<Attribute>::empty() =~= Seq::<Attribute>::empty());
    assert(start_tag_step(s, 0, st) == Some((after, 4int)));
    assert(step(s, 0, st) == Some((after, 4int)));
    assert(read_from(s, 4, after) == Some(after));
    assert(read_from(s, 0, st) == Some(after));
}

/// An element that is not closed makes no document: the text `<a>` is
/// malformed.
pub proof fn lemma_unclosed_element_is_malformed()
    ensures
        read_document(seq!['<', 'a', '>']) is None,
{
    let s = seq!['<', 'a', '>'];
    let st = initial_scan();
    assert(s[0] == '<' && s[1] == 'a' && s[2] == '>');
    assert(!holds_at(s, 0, pat_instruction_open())) by {
        assert(s.subrange(0, 2)[1] == 'a');
        assert(pat_instruction_open()[1] == '?');
    }
    assert(!holds_at(s, 0, pat_comment_open()));
    assert(!holds_at(s, 0, pat_cdata_open()));
    assert(!holds_at(s, 0, pat_declaration_open())) by {
        assert(s.subrange(0, 2)[1] == 'a');
        assert(pat_declaration_open()[1] == '!');
    }
    assert(!holds_at(s, 0, pat_end_tag_open())) by {
        assert(s.subrange(0, 2)[1] == 'a');
        assert(pat_end_tag_open()[1] == '/');
    }
    assert(name_end(s, 2) == 2);
    assert(name_end(s, 1) == 2);
    assert(find_char(s, 2, 2, ':') == 2);
    assert(find_char(s, 1, 2, ':') == 2);
    assert(skip_spaces(s, 2) == 2);
    assert(attrs_from(s, 2, 0, Seq::empty()) == Some((Seq::<Attribute>::empty(), 3int, false)));
    let element = Element { name_start: 1, local_start: 1, name_end: 2, parent: None };
    let after = Scan {
        tables: Tables {
            elements: st.tables.elements.push(element),
            attributes: st.tables.attributes + Seq::<Attribute>::empty(),
            chunks: st.tables.chunks,
        },
        open: st.open.push(0),
        roots: 1,
    };
    assert(start_tag_step(s, 0, st) == Some((after, 3int)));
    assert(step(s, 0, st) == Some((after, 3int)));
    assert(after.open.len() == 1);
    assert(read_from(s, 3, after) is None);
    assert(read_from(s, 0, st) is None);
}

} // verus!
