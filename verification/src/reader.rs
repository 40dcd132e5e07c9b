//! The XML reader: it walks a document once and fills the tables that the
//! grammar describes.

use crate::entity::{unescape, unescape_chars};
use crate::markup::{
    attrs_from, cdata_step, end_tag_step, initial_scan, local_start, name_ok, pat_cdata_close,
    pat_cdata_open, pat_comment_close, pat_comment_open, pat_declaration_open, pat_end_tag_open,
    pat_instruction_close, pat_instruction_open, read_document, read_from, scan_fits, skip_step,
    start_tag_step, step, tables_fit, text_step, Attribute, Chunk, Element, Scan, Tables,
};
use crate::scan::{
    lemma_find_char, lemma_find_seq, same_range, scan_char, scan_name, scan_seq, skip_space_run,
};
use crate::text::{copy_range, has_at};
use vstd::prelude::*;

verus! {

/// The tables while they are filled.
struct Scanner {
    pub elements: Vec<Element>,
    pub attributes: Vec<Attribute>,
    pub chunks: Vec<Chunk>,
    pub open: Vec<usize>,
    pub roots: usize,
}

impl View for Scanner {
    type V = Scan;

    closed spec fn view(&self) -> Scan {
        Scan {
            tables: Tables {
                elements: self.elements@,
                attributes: self.attributes@,
                chunks: self.chunks@,
            },
            open: self.open@,
            roots: self.roots as nat,
        }
    }
}

/// What a step returns: the state behind it and the next position, as the
/// grammar gives them, or nothing where the grammar gives nothing.
spec fn step_result(
    s: Seq<char>,
    pos: int,
    expected: Option<(Scan, int)>,
    r: Option<(Scanner, usize)>,
) -> bool {
    match r {
        Some((st, next)) => expected == Some((st@, next as int)) && scan_fits(s, st@) && pos < next
            <= s.len(),
        None => expected is None,
    }
}

/// Where the local part of the name `a..b` starts.
fn find_local_start(s: &Vec<char>, a: usize, b: usize) -> (r: usize)
    requires
        a <= b <= s.len(),
    ensures
        r == local_start(s@, a as int, b as int),
        a <= r <= b,
{
    let c = scan_char(s, a, b, ':');
    if c < b {
        c + 1
    } else {
        a
    }
}

/// Whether `a..b` is a name with all its parts.
fn check_name(s: &Vec<char>, a: usize, b: usize) -> (r: bool)
    requires
        a <= b <= s.len(),
    ensures
        r == name_ok(s@, a as int, b as int),
        r ==> a <= local_start(s@, a as int, b as int) < b,
{
    let c = scan_char(s, a, b, ':');
    a < b && (c == b || (a < c && c + 1 < b))
}

/// Reads character data.
fn read_text(s: &Vec<char>, pos: usize, st: Scanner) -> (r: Option<(Scanner, usize)>)
    requires
        pos < s.len(),
        s@[pos as int] != '<',
        scan_fits(s@, st@),
    ensures
        step_result(s@, pos as int, text_step(s@, pos as int, st@), r),
{
    let e = scan_char(s, pos, s.len(), '<');
    proof {
        lemma_find_char(s@, pos + 1, s.len() as int, '<');
    }
    if st.open.len() == 0 {
        let p = skip_space_run(s, pos);
        if p >= e {
            Some((st, e))
        } else {
            None
        }
    } else {
        let raw = copy_range(s, pos, e);
        match unescape_chars(&raw) {
            None => None,
            Some(_) => {
                let owner = st.open[st.open.len() - 1];
                let mut st = st;
                st.chunks.push(Chunk { owner, start: pos, end: e, raw: false });
                Some((st, e))
            },
        }
    }
}

/// Passes over markup that starts with `open_len` characters and ends with
/// `close`.
fn read_skipped(s: &Vec<char>, pos: usize, st: Scanner, open_len: usize, close: &Vec<char>) -> (r:
    Option<(Scanner, usize)>)
    requires
        pos + open_len <= s.len(),
        close@.len() > 0,
        scan_fits(s@, st@),
    ensures
        step_result(s@, pos as int, skip_step(s@, pos as int, st@, open_len as int, close@), r),
{
    let e = scan_seq(s, pos + open_len, close);
    proof {
        lemma_find_seq(s@, pos + open_len, close@);
    }
    if e >= s.len() {
        None
    } else {
        Some((st, e + close.len()))
    }
}

/// Reads a CDATA section.
fn read_cdata(s: &Vec<char>, pos: usize, st: Scanner) -> (r: Option<(Scanner, usize)>)
    requires
        pos + 9 <= s.len(),
        scan_fits(s@, st@),
    ensures
        step_result(s@, pos as int, cdata_step(s@, pos as int, st@), r),
{
    let close: Vec<char> = vec![']', ']', '>'];
    assert(close@ =~= pat_cdata_close());
    let e = scan_seq(s, pos + 9, &close);
    proof {
        lemma_find_seq(s@, pos + 9, close@);
    }
    if e >= s.len() || st.open.len() == 0 {
        None
    } else {
        let owner = st.open[st.open.len() - 1];
        let mut st = st;
        st.chunks.push(Chunk { owner, start: pos + 9, end: e, raw: true });
        Some((st, e + 3))
    }
}

/// Reads an end tag.
fn read_end_tag(s: &Vec<char>, pos: usize, st: Scanner) -> (r: Option<(Scanner, usize)>)
    requires
        pos + 2 <= s.len(),
        scan_fits(s@, st@),
    ensures
        step_result(s@, pos as int, end_tag_step(s@, pos as int, st@), r),
{
    let ne = scan_name(s, pos + 2);
    let g = skip_space_run(s, ne);
    if g >= s.len() || s[g] != '>' || st.open.len() == 0 {
        return None;
    }
    let top = st.elements[st.open[st.open.len() - 1]];
    if !same_range(s, pos + 2, ne, top.name_start, top.name_end) {
        return None;
    }
    let mut st = st;
    let ghost before = st.open@;
    st.open.pop();
    assert(st.open@ == before.drop_last());
    Some((st, g + 1))
}

/// Whether every attribute of `acc` belongs to `owner` and fits `s`.
spec fn attrs_fit(s: Seq<char>, owner: usize, acc: Seq<Attribute>) -> bool {
    forall|i: int|
        0 <= i < acc.len() ==> {
            let a = #[trigger] acc[i];
            &&& a.owner == owner
            &&& a.name_start <= a.local_start < a.name_end <= a.value_start <= a.value_end
                <= s.len()
            &&& unescape(s.subrange(a.value_start as int, a.value_end as int)) is Some
        }
}

/// Reads the attributes of a start tag and the end of the tag.
fn read_attributes(s: &Vec<char>, pos: usize, owner: usize) -> (r: Option<
    (Vec<Attribute>, usize, bool),
>)
    requires
        pos <= s.len(),
    ensures
        match r {
            Some((attrs, next, closed)) => attrs_from(s@, pos as int, owner, Seq::empty()) == Some(
                (attrs@, next as int, closed),
            ) && attrs_fit(s@, owner, attrs@) && pos < next <= s.len(),
            None => attrs_from(s@, pos as int, owner, Seq::empty()) is None,
        },
{
    let mut acc: Vec<Attribute> = Vec::new();
    let mut cur: usize = pos;
    loop
        invariant
            pos <= cur <= s.len(),
            attrs_from(s@, cur as int, owner, acc@) == attrs_from(
                s@,
                pos as int,
                owner,
                Seq::empty(),
            ),
            attrs_fit(s@, owner, acc@),
        decreases s.len() - cur,
    {
        let p = skip_space_run(s, cur);
        if p >= s.len() {
            return None;
        }
        if s[p] == '>' {
            return Some((acc, p + 1, false));
        }
        if s[p] == '/' {
            if p + 1 < s.len() && s[p + 1] == '>' {
                return Some((acc, p + 2, true));
            } else {
                return None;
            }
        }
        let ne = scan_name(s, p);
        let q = skip_space_run(s, ne);
        if p == cur || !check_name(s, p, ne) || q >= s.len() || s[q] != '=' {
            return None;
        }
        let v = skip_space_run(s, q + 1);
        if v >= s.len() || (s[v] != '"' && s[v] != '\'') {
            return None;
        }
        let e = scan_char(s, v + 1, s.len(), s[v]);
        if e >= s.len() {
            return None;
        }
        if scan_char(s, v + 1, e, '<') < e {
            return None;
        }
        let raw = copy_range(s, v + 1, e);
        if unescape_chars(&raw).is_none() {
            return None;
        }
        let local = find_local_start(s, p, ne);
        acc.push(
            Attribute {
                owner,
                name_start: p,
                local_start: local,
                name_end: ne,
                value_start: v + 1,
                value_end: e,
            },
        );
        cur = e + 1;
    }
}

/// Reads a start tag or an empty-element tag.
fn read_start_tag(s: &Vec<char>, pos: usize, st: Scanner) -> (r: Option<(Scanner, usize)>)
    requires
        pos + 1 <= s.len(),
        scan_fits(s@, st@),
    ensures
        step_result(s@, pos as int, start_tag_step(s@, pos as int, st@), r),
{
    let ne = scan_name(s, pos + 1);
    if !check_name(s, pos + 1, ne) || (st.open.len() == 0 && st.roots >= 1) {
        return None;
    }
    let index = st.elements.len();
    match read_attributes(s, ne, index) {
        None => None,
        Some((attrs, next, closed)) => {
            let local = find_local_start(s, pos + 1, ne);
            let top_level = st.open.len() == 0;
            let parent = if top_level {
                None
            } else {
                Some(st.open[st.open.len() - 1])
            };
            let mut st = st;
            let mut attrs = attrs;
            st.elements.push(
                Element { name_start: pos + 1, local_start: local, name_end: ne, parent },
            );
            st.attributes.append(&mut attrs);
            if !closed {
                st.open.push(index);
            }
            if top_level {
                st.roots = st.roots + 1;
            }
            Some((st, next))
        },
    }
}

/// Reads what stands at `pos`.
fn read_step(s: &Vec<char>, pos: usize, st: Scanner) -> (r: Option<(Scanner, usize)>)
    requires
        pos < s.len(),
        scan_fits(s@, st@),
    ensures
        step_result(s@, pos as int, step(s@, pos as int, st@), r),
{
    if s[pos] != '<' {
        return read_text(s, pos, st);
    }
    let instruction: Vec<char> = vec!['<', '?'];
    let comment: Vec<char> = vec!['<', '!', '-', '-'];
    let cdata: Vec<char> = vec!['<', '!', '[', 'C', 'D', 'A', 'T', 'A', '['];
    let declaration: Vec<char> = vec!['<', '!'];
    let end_tag: Vec<char> = vec!['<', '/'];
    assert(instruction@ =~= pat_instruction_open());
    assert(comment@ =~= pat_comment_open());
    assert(cdata@ =~= pat_cdata_open());
    assert(declaration@ =~= pat_declaration_open());
    assert(end_tag@ =~= pat_end_tag_open());
    if has_at(s, pos, &instruction) {
        let close: Vec<char> = vec!['?', '>'];
        assert(close@ =~= pat_instruction_close());
        read_skipped(s, pos, st, 2, &close)
    } else if has_at(s, pos, &comment) {
        let close: Vec<char> = vec!['-', '-', '>'];
        assert(close@ =~= pat_comment_close());
        read_skipped(s, pos, st, 4, &close)
    } else if has_at(s, pos, &cdata) {
        read_cdata(s, pos, st)
    } else if has_at(s, pos, &declaration) {
        None
    } else if has_at(s, pos, &end_tag) {
        read_end_tag(s, pos, st)
    } else {
        read_start_tag(s, pos, st)
    }
}

/// Reads a whole document into its tables: the elements, the attributes
/// and the runs of character data.
pub(crate) fn read_tables(s: &Vec<char>) -> (r: Option<(Vec<Element>, Vec<Attribute>, Vec<Chunk>)>)
    ensures
        match r {
            Some((elements, attributes, chunks)) => {
                let tables = Tables {
                    elements: elements@,
                    attributes: attributes@,
                    chunks: chunks@,
                };
                read_document(s@) == Some(tables) && tables_fit(s@, tables)
            },
            None => read_document(s@) is None,
        },
{
    let mut st = Scanner {
        elements: Vec::new(),
        attributes: Vec::new(),
        chunks: Vec::new(),
        open: Vec::new(),
        roots: 0,
    };
    assert(st@ == initial_scan());
    let mut pos: usize = 0;
    while pos < s.len()
        invariant
            pos <= s.len(),
            scan_fits(s@, st@),
            read_from(s@, pos as int, st@) == read_from(s@, 0, initial_scan()),
        decreases s.len() - pos,
    {
        match read_step(s, pos, st) {
            None => {
                return None;
            },
            Some((next_state, next)) => {
                st = next_state;
                pos = next;
            },
        }
    }
    if st.open.len() == 0 && st.roots == 1 {
        Some((st.elements, st.attributes, st.chunks))
    } else {
        None
    }
}

} // verus!
