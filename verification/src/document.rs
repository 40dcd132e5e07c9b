//! A document that was read: its elements in document order, each with the
//! parts of its name, the element that holds it, its attributes and its
//! text.

use crate::entity::{unescape, unescape_chars};
use crate::markup::{read_document, tables_fit, Attribute, Chunk, Element, Tables};
use crate::reader::read_tables;
use crate::text::{append_chars, chars_of, copy_range, string_of};
use vstd::prelude::*;

verus! {

/// Why a message could not be decoded.
#[derive(Clone, Copy, Debug, PartialEq, Eq, Structural)]
pub enum DecodeError {
    /// The bytes are not a well-formed document.
    MalformedXml,
    /// An element that the expected message must have is absent.
    UnexpectedShape,
    /// A text field was asked for that the message does not hold.
    FieldNotFound,
}

/// An element as the queries see it.
pub struct Node {
    /// The namespace prefix of the name; empty where the name has none.
    pub prefix: Seq<char>,
    /// The name without its prefix.
    pub local: Seq<char>,
    /// The index of the element that holds this one; none for the root.
    pub parent: Option<int>,
    /// The character data directly inside the element, entities replaced.
    pub text: Seq<char>,
    /// The attributes in the order written: local name and value.
    pub attributes: Seq<(Seq<char>, Seq<char>)>,
}

/// The text that a run of character data stands for.
pub open spec fn chunk_text(s: Seq<char>, c: Chunk) -> Seq<char> {
    let raw = s.subrange(c.start as int, c.end as int);
    if c.raw {
        raw
    } else {
        match unescape(raw) {
            Some(t) => t,
            None => Seq::empty(),
        }
    }
}

/// The text of the element `owner` in the runs from `k` on.
pub open spec fn text_from(s: Seq<char>, chunks: Seq<Chunk>, owner: int, k: int) -> Seq<char>
    decreases chunks.len() - k,
{
    if k < 0 || k >= chunks.len() {
        Seq::empty()
    } else if chunks[k].owner == owner {
        chunk_text(s, chunks[k]) + text_from(s, chunks, owner, k + 1)
    } else {
        text_from(s, chunks, owner, k + 1)
    }
}

/// An attribute as the queries see it: its local name and its value.
pub open spec fn attribute_pair(s: Seq<char>, a: Attribute) -> (Seq<char>, Seq<char>) {
    (
        s.subrange(a.local_start as int, a.name_end as int),
        match unescape(s.subrange(a.value_start as int, a.value_end as int)) {
            Some(t) => t,
            None => Seq::empty(),
        },
    )
}

/// The attributes of the element `owner` among those from `k` on.
pub open spec fn attributes_from(s: Seq<char>, attrs: Seq<Attribute>, owner: int, k: int) -> Seq<
    (Seq<char>, Seq<char>),
>
    decreases attrs.len() - k,
{
    if k < 0 || k >= attrs.len() {
        Seq::empty()
    } else if attrs[k].owner == owner {
        seq![attribute_pair(s, attrs[k])] + attributes_from(s, attrs, owner, k + 1)
    } else {
        attributes_from(s, attrs, owner, k + 1)
    }
}

/// The element `i` of the tables as the queries see it.
pub open spec fn node_of(s: Seq<char>, t: Tables, i: int) -> Node {
    let e = t.elements[i];
    Node {
        prefix: if e.local_start > e.name_start {
            s.subrange(e.name_start as int, e.local_start - 1)
        } else {
            Seq::empty()
        },
        local: s.subrange(e.local_start as int, e.name_end as int),
        parent: match e.parent {
            Some(p) => Some(p as int),
            None => None,
        },
        text: text_from(s, t.chunks, i, 0),
        attributes: attributes_from(s, t.attributes, i, 0),
    }
}

/// The elements of the tables as the queries see them.
pub open spec fn nodes_of(s: Seq<char>, t: Tables) -> Seq<Node> {
    Seq::new(t.elements.len(), |i: int| node_of(s, t, i))
}

/// The elements of the document that the text `s` holds, or nothing where
/// `s` is malformed.
pub open spec fn document_of(s: Seq<char>) -> Option<Seq<Node>> {
    match read_document(s) {
        Some(t) => Some(nodes_of(s, t)),
        None => None,
    }
}

/// The value of the first attribute with the local name `name`.
pub open spec fn attribute_value(attrs: Seq<(Seq<char>, Seq<char>)>, name: Seq<char>, k: int)
    -> Option<Seq<char>>
    decreases attrs.len() - k,
{
    if k < 0 || k >= attrs.len() {
        None
    } else if attrs[k].0 == name {
        Some(attrs[k].1)
    } else {
        attribute_value(attrs, name, k + 1)
    }
}

/// A document that was read.
pub struct Document {
    source: Vec<char>,
    elements: Vec<Element>,
    attributes: Vec<Attribute>,
    chunks: Vec<Chunk>,
}

impl View for Document {
    type V = Seq<Node>;

    closed spec fn view(&self) -> Seq<Node> {
        nodes_of(self.source@, self.tables())
    }
}

impl Document {
    /// The tables that the document holds.
    pub closed spec fn tables(&self) -> Tables {
        Tables {
            elements: self.elements@,
            attributes: self.attributes@,
            chunks: self.chunks@,
        }
    }

    #[verifier::type_invariant]
    spec fn fits(&self) -> bool {
        tables_fit(self.source@, self.tables())
    }

    /// Reads a document. It is read where the text is well formed, and only
    /// there.
    pub fn parse(text: &str) -> (r: Result<Document, DecodeError>)
        ensures
            match r {
                Ok(d) => document_of(text@) == Some(d@),
                Err(e) => e == DecodeError::MalformedXml && document_of(text@) is None,
            },
    {
        let source = chars_of(text);
        match read_tables(&source) {
            None => Err(DecodeError::MalformedXml),
            Some((elements, attributes, chunks)) => Ok(
                Document { source, elements, attributes, chunks },
            ),
        }
    }

    /// The number of elements.
    pub fn len(&self) -> (n: usize)
        ensures
            n == self@.len(),
    {
        self.elements.len()
    }

    /// The index of the element that holds the element `i`. There is none
    /// for the root, nor where the document has no element `i`.
    pub fn parent(&self, i: usize) -> (r: Option<usize>)
        ensures
            match r {
                Some(p) => i < self@.len() && self@[i as int].parent == Some(p as int) && p < i,
                None => i >= self@.len() || self@[i as int].parent is None,
            },
    {
        if i < self.len() {
            self.parent_of(i)
        } else {
            None
        }
    }

    /// The name of the element `i` without its prefix, where the document
    /// has an element `i`.
    pub fn local_name(&self, i: usize) -> (r: Option<String>)
        ensures
            match r {
                Some(name) => i < self@.len() && name@ == self@[i as int].local,
                None => i >= self@.len(),
            },
    {
        if i < self.len() {
            Some(self.local_name_of(i))
        } else {
            None
        }
    }

    /// The namespace prefix of the element `i`, where the document has an
    /// element `i`.
    pub fn prefix(&self, i: usize) -> (r: Option<String>)
        ensures
            match r {
                Some(prefix) => i < self@.len() && prefix@ == self@[i as int].prefix,
                None => i >= self@.len(),
            },
    {
        if i < self.len() {
            Some(self.prefix_of(i))
        } else {
            None
        }
    }

    /// The text directly inside the element `i`, where the document has an
    /// element `i`.
    pub fn text(&self, i: usize) -> (r: Option<String>)
        ensures
            match r {
                Some(text) => i < self@.len() && text@ == self@[i as int].text,
                None => i >= self@.len(),
            },
    {
        if i < self.len() {
            Some(self.text_of(i))
        } else {
            None
        }
    }

    /// The value of the first attribute of the element `i` whose local name
    /// is `name`. There is none where the element has no such attribute,
    /// nor where the document has no element `i`.
    pub fn attribute(&self, i: usize, name: &str) -> (r: Option<String>)
        ensures
            match r {
                Some(v) => i < self@.len() && attribute_value(
                    self@[i as int].attributes,
                    name@,
                    0,
                ) == Some(v@),
                None => i >= self@.len() || attribute_value(self@[i as int].attributes, name@, 0)
                    is None,
            },
    {
        if i < self.len() {
            self.attribute_of(i, name)
        } else {
            None
        }
    }

    /// The index of the element that holds the element `i`.
    pub(crate) fn parent_of(&self, i: usize) -> (r: Option<usize>)
        requires
            i < self@.len(),
        ensures
            match r {
                Some(p) => self@[i as int].parent == Some(p as int) && p < i,
                None => self@[i as int].parent is None,
            },
    {
        proof {
            use_type_invariant(self);
        }
        self.elements[i].parent
    }

    /// The name of the element `i` without its prefix.
    pub(crate) fn local_name_of(&self, i: usize) -> (r: String)
        requires
            i < self@.len(),
        ensures
            r@ == self@[i as int].local,
    {
        proof {
            use_type_invariant(self);
        }
        let e = self.elements[i];
        let part = copy_range(&self.source, e.local_start, e.name_end);
        string_of(&part)
    }

    /// The namespace prefix of the element `i`.
    pub(crate) fn prefix_of(&self, i: usize) -> (r: String)
        requires
            i < self@.len(),
        ensures
            r@ == self@[i as int].prefix,
    {
        proof {
            use_type_invariant(self);
        }
        let e = self.elements[i];
        if e.local_start > e.name_start {
            let part = copy_range(&self.source, e.name_start, e.local_start - 1);
            string_of(&part)
        } else {
            let part: Vec<char> = Vec::new();
            string_of(&part)
        }
    }

    /// Whether the local name of the element `i` is `name`.
    pub(crate) fn is_named(&self, i: usize, name: &Vec<char>) -> (r: bool)
        requires
            i < self@.len(),
        ensures
            r == (self@[i as int].local == name@),
    {
        proof {
            use_type_invariant(self);
        }
        let e = self.elements[i];
        crate::scan::range_is(&self.source, e.local_start, e.name_end, name)
    }

    /// The text directly inside the element `i`.
    pub(crate) fn text_of(&self, i: usize) -> (r: String)
        requires
            i < self@.len(),
        ensures
            r@ == self@[i as int].text,
    {
        proof {
            use_type_invariant(self);
        }
        let mut out: Vec<char> = Vec::new();
        let mut k: usize = 0;
        assert(out@ + text_from(self.source@, self.chunks@, i as int, 0) =~= text_from(
            self.source@,
            self.chunks@,
            i as int,
            0,
        ));
        while k < self.chunks.len()
            invariant
                k <= self.chunks.len(),
                tables_fit(self.source@, self.tables()),
                out@ + text_from(self.source@, self.chunks@, i as int, k as int) == text_from(
                    self.source@,
                    self.chunks@,
                    i as int,
                    0,
                ),
            decreases self.chunks.len() - k,
        {
            let c = self.chunks[k];
            assert(c == self.tables().chunks[k as int]);
            if c.owner == i {
                let ghost before = out@;
                let raw = copy_range(&self.source, c.start, c.end);
                if c.raw {
                    append_chars(&mut out, &raw);
                } else {
                    match unescape_chars(&raw) {
                        Some(t) => {
                            append_chars(&mut out, &t);
                        },
                        None => {},
                    }
                }
                assert(out@ == before + chunk_text(self.source@, c));
                assert(before + (chunk_text(self.source@, c) + text_from(
                    self.source@,
                    self.chunks@,
                    i as int,
                    k + 1,
                )) =~= out@ + text_from(self.source@, self.chunks@, i as int, k + 1));
            }
            k += 1;
        }
        assert(out@ + Seq::<char>::empty() =~= out@);
        string_of(&out)
    }

    /// The value of the first attribute of the element `i` whose local name
    /// is `name`.
    pub(crate) fn attribute_of(&self, i: usize, name: &str) -> (r: Option<String>)
        requires
            i < self@.len(),
        ensures
            match r {
                Some(v) => attribute_value(self@[i as int].attributes, name@, 0) == Some(v@),
                None => attribute_value(self@[i as int].attributes, name@, 0) is None,
            },
    {
        proof {
            use_type_invariant(self);
        }
        let wanted = chars_of(name);
        let mut k: usize = 0;
        let ghost s = self.source@;
        let ghost attrs = self.attributes@;
        while k < self.attributes.len()
            invariant
                k <= self.attributes.len(),
                i < self@.len(),
                s == self.source@,
                attrs == self.attributes@,
                wanted@ == name@,
                tables_fit(self.source@, self.tables()),
                attribute_value(attributes_from(s, attrs, i as int, k as int), name@, 0)
                    == attribute_value(self@[i as int].attributes, name@, 0),
            decreases self.attributes.len() - k,
        {
            let a = self.attributes[k];
            assert(a == self.tables().attributes[k as int]);
            proof {
                lemma_attribute_value_skip(s, attrs, i as int, k as int, name@);
            }
            if a.owner == i && crate::scan::range_is(
                &self.source,
                a.local_start,
                a.name_end,
                &wanted,
            ) {
                let raw = copy_range(&self.source, a.value_start, a.value_end);
                let value = match unescape_chars(&raw) {
                    Some(t) => t,
                    None => Vec::new(),
                };
                assert(value@ == attribute_pair(s, a).1);
                return Some(string_of(&value));
            }
            k += 1;
        }
        proof {
            lemma_attribute_value_skip(s, attrs, i as int, k as int, name@);
        }
        None
    }
}

/// Looking a name up among the attributes of an element from `k` on goes by
/// the first of them.
pub proof fn lemma_attribute_value_skip(
    s: Seq<char>,
    attrs: Seq<Attribute>,
    owner: int,
    k: int,
    name: Seq<char>,
)
    requires
        0 <= k,
    ensures
        k >= attrs.len() ==> attribute_value(attributes_from(s, attrs, owner, k), name, 0) is None,
        k < attrs.len() && attrs[k].owner != owner ==> attributes_from(s, attrs, owner, k)
            == attributes_from(s, attrs, owner, k + 1),
        k < attrs.len() && attrs[k].owner == owner && attribute_pair(s, attrs[k]).0 == name
            ==> attribute_value(attributes_from(s, attrs, owner, k), name, 0) == Some(
            attribute_pair(s, attrs[k]).1,
        ),
        k < attrs.len() && attrs[k].owner == owner && attribute_pair(s, attrs[k]).0 != name
            ==> attribute_value(attributes_from(s, attrs, owner, k), name, 0) == attribute_value(
            attributes_from(s, attrs, owner, k + 1),
            name,
            0,
        ),
{
    if k < attrs.len() && attrs[k].owner == owner {
        let head = seq![attribute_pair(s, attrs[k])];
        let tail = attributes_from(s, attrs, owner, k + 1);
        let all = head + tail;
        assert(all[0] == attribute_pair(s, attrs[k]));
        if attribute_pair(s, attrs[k]).0 != name {
            lemma_attribute_value_shift(head, tail, name, 0);
        }
    }
}

/// Looking a name up in a concatenation, from a place behind its first part,
/// looks it up in the second part.
pub proof fn lemma_attribute_value_shift(
    a: Seq<(Seq<char>, Seq<char>)>,
    b: Seq<(Seq<char>, Seq<char>)>,
    name: Seq<char>,
    k: int,
)
    requires
        0 <= k,
    ensures
        attribute_value(a + b, name, a.len() + k) == attribute_value(b, name, k),
    decreases b.len() - k,
{
    if k < b.len() {
        assert((a + b)[a.len() + k] == b[k]);
        if b[k].0 != name {
            lemma_attribute_value_shift(a, b, name, k + 1);
        }
    }
}

} // verus!
