//! The ProbeMatches message of WS-Discovery: the answer of a device to a
//! probe, and the addresses that it announces.
//!
//! Elements are found by their local names, so the namespace prefixes that
//! a device chooses make no difference.

use crate::document::{document_of, DecodeError, Document, Node};
use crate::query::{
    child_text, children, children_of, first_text_of, lemma_child_text_ignores_prefixes,
    lemma_selected, lemma_selected_ignores_prefixes, same_but_prefixes, select,
    select_all, str_names,
};
use crate::text::{decimal_value, parse_decimal, split_whitespace, split_words, string_of};
use vstd::prelude::*;

verus! {

/// One device's answer.
#[derive(Debug)]
pub struct ProbeMatch {
    /// The service addresses of the device, separated by white space.
    pub xaddrs: String,
    /// The address of the endpoint reference.
    pub endpoint_reference: String,
    /// The type names that the device declares.
    pub probe_types: Vec<String>,
    /// The scopes that the device declares.
    pub scopes: Vec<String>,
    /// The version of the device's metadata, as written.
    pub metadata_version: String,
}

/// The answers that one message holds, in document order.
#[derive(Debug)]
pub struct ProbeMatches {
    pub probe_match: Vec<ProbeMatch>,
}

/// The header of an answer.
#[derive(Debug)]
pub struct Header {
    /// The correlation token of the probe that is answered; empty where
    /// the device names none.
    pub relates_to: String,
}

/// The body of an answer.
#[derive(Debug)]
pub struct Body {
    pub probe_matches: ProbeMatches,
}

/// An answer to a probe.
#[derive(Debug)]
pub struct Envelope {
    pub header: Header,
    pub body: Body,
}

/// What one device's answer holds.
pub struct MatchView {
    pub xaddrs: Seq<char>,
    pub endpoint_reference: Seq<char>,
    pub probe_types: Seq<Seq<char>>,
    pub scopes: Seq<Seq<char>>,
    pub metadata_version: Seq<char>,
}

/// What an answer holds.
pub struct ResponseView {
    pub relates_to: Seq<char>,
    pub matches: Seq<MatchView>,
}

impl View for ProbeMatch {
    type V = MatchView;

    open spec fn view(&self) -> MatchView {
        MatchView {
            xaddrs: self.xaddrs@,
            endpoint_reference: self.endpoint_reference@,
            probe_types: self.probe_types.deep_view(),
            scopes: self.scopes.deep_view(),
            metadata_version: self.metadata_version@,
        }
    }
}

impl View for ProbeMatches {
    type V = Seq<MatchView>;

    open spec fn view(&self) -> Seq<MatchView> {
        Seq::new(self.probe_match@.len(), |k: int| self.probe_match@[k]@)
    }
}

impl View for Envelope {
    type V = ResponseView;

    open spec fn view(&self) -> ResponseView {
        ResponseView { relates_to: self.header.relates_to@, matches: self.body.probe_matches@ }
    }
}

/// The path of the element that holds the answers.
pub open spec fn matches_path() -> Seq<Seq<char>> {
    seq!["Envelope"@, "Body"@, "ProbeMatches"@]
}

/// The path of the correlation token.
pub open spec fn relates_to_path() -> Seq<Seq<char>> {
    seq!["Envelope"@, "Header"@, "RelatesTo"@]
}

/// The address of the first of the endpoint references `refs`.
pub open spec fn endpoint_of(nodes: Seq<Node>, refs: Seq<usize>) -> Seq<char> {
    if refs.len() == 0 {
        Seq::empty()
    } else {
        first_text_of(nodes, children_of(nodes, refs[0] as int, "Address"@))
    }
}

/// What the `ProbeMatch` element `i` holds. A field is empty where its
/// element is absent.
pub open spec fn match_of(nodes: Seq<Node>, i: int) -> MatchView {
    MatchView {
        xaddrs: first_text_of(nodes, children_of(nodes, i, "XAddrs"@)),
        endpoint_reference: endpoint_of(nodes, children_of(nodes, i, "EndpointReference"@)),
        probe_types: split_words(first_text_of(nodes, children_of(nodes, i, "Types"@))),
        scopes: split_words(first_text_of(nodes, children_of(nodes, i, "Scopes"@))),
        metadata_version: first_text_of(nodes, children_of(nodes, i, "MetadataVersion"@)),
    }
}

/// What the `ProbeMatch` elements `found` hold, in that order.
pub open spec fn matches_of(nodes: Seq<Node>, found: Seq<usize>) -> Seq<MatchView> {
    Seq::new(found.len(), |k: int| match_of(nodes, found[k] as int))
}

/// The answer that a document holds. Its shape is unexpected where no
/// element lies on the path `Envelope`, `Body`, `ProbeMatches`.
pub open spec fn response_of(nodes: Seq<Node>) -> Result<ResponseView, DecodeError> {
    let holders = select_all(nodes, matches_path());
    if holders.len() == 0 {
        Err(DecodeError::UnexpectedShape)
    } else {
        Ok(
            ResponseView {
                relates_to: first_text_of(nodes, select_all(nodes, relates_to_path())),
                matches: matches_of(nodes, children_of(nodes, holders[0] as int, "ProbeMatch"@)),
            },
        )
    }
}

/// The answer that a text holds, or why it holds none.
pub open spec fn decoded(text: Seq<char>) -> Result<ResponseView, DecodeError> {
    match document_of(text) {
        None => Err(DecodeError::MalformedXml),
        Some(nodes) => response_of(nodes),
    }
}

/// The addresses of the answers from `k` on: the words of each answer's
/// `XAddrs`, answer after answer.
pub open spec fn uris_from(matches: Seq<MatchView>, k: int) -> Seq<Seq<char>>
    decreases matches.len() - k,
{
    if k < 0 || k >= matches.len() {
        Seq::empty()
    } else {
        split_words(matches[k].xaddrs) + uris_from(matches, k + 1)
    }
}

/// The addresses that a datagram announces: those of its answers, and none
/// where it cannot be decoded.
pub open spec fn announced(text: Seq<char>) -> Seq<Seq<char>> {
    match decoded(text) {
        Ok(response) => uris_from(response.matches, 0),
        Err(_) => Seq::empty(),
    }
}

/// The number of addresses that the answers from `k` on announce.
pub open spec fn address_count(matches: Seq<MatchView>, k: int) -> nat
    decreases matches.len() - k,
{
    if k < 0 || k >= matches.len() {
        0
    } else {
        split_words(matches[k].xaddrs).len() + address_count(matches, k + 1)
    }
}

/// As many addresses are announced as the `XAddrs` of the answers hold
/// words, all answers together.
pub proof fn lemma_uris_count(matches: Seq<MatchView>, k: int)
    ensures
        uris_from(matches, k).len() == address_count(matches, k),
    decreases matches.len() - k,
{
    if 0 <= k < matches.len() {
        lemma_uris_count(matches, k + 1);
    }
}

/// The addresses keep their order: the word `j` of the answer `k` stands
/// behind all the words of the answers before `k`, at the place `j` among
/// its own.
pub proof fn lemma_uris_order(matches: Seq<MatchView>, start: int, k: int, j: int)
    requires
        0 <= start <= k < matches.len(),
        0 <= j < split_words(matches[k].xaddrs).len(),
    ensures
        0 <= address_count(matches, start) - address_count(matches, k) + j < uris_from(
            matches,
            start,
        ).len(),
        uris_from(matches, start)[address_count(matches, start) - address_count(matches, k) + j]
            == split_words(matches[k].xaddrs)[j],
    decreases k - start,
{
    let head = split_words(matches[start].xaddrs);
    let tail = uris_from(matches, start + 1);
    lemma_uris_count(matches, start);
    lemma_uris_count(matches, start + 1);
    if start < k {
        lemma_uris_order(matches, start + 1, k, j);
        let inner = address_count(matches, start + 1) - address_count(matches, k) + j;
        assert((head + tail)[head.len() + inner] == tail[inner]);
    } else {
        assert((head + tail)[j] == head[j]);
    }
}

/// What `ProbeMatch` element holds does not depend on prefixes.
pub proof fn lemma_match_ignores_prefixes(a: Seq<Node>, b: Seq<Node>, i: int)
    requires
        same_but_prefixes(a, b),
        a.len() <= usize::MAX,
    ensures
        match_of(a, i) == match_of(b, i),
{
    lemma_child_text_ignores_prefixes(a, b, i, "XAddrs"@);
    lemma_child_text_ignores_prefixes(a, b, i, "EndpointReference"@);
    lemma_child_text_ignores_prefixes(a, b, i, "Types"@);
    lemma_child_text_ignores_prefixes(a, b, i, "Scopes"@);
    lemma_child_text_ignores_prefixes(a, b, i, "MetadataVersion"@);
    let refs = children_of(a, i, "EndpointReference"@);
    if refs.len() > 0 {
        lemma_child_text_ignores_prefixes(a, b, refs[0] as int, "Address"@);
    }
}

/// Decoding does not depend on the namespace prefixes that the producer
/// chose: two documents that differ in nothing else hold the same answer.
pub proof fn lemma_response_ignores_prefixes(a: Seq<Node>, b: Seq<Node>)
    requires
        same_but_prefixes(a, b),
        a.len() <= usize::MAX,
    ensures
        response_of(a) == response_of(b),
{
    let n = a.len() as int;
    lemma_selected_ignores_prefixes(a, b, matches_path(), n);
    lemma_selected_ignores_prefixes(a, b, relates_to_path(), n);
    lemma_selected(a, relates_to_path(), n);
    let holders = select_all(a, matches_path());
    if holders.len() > 0 {
        let found = children_of(a, holders[0] as int, "ProbeMatch"@);
        lemma_child_text_ignores_prefixes(a, b, holders[0] as int, "ProbeMatch"@);
        assert forall|k: int| 0 <= k < found.len() implies match_of(a, found[k] as int)
            == match_of(b, found[k] as int) by {
            lemma_match_ignores_prefixes(a, b, found[k] as int);
        }
        assert(matches_of(a, found) =~= matches_of(b, found));
    }
}

/// Reads the `ProbeMatch` element `i`.
pub fn read_match(doc: &Document, i: usize) -> (r: ProbeMatch)
    ensures
        r@ == match_of(doc@, i as int),
{
    let refs = children(doc, i, "EndpointReference");
    let endpoint_reference = if refs.len() == 0 {
        let empty: Vec<char> = Vec::new();
        string_of(&empty)
    } else {
        child_text(doc, refs[0], "Address")
    };
    let types = child_text(doc, i, "Types");
    let scopes = child_text(doc, i, "Scopes");
    ProbeMatch {
        xaddrs: child_text(doc, i, "XAddrs"),
        endpoint_reference,
        probe_types: split_whitespace(types.as_str()),
        scopes: split_whitespace(scopes.as_str()),
        metadata_version: child_text(doc, i, "MetadataVersion"),
    }
}

/// Reads the answer that a document holds.
pub fn read_response(doc: &Document) -> (r: Result<Envelope, DecodeError>)
    ensures
        match r {
            Ok(e) => response_of(doc@) == Ok::<ResponseView, DecodeError>(e@),
            Err(e) => response_of(doc@) == Err::<ResponseView, DecodeError>(e),
        },
{
    let path: Vec<&str> = vec!["Envelope", "Body", "ProbeMatches"];
    assert(str_names(path@) =~= matches_path());
    let holders = select(doc, path.as_slice());
    if holders.len() == 0 {
        return Err(DecodeError::UnexpectedShape);
    }
    let token_path: Vec<&str> = vec!["Envelope", "Header", "RelatesTo"];
    assert(str_names(token_path@) =~= relates_to_path());
    let tokens = select(doc, token_path.as_slice());
    let relates_to = if tokens.len() == 0 {
        let empty: Vec<char> = Vec::new();
        string_of(&empty)
    } else {
        doc.text_of(tokens[0])
    };
    let found = children(doc, holders[0], "ProbeMatch");
    let mut probe_match: Vec<ProbeMatch> = Vec::new();
    let mut k: usize = 0;
    while k < found.len()
        invariant
            k <= found.len(),
            probe_match.len() == k,
            forall|j: int| 0 <= j < k ==> (#[trigger] probe_match@[j])@ == match_of(doc@, found@[j] as int),
        decreases found.len() - k,
    {
        probe_match.push(read_match(doc, found[k]));
        k += 1;
    }
    let matches = ProbeMatches { probe_match };
    assert(matches@ =~= matches_of(doc@, found@));
    Ok(Envelope { header: Header { relates_to }, body: Body { probe_matches: matches } })
}

/// Decodes an answer. The text must be well formed and hold the element
/// `ProbeMatches` in the body of an envelope.
pub fn decode(text: &str) -> (r: Result<Envelope, DecodeError>)
    ensures
        match r {
            Ok(e) => decoded(text@) == Ok::<ResponseView, DecodeError>(e@),
            Err(e) => decoded(text@) == Err::<ResponseView, DecodeError>(e),
        },
{
    match Document::parse(text) {
        Err(e) => Err(e),
        Ok(doc) => read_response(&doc),
    }
}

impl ProbeMatch {
    /// The version of the device's metadata as a number. There is none
    /// where the device wrote no number, or one beyond 64 bits.
    pub fn metadata_version_number(&self) -> (r: Option<u64>)
        ensures
            match r {
                Some(n) => decimal_value(self@.metadata_version) == Some(n as nat),
                None => decimal_value(self@.metadata_version) is None || decimal_value(
                    self@.metadata_version,
                )->0 > u64::MAX,
            },
    {
        parse_decimal(self.metadata_version.as_str())
    }
}

impl ProbeMatches {
    /// The addresses that the answers announce, in document order.
    pub fn device_uris(&self) -> (r: Vec<String>)
        ensures
            r.deep_view() == uris_from(self@, 0),
    {
        let mut out: Vec<String> = Vec::new();
        let mut k: usize = 0;
        assert(out.deep_view() + uris_from(self@, 0) =~= uris_from(self@, 0));
        while k < self.probe_match.len()
            invariant
                k <= self.probe_match.len(),
                out.deep_view() + uris_from(self@, k as int) == uris_from(self@, 0),
            decreases self.probe_match.len() - k,
        {
            let ghost before = out.deep_view();
            let mut words = split_whitespace(self.probe_match[k].xaddrs.as_str());
            let ghost added = words.deep_view();
            assert(added == split_words(self@[k as int].xaddrs));
            out.append(&mut words);
            assert(out.deep_view() =~= before + added);
            assert(before + (added + uris_from(self@, k + 1)) =~= (before + added) + uris_from(
                self@,
                k + 1,
            ));
            k += 1;
        }
        assert(out.deep_view() + Seq::<Seq<char>>::empty() =~= out.deep_view());
        out
    }
}

/// The addresses that a discovery response announces, in document order. A
/// response that cannot be decoded announces none.
pub fn get_device_uris_from_discovery_response(discovery_response: &str) -> (r: Vec<String>)
    ensures
        r.deep_view() == announced(discovery_response@),
{
    match decode(discovery_response) {
        Ok(envelope) => envelope.body.probe_matches.device_uris(),
        Err(_) => {
            let none: Vec<String> = Vec::new();
            assert(none.deep_view() =~= Seq::<Seq<char>>::empty());
            none
        },
    }
}

} // verus!
