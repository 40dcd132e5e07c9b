//! The Probe message of WS-Discovery: the request that asks the devices of
//! a category to announce themselves.
//!
//! A probe is written from a fixed template. The header fields and the type
//! names are the only places where a value is put in, each as character
//! data.

use crate::entity::{escape, escape_chars, lemma_escape_injective};
use crate::text::{append_chars, append_str, chars_of, string_of};
use vstd::prelude::*;

verus! {

/// The `To` header of every probe: the well-known discovery address.
pub const DISCOVERY_ADDRESS: &'static str = "urn:schemas-xmlsoap-org:ws:2005:04:discovery";

/// The `Action` header of every probe.
pub const PROBE_ACTION: &'static str = "http://schemas.xmlsoap.org/ws/2005/04/discovery/Probe";

/// The type name that asks for devices of any kind.
pub const DEVICE: &'static str = "devwsdl:Device";

/// The type name that asks for network video transmitters.
pub const NETWORK_VIDEO_TRANSMITTER: &'static str = "netwsdl:NetworkVideoTransmitter";

/// The template up to the message id.
pub const ENVELOPE_HEAD: &'static str =
    "<?xml version=\"1.0\" encoding=\"utf-8\"?><s:Envelope xmlns:s=\"http://www.w3.org/2003/05/soap-envelope\"><s:Header xmlns:w=\"http://schemas.xmlsoap.org/ws/2004/08/addressing\"><w:MessageID>";

/// The template between the message id and the destination.
pub const MESSAGE_ID_TO: &'static str = "</w:MessageID><w:To>";

/// The template between the destination and the action.
pub const TO_ACTION: &'static str = "</w:To><w:Action>";

/// The template between the action and the types.
pub const ACTION_PROBE: &'static str =
    "</w:Action></s:Header><s:Body xmlns:d=\"http://schemas.xmlsoap.org/ws/2005/04/discovery\"><d:Probe>";

/// The start tag of a type name.
pub const TYPES_OPEN: &'static str = "<d:Types>";

/// The end tag of a type name.
pub const TYPES_CLOSE: &'static str = "</d:Types>";

/// The template behind the types.
pub const ENVELOPE_TAIL: &'static str = "</d:Probe></s:Body></s:Envelope>";

/// The category of devices that a probe asks for.
#[derive(Clone, Copy, Debug, PartialEq, Eq, Structural)]
pub enum ProbeType {
    /// Any device.
    Device,
    /// A device that sends video over the network.
    NetworkVideoTransmitter,
}

impl Default for ProbeType {
    fn default() -> (r: ProbeType)
        ensures
            r == ProbeType::Device,
    {
        ProbeType::Device
    }
}

impl ProbeType {
    /// The name of the category as a probe writes it.
    pub open spec fn name(self) -> Seq<char> {
        match self {
            ProbeType::Device => DEVICE@,
            ProbeType::NetworkVideoTransmitter => NETWORK_VIDEO_TRANSMITTER@,
        }
    }

    /// The name of the category as a probe writes it.
    pub fn written_name(self) -> (r: &'static str)
        ensures
            r@ == self.name(),
    {
        match self {
            ProbeType::Device => DEVICE,
            ProbeType::NetworkVideoTransmitter => NETWORK_VIDEO_TRANSMITTER,
        }
    }
}

/// The body of a probe: the type names asked for.
#[derive(Debug)]
pub struct Probe {
    pub probe_types: Vec<String>,
}

/// The header of a probe.
#[derive(Debug)]
pub struct Header {
    /// The correlation token of this probe.
    pub message_id: String,
    /// The destination, the `To` header.
    pub reply_to: String,
    /// The action that the message asks for.
    pub action: String,
}

/// The body of a probe envelope.
#[derive(Debug)]
pub struct Body {
    pub probe: Probe,
}

/// A probe envelope.
#[derive(Debug)]
pub struct Envelope {
    pub header: Header,
    pub body: Body,
}

/// How the type names from `k` on are written: one element for each.
pub open spec fn types_markup(types: Seq<Seq<char>>, k: int) -> Seq<char>
    decreases types.len() - k,
{
    if k < 0 || k >= types.len() {
        Seq::empty()
    } else {
        TYPES_OPEN@ + escape(types[k]) + TYPES_CLOSE@ + types_markup(types, k + 1)
    }
}

/// The text of a probe envelope with the given header fields and types.
pub open spec fn probe_text(
    message_id: Seq<char>,
    to: Seq<char>,
    action: Seq<char>,
    types: Seq<Seq<char>>,
) -> Seq<char> {
    ENVELOPE_HEAD@ + escape(message_id) + MESSAGE_ID_TO@ + escape(to) + TO_ACTION@ + escape(action)
        + ACTION_PROBE@ + types_markup(types, 0) + ENVELOPE_TAIL@
}

/// The text of the probe that asks for devices of the category `kind`
/// under the correlation token `message_id`.
pub open spec fn discovery_text(message_id: Seq<char>, kind: ProbeType) -> Seq<char> {
    probe_text(message_id, DISCOVERY_ADDRESS@, PROBE_ACTION@, seq![kind.name()])
}

/// What stands between two fixed texts is told by the whole: where the
/// wholes are the same, so are the middles.
pub proof fn lemma_middle_is_told(
    head: Seq<char>,
    one: Seq<char>,
    other: Seq<char>,
    tail: Seq<char>,
)
    requires
        head + one + tail == head + other + tail,
    ensures
        one == other,
{
    let a = head + one + tail;
    let b = head + other + tail;
    assert(a.len() == head.len() + one.len() + tail.len());
    assert(b.len() == head.len() + other.len() + tail.len());
    assert forall|i: int| 0 <= i < one.len() implies one[i] == other[i] by {
        assert(a[head.len() + i] == one[i]);
        assert(b[head.len() + i] == other[i]);
    }
    assert(one =~= other);
}

/// A probe tells its correlation token: two probes for the same category
/// with the same text go out under the same token.
pub proof fn lemma_probe_tells_its_token(a: Seq<char>, b: Seq<char>, kind: ProbeType)
    requires
        discovery_text(a, kind) == discovery_text(b, kind),
    ensures
        a == b,
{
    let tail = MESSAGE_ID_TO@ + escape(DISCOVERY_ADDRESS@) + TO_ACTION@ + escape(PROBE_ACTION@)
        + ACTION_PROBE@ + types_markup(seq![kind.name()], 0) + ENVELOPE_TAIL@;
    assert(discovery_text(a, kind) =~= ENVELOPE_HEAD@ + escape(a) + tail);
    assert(discovery_text(b, kind) =~= ENVELOPE_HEAD@ + escape(b) + tail);
    lemma_middle_is_told(ENVELOPE_HEAD@, escape(a), escape(b), tail);
    lemma_escape_injective(a, b);
}

impl Envelope {
    /// The text of this envelope.
    pub open spec fn text(&self) -> Seq<char> {
        probe_text(
            self.header.message_id@,
            self.header.reply_to@,
            self.header.action@,
            self.body.probe.probe_types.deep_view(),
        )
    }

    /// The probe for devices of the category `kind` under the correlation
    /// token `message_id`.
    pub fn probe(message_id: &str, kind: ProbeType) -> (r: Envelope)
        ensures
            r.text() == discovery_text(message_id@, kind),
    {
        let mut probe_types: Vec<String> = Vec::new();
        probe_types.push(string_of(&chars_of(kind.written_name())));
        assert(probe_types.deep_view() =~= seq![kind.name()]);
        Envelope {
            header: Header {
                message_id: string_of(&chars_of(message_id)),
                reply_to: string_of(&chars_of(DISCOVERY_ADDRESS)),
                action: string_of(&chars_of(PROBE_ACTION)),
            },
            body: Body { probe: Probe { probe_types } },
        }
    }

    /// Writes the envelope. The text depends on the fields alone.
    pub fn encode(&self) -> (r: String)
        ensures
            r@ == self.text(),
    {
        let mut out: Vec<char> = Vec::new();
        append_str(&mut out, ENVELOPE_HEAD);
        append_escaped(&mut out, self.header.message_id.as_str());
        append_str(&mut out, MESSAGE_ID_TO);
        append_escaped(&mut out, self.header.reply_to.as_str());
        append_str(&mut out, TO_ACTION);
        append_escaped(&mut out, self.header.action.as_str());
        append_str(&mut out, ACTION_PROBE);
        let ghost types = self.body.probe.probe_types.deep_view();
        let ghost front = out@;
        let mut k: usize = 0;
        assert(out@ + types_markup(types, 0) =~= front + types_markup(types, 0));
        while k < self.body.probe.probe_types.len()
            invariant
                k <= self.body.probe.probe_types.len(),
                types == self.body.probe.probe_types.deep_view(),
                out@ + types_markup(types, k as int) == front + types_markup(types, 0),
            decreases self.body.probe.probe_types.len() - k,
        {
            let ghost before = out@;
            assert(types[k as int] == self.body.probe.probe_types@[k as int]@);
            append_str(&mut out, TYPES_OPEN);
            append_escaped(&mut out, self.body.probe.probe_types[k].as_str());
            append_str(&mut out, TYPES_CLOSE);
            assert(before + (TYPES_OPEN@ + escape(types[k as int]) + TYPES_CLOSE@ + types_markup(
                types,
                k + 1,
            )) =~= out@ + types_markup(types, k + 1));
            k += 1;
        }
        assert(out@ + Seq::<char>::empty() =~= out@);
        append_str(&mut out, ENVELOPE_TAIL);
        string_of(&out)
    }
}

/// Appends `value` as character data.
pub fn append_escaped(out: &mut Vec<char>, value: &str)
    ensures
        final(out)@ == old(out)@ + escape(value@),
{
    let escaped = escape_chars(&chars_of(value));
    append_chars(out, &escaped);
}

/// The probe for network video transmitters under the correlation token
/// `uuid_string`, as it is sent.
pub fn create_onvif_discovery_message(uuid_string: &str) -> (r: String)
    ensures
        r@ == discovery_text(uuid_string@, ProbeType::NetworkVideoTransmitter),
{
    Envelope::probe(uuid_string, ProbeType::NetworkVideoTransmitter).encode()
}

} // verus!
