//! One discovery round as a state machine: a probe is sent, answers are
//! collected until a deadline, and the devices found are the result.
//!
//! The round holds no socket and reads no clock. The caller performs what an
//! `Action` asks for and reports what happened as the next `Event`, together
//! with the time at which it happened.

use crate::device_set::{lemma_merged_no_duplicates, merged, DeviceSet};
use crate::probe::{create_onvif_discovery_message, discovery_text, ProbeType};
use crate::probe_match::{decode, decoded, uris_from};
use crate::text::{same_text, string_of};
use crate::token::{fresh_message_id, is_message_id};
use vstd::prelude::*;

verus! {

/// Where a round stands.
#[derive(Clone, Copy, Debug, PartialEq, Eq, Structural)]
pub enum Phase {
    /// Nothing was sent yet.
    Idle,
    /// The probe was handed out and is being sent.
    Probing,
    /// The probe was sent; answers are collected.
    Listening,
    /// The deadline has passed: the devices found are the result.
    Completed,
    /// The round was stopped from outside.
    Cancelled,
    /// The transport failed.
    Failed,
}

/// Why a round has no result.
#[derive(Clone, Copy, Debug, PartialEq, Eq, Structural)]
pub enum DiscoveryError {
    /// The socket could not be used: the probe was not sent, or receiving
    /// failed.
    TransportError,
}

/// What happened outside.
#[derive(Debug)]
pub enum Event {
    /// The round is to begin at the time `now` under the correlation token
    /// `token`.
    Start { now: u64, token: String },
    /// The probe left the socket.
    ProbeSent,
    /// The probe could not be sent.
    SendFailed,
    /// A datagram arrived at the time `now`.
    Datagram { now: u64, text: String },
    /// No datagram arrived within the read deadline, which ended at `now`.
    ReadTimeout { now: u64 },
    /// Receiving failed for another reason than the read deadline.
    ReceiveFailed,
    /// The caller wants the round to end.
    Stop,
}

/// What the caller is to do next.
#[derive(Debug)]
pub enum Action {
    /// Send this datagram to the discovery group, then report `ProbeSent`
    /// or `SendFailed`.
    Send(String),
    /// Wait for one datagram, then report `Datagram`, `ReadTimeout` or
    /// `ReceiveFailed`.
    Receive,
    /// The round is over: take the devices found.
    Finish,
    /// The round failed: there is no result.
    Abort,
    /// The event means nothing in this phase; nothing has changed.
    Nothing,
}

/// An action as contracts see it.
pub enum Reply {
    Send(Seq<char>),
    Receive,
    Finish,
    Abort,
    Nothing,
}

impl View for Action {
    type V = Reply;

    open spec fn view(&self) -> Reply {
        match self {
            Action::Send(datagram) => Reply::Send(datagram@),
            Action::Receive => Reply::Receive,
            Action::Finish => Reply::Finish,
            Action::Abort => Reply::Abort,
            Action::Nothing => Reply::Nothing,
        }
    }
}

/// A round as contracts see it.
pub struct RoundView {
    pub phase: Phase,
    /// The correlation token of the probe; empty before the start.
    pub message_id: Seq<char>,
    /// How long the round lasts, in milliseconds.
    pub timeout: u64,
    /// The time at which the round ends; set at the start.
    pub deadline: u64,
    /// Whether answers to other probes are passed over.
    pub match_correlation: bool,
    /// The devices found so far, each once, in the order found.
    pub devices: Seq<Seq<char>>,
}

/// The end of a round that starts at `now` and lasts `timeout`: their sum,
/// or the greatest time there is where the sum is beyond it.
pub open spec fn deadline_of(now: u64, timeout: u64) -> u64 {
    if now + timeout > u64::MAX {
        u64::MAX
    } else {
        (now + timeout) as u64
    }
}

/// The service addresses that a datagram adds to a round: those that it
/// announces, and none where it cannot be decoded or, in a round that
/// matches correlation tokens, where it answers another probe.
pub open spec fn contribution(r: RoundView, text: Seq<char>) -> Seq<Seq<char>> {
    match decoded(text) {
        Ok(response) => if !r.match_correlation || response.relates_to == r.message_id {
            uris_from(response.matches, 0)
        } else {
            Seq::empty()
        },
        Err(_) => Seq::empty(),
    }
}

/// The round `r` in the phase `phase`.
pub open spec fn in_phase(r: RoundView, phase: Phase) -> RoundView {
    RoundView {
        phase,
        message_id: r.message_id,
        timeout: r.timeout,
        deadline: r.deadline,
        match_correlation: r.match_correlation,
        devices: r.devices,
    }
}

/// The round `r` with the devices `devices`.
pub open spec fn with_devices(r: RoundView, devices: Seq<Seq<char>>) -> RoundView {
    RoundView {
        phase: r.phase,
        message_id: r.message_id,
        timeout: r.timeout,
        deadline: r.deadline,
        match_correlation: r.match_correlation,
        devices,
    }
}

/// The round after an event.
///
/// A round leaves `Listening` for `Completed` at the first event that
/// happens at or after the deadline; a datagram that arrives then adds
/// nothing. `Completed`, `Cancelled` and `Failed` are final.
pub open spec fn next(r: RoundView, e: Event) -> RoundView {
    match r.phase {
        Phase::Idle => match e {
            Event::Start { now, token } => RoundView {
                phase: Phase::Probing,
                message_id: token@,
                timeout: r.timeout,
                deadline: deadline_of(now, r.timeout),
                match_correlation: r.match_correlation,
                devices: r.devices,
            },
            Event::Stop => in_phase(r, Phase::Cancelled),
            _ => r,
        },
        Phase::Probing => match e {
            Event::ProbeSent => in_phase(r, Phase::Listening),
            Event::SendFailed => in_phase(r, Phase::Failed),
            Event::Stop => in_phase(r, Phase::Cancelled),
            _ => r,
        },
        Phase::Listening => match e {
            Event::Datagram { now, text } => if now >= r.deadline {
                in_phase(r, Phase::Completed)
            } else {
                with_devices(r, merged(r.devices, contribution(r, text@), 0))
            },
            Event::ReadTimeout { now } => if now >= r.deadline {
                in_phase(r, Phase::Completed)
            } else {
                r
            },
            Event::ReceiveFailed => in_phase(r, Phase::Failed),
            Event::Stop => in_phase(r, Phase::Cancelled),
            _ => r,
        },
        _ => r,
    }
}

/// What the caller is to do after an event that met the round `r`.
pub open spec fn reply(r: RoundView, e: Event) -> Reply {
    match r.phase {
        Phase::Idle => match e {
            Event::Start { now, token } => Reply::Send(
                discovery_text(token@, ProbeType::NetworkVideoTransmitter),
            ),
            Event::Stop => Reply::Finish,
            _ => Reply::Nothing,
        },
        Phase::Probing => match e {
            Event::ProbeSent => Reply::Receive,
            Event::SendFailed => Reply::Abort,
            Event::Stop => Reply::Finish,
            _ => Reply::Nothing,
        },
        Phase::Listening => match e {
            Event::Datagram { now, text } => if now >= r.deadline {
                Reply::Finish
            } else {
                Reply::Receive
            },
            Event::ReadTimeout { now } => if now >= r.deadline {
                Reply::Finish
            } else {
                Reply::Receive
            },
            Event::ReceiveFailed => Reply::Abort,
            Event::Stop => Reply::Finish,
            _ => Reply::Nothing,
        },
        _ => Reply::Nothing,
    }
}

/// Whether a round in this phase has a result: it ended at its deadline or
/// was stopped.
pub open spec fn has_result(phase: Phase) -> bool {
    phase == Phase::Completed || phase == Phase::Cancelled
}

/// Whether a round in this phase is over.
pub open spec fn is_final(phase: Phase) -> bool {
    phase == Phase::Completed || phase == Phase::Cancelled || phase == Phase::Failed
}

/// A round that is over stays as it is, whatever happens, and asks for
/// nothing more.
pub proof fn lemma_final_phases_absorb(r: RoundView, e: Event)
    requires
        is_final(r.phase),
    ensures
        next(r, e) == r,
        reply(r, e) == Reply::Nothing,
{
}

/// The devices of a round stay a set: no event brings a device into it
/// twice.
pub proof fn lemma_devices_stay_unique(r: RoundView, e: Event)
    requires
        r.devices.no_duplicates(),
    ensures
        next(r, e).devices.no_duplicates(),
{
    match e {
        Event::Datagram { now, text } => {
            lemma_merged_no_duplicates(r.devices, contribution(r, text@), 0);
        },
        _ => {},
    }
}

/// A round before its start.
pub open spec fn fresh(timeout: u64, match_correlation: bool) -> RoundView {
    RoundView {
        phase: Phase::Idle,
        message_id: Seq::empty(),
        timeout,
        deadline: 0,
        match_correlation,
        devices: Seq::empty(),
    }
}

/// A round that was started at `start` under `token` and whose probe was
/// sent.
pub open spec fn listening(timeout: u64, match_correlation: bool, start: u64, token: String)
    -> RoundView {
    next(next(fresh(timeout, match_correlation), Event::Start { now: start, token }), Event::ProbeSent)
}

/// The round after read deadlines have passed at the times `times` from
/// `k` on, with no datagram in between.
pub open spec fn after_silence(r: RoundView, times: Seq<u64>, k: int) -> RoundView
    decreases times.len() - k,
{
    if k < 0 || k >= times.len() {
        r
    } else {
        after_silence(next(r, Event::ReadTimeout { now: times[k] }), times, k + 1)
    }
}

/// Whether one of the times from `k` on is at or after `deadline`.
pub open spec fn reaches(times: Seq<u64>, k: int, deadline: u64) -> bool {
    exists|i: int| k <= i < times.len() && #[trigger] times[i] >= deadline
}

/// Silence changes nothing but the phase: a listening round keeps its
/// devices, and it is completed exactly if a read deadline passed at or
/// after the deadline of the round.
pub proof fn lemma_silence(r: RoundView, times: Seq<u64>, k: int)
    requires
        r.phase == Phase::Listening || r.phase == Phase::Completed,
        0 <= k <= times.len(),
    ensures
        after_silence(r, times, k).devices == r.devices,
        after_silence(r, times, k).deadline == r.deadline,
        r.phase == Phase::Completed ==> after_silence(r, times, k).phase == Phase::Completed,
        r.phase == Phase::Listening ==> after_silence(r, times, k).phase == (if reaches(
            times,
            k,
            r.deadline,
        ) {
            Phase::Completed
        } else {
            Phase::Listening
        }),
    decreases times.len() - k,
{
    if k < times.len() {
        let r1 = next(r, Event::ReadTimeout { now: times[k] });
        lemma_silence(r1, times, k + 1);
        if r.phase == Phase::Listening {
            if times[k] >= r.deadline {
                assert(reaches(times, k, r.deadline));
            } else {
                if reaches(times, k, r.deadline) {
                    let i = choose|i: int| k <= i < times.len() && #[trigger] times[i] >= r.deadline;
                    assert(k + 1 <= i);
                    assert(reaches(times, k + 1, r.deadline));
                } else {
                    if reaches(times, k + 1, r.deadline) {
                        let i = choose|i: int|
                            k + 1 <= i < times.len() && #[trigger] times[i] >= r.deadline;
                        assert(k <= i && times[i] >= r.deadline);
                        assert(reaches(times, k, r.deadline));
                    }
                }
            }
        }
    }
}

/// A round to which no device answers never fails and finds nothing. It
/// goes on while every read deadline passes before the deadline of the
/// round, `timeout` after the start, and it is completed, with the empty
/// result, once one has passed at or after it: never before `timeout` has
/// elapsed.
pub proof fn lemma_silent_round(
    timeout: u64,
    match_correlation: bool,
    start: u64,
    token: String,
    times: Seq<u64>,
)
    ensures
        ({
            let r = after_silence(listening(timeout, match_correlation, start, token), times, 0);
            &&& r.devices == Seq::<Seq<char>>::empty()
            &&& r.phase == (if reaches(times, 0, deadline_of(start, timeout)) {
                Phase::Completed
            } else {
                Phase::Listening
            })
        }),
{
    lemma_silence(listening(timeout, match_correlation, start, token), times, 0);
}

/// A silent round ends within one read deadline of its own: where the
/// read deadlines pass at most `pace` apart, the first at most `pace` after
/// the start, the one that completes the round passes at or after the
/// deadline of the round and at most `pace` after it.
pub proof fn lemma_silent_round_overhead(
    start: u64,
    timeout: u64,
    pace: u64,
    times: Seq<u64>,
    c: int,
)
    requires
        start + timeout <= u64::MAX,
        0 <= c < times.len(),
        times[0] <= start + pace,
        forall|i: int| 0 < i < times.len() ==> times[i - 1] <= #[trigger] times[i] <= times[i - 1]
            + pace,
        times[c] >= deadline_of(start, timeout),
        forall|i: int| 0 <= i < c ==> #[trigger] times[i] < deadline_of(start, timeout),
    ensures
        start + timeout <= times[c] <= start + timeout + pace,
{
    if c > 0 {
        assert(times[c - 1] < deadline_of(start, timeout));
    }
}

/// The round after the datagrams `arrivals` from `k` on, each with the
/// time at which it arrived.
pub open spec fn after_datagrams(r: RoundView, arrivals: Seq<(u64, String)>, k: int) -> RoundView
    decreases arrivals.len() - k,
{
    if k < 0 || k >= arrivals.len() {
        r
    } else {
        after_datagrams(
            next(r, Event::Datagram { now: arrivals[k].0, text: arrivals[k].1 }),
            arrivals,
            k + 1,
        )
    }
}

/// The devices of `r` together with those of the datagrams from `k` on
/// that arrived before the deadline.
pub open spec fn collected_in_time(r: RoundView, arrivals: Seq<(u64, String)>, k: int) -> Seq<
    Seq<char>,
>
    decreases arrivals.len() - k,
{
    if k < 0 || k >= arrivals.len() {
        r.devices
    } else if arrivals[k].0 < r.deadline {
        collected_in_time(
            with_devices(r, merged(r.devices, contribution(r, arrivals[k].1@), 0)),
            arrivals,
            k + 1,
        )
    } else {
        collected_in_time(r, arrivals, k + 1)
    }
}

/// Times that do not go back.
pub open spec fn in_order(arrivals: Seq<(u64, String)>) -> bool {
    forall|i: int, j: int| 0 <= i <= j < arrivals.len() ==> arrivals[i].0 <= arrivals[j].0
}

/// Datagrams leave a completed round as it is.
pub proof fn lemma_completed_ignores_datagrams(
    r: RoundView,
    arrivals: Seq<(u64, String)>,
    k: int,
)
    requires
        r.phase == Phase::Completed,
    ensures
        after_datagrams(r, arrivals, k) == r,
    decreases arrivals.len() - k,
{
    if 0 <= k < arrivals.len() {
        lemma_completed_ignores_datagrams(r, arrivals, k + 1);
    }
}

/// Datagrams that all arrived at or after the deadline add nothing.
pub proof fn lemma_late_datagrams_add_nothing(
    r: RoundView,
    arrivals: Seq<(u64, String)>,
    k: int,
)
    requires
        forall|i: int| k <= i < arrivals.len() ==> (#[trigger] arrivals[i]).0 >= r.deadline,
    ensures
        collected_in_time(r, arrivals, k) == r.devices,
    decreases arrivals.len() - k,
{
    if 0 <= k < arrivals.len() {
        lemma_late_datagrams_add_nothing(r, arrivals, k + 1);
    }
}

/// Only what arrives before the deadline counts: after datagrams that
/// arrived before and after the deadline, a listening round holds the
/// devices it had and those of the datagrams that arrived before the
/// deadline, and no others.
pub proof fn lemma_only_early_datagrams_count(
    r: RoundView,
    arrivals: Seq<(u64, String)>,
    k: int,
)
    requires
        r.phase == Phase::Listening,
        in_order(arrivals),
        0 <= k <= arrivals.len(),
    ensures
        after_datagrams(r, arrivals, k).devices == collected_in_time(r, arrivals, k),
    decreases arrivals.len() - k,
{
    if k < arrivals.len() {
        let r1 = next(r, Event::Datagram { now: arrivals[k].0, text: arrivals[k].1 });
        if arrivals[k].0 < r.deadline {
            lemma_only_early_datagrams_count(r1, arrivals, k + 1);
        } else {
            lemma_completed_ignores_datagrams(r1, arrivals, k + 1);
            assert forall|i: int| k + 1 <= i < arrivals.len() implies (#[trigger] arrivals[i]).0
                >= r.deadline by {
                assert(arrivals[k].0 <= arrivals[i].0);
            }
            lemma_late_datagrams_add_nothing(r, arrivals, k + 1);
        }
    }
}

/// One discovery round.
pub struct Round {
    phase: Phase,
    message_id: String,
    timeout: u64,
    deadline: u64,
    match_correlation: bool,
    devices: DeviceSet,
}

impl View for Round {
    type V = RoundView;

    closed spec fn view(&self) -> RoundView {
        RoundView {
            phase: self.phase,
            message_id: self.message_id@,
            timeout: self.timeout,
            deadline: self.deadline,
            match_correlation: self.match_correlation,
            devices: self.devices@,
        }
    }
}

impl Round {
    /// A round that will last `timeout` milliseconds. With
    /// `match_correlation` it passes over answers to other probes.
    pub fn new(timeout: u64, match_correlation: bool) -> (r: Round)
        ensures
            r@ == (RoundView {
                phase: Phase::Idle,
                message_id: Seq::empty(),
                timeout,
                deadline: 0,
                match_correlation,
                devices: Seq::empty(),
            }),
    {
        let empty: Vec<char> = Vec::new();
        Round {
            phase: Phase::Idle,
            message_id: string_of(&empty),
            timeout,
            deadline: 0,
            match_correlation,
            devices: DeviceSet::new(),
        }
    }

    /// Where the round stands.
    pub fn phase(&self) -> (p: Phase)
        ensures
            p == self@.phase,
    {
        self.phase
    }

    /// The time at which the round ends.
    pub fn deadline(&self) -> (t: u64)
        ensures
            t == self@.deadline,
    {
        self.deadline
    }

    /// The correlation token of the probe.
    pub fn message_id(&self) -> (id: String)
        ensures
            id@ == self@.message_id,
    {
        self.message_id.clone()
    }

    /// Whether the round is over.
    pub fn is_over(&self) -> (b: bool)
        ensures
            b == is_final(self@.phase),
    {
        match self.phase {
            Phase::Completed => true,
            Phase::Cancelled => true,
            Phase::Failed => true,
            _ => false,
        }
    }

    /// The devices found so far, each once, in the order found.
    pub fn devices(&self) -> (r: Vec<String>)
        ensures
            r.deep_view() == self@.devices,
            r.deep_view().no_duplicates(),
    {
        self.devices.to_vec()
    }

    /// The result of the round: the devices found, once the round has
    /// ended at its deadline or was stopped. A round that found no device
    /// has the empty result. There is none while the round goes on, nor
    /// after the transport failed.
    pub fn result(&self) -> (r: Option<Vec<String>>)
        ensures
            match r {
                Some(devices) => has_result(self@.phase) && devices.deep_view() == self@.devices,
                None => !has_result(self@.phase),
            },
    {
        match self.phase {
            Phase::Completed => Some(self.devices.to_vec()),
            Phase::Cancelled => Some(self.devices.to_vec()),
            _ => None,
        }
    }

    /// How the round ended: with the devices found, or with the error of
    /// the transport. There is nothing to tell while the round goes on.
    pub fn outcome(&self) -> (r: Option<Result<Vec<String>, DiscoveryError>>)
        ensures
            match r {
                None => !is_final(self@.phase),
                Some(Ok(devices)) => has_result(self@.phase) && devices.deep_view()
                    == self@.devices,
                Some(Err(e)) => self@.phase == Phase::Failed && e == DiscoveryError::TransportError,
            },
    {
        match self.phase {
            Phase::Completed => Some(Ok(self.devices.to_vec())),
            Phase::Cancelled => Some(Ok(self.devices.to_vec())),
            Phase::Failed => Some(Err(DiscoveryError::TransportError)),
            _ => None,
        }
    }

    /// Takes the addresses of a datagram into the set of devices.
    fn collect(&mut self, text: &str)
        ensures
            final(self)@ == with_devices(
                old(self)@,
                merged(old(self)@.devices, contribution(old(self)@, text@), 0),
            ),
    {
        match decode(text) {
            Ok(envelope) => {
                if !self.match_correlation || same_text(
                    envelope.header.relates_to.as_str(),
                    self.message_id.as_str(),
                ) {
                    let uris = envelope.body.probe_matches.device_uris();
                    self.devices.merge(&uris);
                }
            },
            Err(_) => {},
        }
    }

    /// Begins the round at the time `now` under a new correlation token:
    /// the event `Start` with a token that this library makes.
    pub fn start(&mut self, now: u64) -> (action: Action)
        ensures
            exists|token: String|
                is_message_id(token@) && final(self)@ == next(
                    old(self)@,
                    Event::Start { now, token },
                ) && action@ == reply(old(self)@, Event::Start { now, token }),
    {
        let token = fresh_message_id();
        let ghost chosen = token;
        let action = self.step(Event::Start { now, token });
        assert(is_message_id(chosen@) && self@ == next(
            old(self)@,
            Event::Start { now, token: chosen },
        ) && action@ == reply(old(self)@, Event::Start { now, token: chosen }));
        action
    }

    /// Takes an event and says what to do next.
    pub fn step(&mut self, event: Event) -> (action: Action)
        ensures
            final(self)@ == next(old(self)@, event),
            action@ == reply(old(self)@, event),
    {
        match self.phase {
            Phase::Idle => match event {
                Event::Start { now, token } => {
                    let datagram = create_onvif_discovery_message(token.as_str());
                    self.phase = Phase::Probing;
                    self.message_id = token;
                    self.deadline = if now > u64::MAX - self.timeout {
                        u64::MAX
                    } else {
                        now + self.timeout
                    };
                    Action::Send(datagram)
                },
                Event::Stop => {
                    self.phase = Phase::Cancelled;
                    Action::Finish
                },
                _ => Action::Nothing,
            },
            Phase::Probing => match event {
                Event::ProbeSent => {
                    self.phase = Phase::Listening;
                    Action::Receive
                },
                Event::SendFailed => {
                    self.phase = Phase::Failed;
                    Action::Abort
                },
                Event::Stop => {
                    self.phase = Phase::Cancelled;
                    Action::Finish
                },
                _ => Action::Nothing,
            },
            Phase::Listening => match event {
                Event::Datagram { now, text } => {
                    if now >= self.deadline {
                        self.phase = Phase::Completed;
                        Action::Finish
                    } else {
                        self.collect(text.as_str());
                        Action::Receive
                    }
                },
                Event::ReadTimeout { now } => {
                    if now >= self.deadline {
                        self.phase = Phase::Completed;
                        Action::Finish
                    } else {
                        Action::Receive
                    }
                },
                Event::ReceiveFailed => {
                    self.phase = Phase::Failed;
                    Action::Abort
                },
                Event::Stop => {
                    self.phase = Phase::Cancelled;
                    Action::Finish
                },
                _ => Action::Nothing,
            },
            _ => Action::Nothing,
        }
    }
}

} // verus!
