//! Continuous discovery as a state machine: a session waits until it is
//! told to run a round or to stop, runs one round at a time, and publishes
//! what each completed round has found.
//!
//! A session is driven with the events of a round. `Start` is the signal to
//! run a round again; `Stop` ends the session and discards a round in
//! progress.

use crate::round::{fresh, next, reply, Action, Event, Phase, Reply, Round, RoundView};
use crate::token::{fresh_message_id, is_message_id};
use vstd::prelude::*;

verus! {

/// Where a session stands.
#[derive(Clone, Copy, Debug, PartialEq, Eq, Structural)]
pub enum SessionState {
    /// No round is in progress: the session waits for `Start` or `Stop`.
    Waiting,
    /// A round is in progress.
    Running,
    /// The session has ended.
    Stopped,
}

/// What the caller of a session is to do next.
#[derive(Debug)]
pub enum Order {
    /// Send this datagram to the discovery group, then report `ProbeSent`
    /// or `SendFailed`.
    Send(String),
    /// Wait for one datagram, then report `Datagram`, `ReadTimeout` or
    /// `ReceiveFailed`.
    Receive,
    /// Hand these devices to the subscriber, then wait for `Start` or
    /// `Stop`.
    Publish(Vec<String>),
    /// Release the socket: the session has ended.
    Release,
    /// The event means nothing here; nothing has changed.
    Nothing,
}

/// An order as contracts see it.
pub enum OrderView {
    Send(Seq<char>),
    Receive,
    Publish(Seq<Seq<char>>),
    Release,
    Nothing,
}

impl View for Order {
    type V = OrderView;

    open spec fn view(&self) -> OrderView {
        match self {
            Order::Send(datagram) => OrderView::Send(datagram@),
            Order::Receive => OrderView::Receive,
            Order::Publish(devices) => OrderView::Publish(devices.deep_view()),
            Order::Release => OrderView::Release,
            Order::Nothing => OrderView::Nothing,
        }
    }
}

/// A session as contracts see it.
pub struct SessionView {
    pub state: SessionState,
    /// How long each round lasts, in milliseconds.
    pub timeout: u64,
    /// Whether the rounds pass over answers to other probes.
    pub match_correlation: bool,
    /// The round in progress, or the last one.
    pub round: RoundView,
}

/// The session `s` in the state `state` with the round `round`.
pub open spec fn session_with(s: SessionView, state: SessionState, round: RoundView)
    -> SessionView {
    SessionView { state, timeout: s.timeout, match_correlation: s.match_correlation, round }
}

/// The session after an event.
///
/// A waiting session begins a new round at `Start`. A running session
/// hands the event to its round; it waits again once the round has a
/// result, and ends where the round fails. `Stop` ends a session in any
/// state. A session that has ended stays as it is.
pub open spec fn next_session(s: SessionView, e: Event) -> SessionView {
    match s.state {
        SessionState::Waiting => match e {
            Event::Start { now, token } => session_with(
                s,
                SessionState::Running,
                next(fresh(s.timeout, s.match_correlation), e),
            ),
            Event::Stop => session_with(s, SessionState::Stopped, s.round),
            _ => s,
        },
        SessionState::Running => match e {
            Event::Stop => session_with(s, SessionState::Stopped, s.round),
            _ => match reply(s.round, e) {
                Reply::Finish => session_with(s, SessionState::Waiting, next(s.round, e)),
                Reply::Abort => session_with(s, SessionState::Stopped, next(s.round, e)),
                _ => session_with(s, SessionState::Running, next(s.round, e)),
            },
        },
        SessionState::Stopped => s,
    }
}

/// What the caller is to do after an event that met the session `s`. The
/// devices of a round are published when the round is completed, and at no
/// other time.
pub open spec fn order(s: SessionView, e: Event) -> OrderView {
    match s.state {
        SessionState::Waiting => match e {
            Event::Start { now, token } => match reply(fresh(s.timeout, s.match_correlation), e) {
                Reply::Send(datagram) => OrderView::Send(datagram),
                _ => OrderView::Nothing,
            },
            Event::Stop => OrderView::Release,
            _ => OrderView::Nothing,
        },
        SessionState::Running => match e {
            Event::Stop => OrderView::Release,
            _ => match reply(s.round, e) {
                Reply::Send(datagram) => OrderView::Send(datagram),
                Reply::Receive => OrderView::Receive,
                Reply::Finish => OrderView::Publish(next(s.round, e).devices),
                Reply::Abort => OrderView::Release,
                Reply::Nothing => OrderView::Nothing,
            },
        },
        SessionState::Stopped => OrderView::Nothing,
    }
}

/// Stopping publishes nothing: whatever round is in progress, its devices
/// are not handed out.
pub proof fn lemma_stop_publishes_nothing(s: SessionView)
    ensures
        !(order(s, Event::Stop) is Publish),
        next_session(s, Event::Stop).state == SessionState::Stopped,
{
}

/// A session that has ended stays ended and asks for nothing, whatever
/// happens: nothing is published after a stop.
pub proof fn lemma_stopped_session_is_silent(s: SessionView, e: Event)
    requires
        s.state == SessionState::Stopped,
    ensures
        next_session(s, e) == s,
        order(s, e) == OrderView::Nothing,
{
}

/// A session publishes only the devices of a round that was completed by
/// that very event.
pub proof fn lemma_publish_means_completed(s: SessionView, e: Event)
    requires
        order(s, e) is Publish,
    ensures
        s.state == SessionState::Running,
        next_session(s, e).state == SessionState::Waiting,
        next(s.round, e).phase == Phase::Completed,
        order(s, e) == OrderView::Publish(next(s.round, e).devices),
{
}

/// A session of continuous discovery.
pub struct Session {
    state: SessionState,
    timeout: u64,
    match_correlation: bool,
    round: Round,
}

impl View for Session {
    type V = SessionView;

    closed spec fn view(&self) -> SessionView {
        SessionView {
            state: self.state,
            timeout: self.timeout,
            match_correlation: self.match_correlation,
            round: self.round@,
        }
    }
}

impl Session {
    /// A session whose rounds last `timeout` milliseconds each. It waits.
    pub fn new(timeout: u64, match_correlation: bool) -> (s: Session)
        ensures
            s@ == (SessionView {
                state: SessionState::Waiting,
                timeout,
                match_correlation,
                round: fresh(timeout, match_correlation),
            }),
    {
        Session {
            state: SessionState::Waiting,
            timeout,
            match_correlation,
            round: Round::new(timeout, match_correlation),
        }
    }

    /// Where the session stands.
    pub fn state(&self) -> (st: SessionState)
        ensures
            st == self@.state,
    {
        self.state
    }

    /// The time at which the round in progress ends.
    pub fn deadline(&self) -> (t: u64)
        ensures
            t == self@.round.deadline,
    {
        self.round.deadline()
    }

    /// Runs a round again, from the time `now` on, under a new correlation
    /// token: the event `Start` with a token that this library makes.
    pub fn run_again(&mut self, now: u64) -> (r: Order)
        ensures
            exists|token: String|
                is_message_id(token@) && final(self)@ == next_session(
                    old(self)@,
                    Event::Start { now, token },
                ) && r@ == order(old(self)@, Event::Start { now, token }),
    {
        let token = fresh_message_id();
        let ghost chosen = token;
        let r = self.step(Event::Start { now, token });
        assert(is_message_id(chosen@) && self@ == next_session(
            old(self)@,
            Event::Start { now, token: chosen },
        ) && r@ == order(old(self)@, Event::Start { now, token: chosen }));
        r
    }

    /// Takes an event and says what to do next.
    pub fn step(&mut self, event: Event) -> (r: Order)
        ensures
            final(self)@ == next_session(old(self)@, event),
            r@ == order(old(self)@, event),
    {
        match self.state {
            SessionState::Waiting => match event {
                Event::Start { now, token } => {
                    self.round = Round::new(self.timeout, self.match_correlation);
                    self.state = SessionState::Running;
                    match self.round.step(Event::Start { now, token }) {
                        Action::Send(datagram) => Order::Send(datagram),
                        _ => Order::Nothing,
                    }
                },
                Event::Stop => {
                    self.state = SessionState::Stopped;
                    Order::Release
                },
                _ => Order::Nothing,
            },
            SessionState::Running => match event {
                Event::Stop => {
                    self.state = SessionState::Stopped;
                    Order::Release
                },
                other => match self.round.step(other) {
                    Action::Send(datagram) => Order::Send(datagram),
                    Action::Receive => Order::Receive,
                    Action::Finish => {
                        self.state = SessionState::Waiting;
                        Order::Publish(self.round.devices())
                    },
                    Action::Abort => {
                        self.state = SessionState::Stopped;
                        Order::Release
                    },
                    Action::Nothing => Order::Nothing,
                },
            },
            SessionState::Stopped => Order::Nothing,
        }
    }
}

} // verus!
