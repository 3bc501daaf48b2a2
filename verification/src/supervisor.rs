//! The per-registration connection state machine.
//!
//! The supervisor is a pure transition function from (state, event) to
//! (state, actions). The surrounding runtime performs the actions (open or
//! close the transport, start timers, send frames) and feeds the resulting
//! events back in, so the whole reconnect-with-backoff policy is decided
//! here and nowhere else.
use vstd::prelude::*;

verus! {

/// Where the connection currently stands. `Disconnected` covers both a
/// stopped registration and one waiting out a backoff delay; the
/// supervisor's `listening` flag tells them apart.
#[derive(Clone, Copy, Debug, PartialEq, Eq, Structural)]
pub enum ConnectionState {
    Disconnected,
    CheckingIn,
    Handshaking,
    Active,
    Draining,
}

/// What the runtime reports to the supervisor.
#[derive(Clone, Copy, Debug, PartialEq, Eq, Structural)]
pub enum Event {
    /// The caller asked this registration to start listening.
    ListenRequested,
    /// Check-in finished and produced a usable device identity.
    CheckinSucceeded,
    /// Check-in failed (network or decode).
    CheckinFailed,
    /// A login-response frame without an error arrived.
    LoginAccepted,
    /// A login-response frame carrying an error arrived.
    LoginRejected,
    /// A heartbeat-ping frame arrived.
    HeartbeatPingReceived,
    /// The transport reported end of stream or an I/O error.
    TransportClosed,
    /// No frame (not even a heartbeat) arrived within the idle window.
    IdleTimeout,
    /// The backoff timer fired.
    BackoffElapsed,
    /// The caller asked this registration to stop.
    StopRequested,
    /// A drain that was waiting for a stop acknowledgement timed out or
    /// completed.
    DrainFinished,
}

/// What the runtime must do after a transition, in order.
#[derive(Clone, Copy, Debug, PartialEq, Eq, Structural)]
pub enum Action {
    /// Run the check-in exchange and report success or failure.
    StartCheckin,
    /// Open a transport to the delivery server and send the login frame.
    OpenTransport,
    /// Close the transport.
    CloseTransport,
    /// Answer the server's heartbeat ping with a heartbeat-ack frame.
    SendHeartbeatAck,
    /// Arm the backoff timer for this many milliseconds.
    StartBackoffTimer(u64),
    /// Report `Error::AlreadyListening` to the caller synchronously.
    RejectListen,
}

/// Base delay after the first failure, in milliseconds.
pub const BACKOFF_BASE_MS: u64 = 1000;

/// The delay cap, in milliseconds.
pub const BACKOFF_CAP_MS: u64 = 64000;

/// Largest bounded jitter a caller may add to a delay, in milliseconds.
pub const BACKOFF_JITTER_CAP_MS: u64 = 1000;

/// Exponential backoff: the delay before retry number `failures`, doubling
/// from [`BACKOFF_BASE_MS`] and capped at [`BACKOFF_CAP_MS`].
pub open spec fn spec_backoff_ms(failures: u32) -> u64 {
    if failures <= 1 {
        1000
    } else if failures == 2 {
        2000
    } else if failures == 3 {
        4000
    } else if failures == 4 {
        8000
    } else if failures == 5 {
        16000
    } else if failures == 6 {
        32000
    } else {
        64000
    }
}

/// The backoff delay never decreases across consecutive failures and never
/// exceeds the cap.
pub proof fn lemma_backoff_monotone_and_capped(f1: u32, f2: u32)
    requires
        f1 <= f2,
    ensures
        spec_backoff_ms(f1) <= spec_backoff_ms(f2),
        spec_backoff_ms(f2) <= BACKOFF_CAP_MS,
        BACKOFF_BASE_MS <= spec_backoff_ms(f1),
{
}

pub fn backoff_ms(failures: u32) -> (d: u64)
    ensures
        d == spec_backoff_ms(failures),
{
    if failures <= 1 {
        1000
    } else if failures == 2 {
        2000
    } else if failures == 3 {
        4000
    } else if failures == 4 {
        8000
    } else if failures == 5 {
        16000
    } else if failures == 6 {
        32000
    } else {
        64000
    }
}

/// Adds bounded jitter to a backoff delay. The result stays within the
/// jitter cap of the exact delay, whatever `jitter_ms` the caller's
/// randomness produced.
pub fn backoff_with_jitter(failures: u32, jitter_ms: u64) -> (d: u64)
    ensures
        spec_backoff_ms(failures) <= d,
        d <= spec_backoff_ms(failures) + BACKOFF_JITTER_CAP_MS,
{
    let base = backoff_ms(failures);
    if jitter_ms > BACKOFF_JITTER_CAP_MS {
        base + BACKOFF_JITTER_CAP_MS
    } else {
        base + jitter_ms
    }
}

/// The control half of one registration's connection.
#[derive(Clone, Copy, Debug, PartialEq, Eq, Structural)]
pub struct Supervisor {
    pub state: ConnectionState,
    /// True from a listen request until a stop request: whether the
    /// supervisor should keep reconnecting.
    pub listening: bool,
    /// Consecutive failed attempts since the last successful Active
    /// period; drives the backoff delay.
    pub failures: u32,
    /// Model of transport ownership: true exactly while a transport that
    /// this supervisor opened has not been closed or lost.
    pub transport_open: bool,
}

impl Supervisor {
    /// The supervisor's invariant: a transport is owned exactly in the
    /// three connected states, those states only occur while listening,
    /// and draining only occurs after a stop request.
    pub open spec fn wf(self) -> bool {
        &&& self.transport_open <==> (self.state is Handshaking || self.state is Active
            || self.state is Draining)
        &&& (self.state is CheckingIn || self.state is Handshaking || self.state is Active)
            ==> self.listening
        &&& self.state is Draining ==> !self.listening
    }

    /// A fresh supervisor: not listening, nothing open.
    pub fn new() -> (s: Supervisor)
        ensures
            (s == Supervisor {
                state: ConnectionState::Disconnected,
                listening: false,
                failures: 0,
                transport_open: false,
            }),
            s.wf(),
    {
        Supervisor {
            state: ConnectionState::Disconnected,
            listening: false,
            failures: 0,
            transport_open: false,
        }
    }
}

/// `failures` bumped by one, saturating.
pub open spec fn bump(f: u32) -> u32 {
    if f == u32::MAX {
        f
    } else {
        (f + 1) as u32
    }
}

/// The transition table: the supervisor after `e`, and the actions the
/// runtime must perform, in order.
pub open spec fn spec_step(s: Supervisor, e: Event) -> (Supervisor, Seq<Action>) {
    match e {
        Event::ListenRequested => {
            if s.state is Disconnected && !s.listening {
                (
                    Supervisor { state: ConnectionState::CheckingIn, listening: true, failures: 0, ..s },
                    seq![Action::StartCheckin],
                )
            } else {
                (s, seq![Action::RejectListen])
            }
        },
        Event::CheckinSucceeded => {
            if s.state is CheckingIn {
                (
                    Supervisor { state: ConnectionState::Handshaking, transport_open: true, ..s },
                    seq![Action::OpenTransport],
                )
            } else {
                (s, Seq::empty())
            }
        },
        Event::CheckinFailed => {
            if s.state is CheckingIn {
                (
                    Supervisor { state: ConnectionState::Disconnected, failures: bump(s.failures), ..s },
                    seq![Action::StartBackoffTimer(spec_backoff_ms(bump(s.failures)))],
                )
            } else {
                (s, Seq::empty())
            }
        },
        Event::LoginAccepted => {
            if s.state is Handshaking {
                (Supervisor { state: ConnectionState::Active, failures: 0, ..s }, Seq::empty())
            } else {
                (s, Seq::empty())
            }
        },
        Event::LoginRejected => {
            if s.state is Handshaking {
                (
                    Supervisor {
                        state: ConnectionState::Disconnected,
                        failures: bump(s.failures),
                        transport_open: false,
                        ..s
                    },
                    seq![
                        Action::CloseTransport,
                        Action::StartBackoffTimer(spec_backoff_ms(bump(s.failures))),
                    ],
                )
            } else {
                (s, Seq::empty())
            }
        },
        Event::HeartbeatPingReceived => {
            if s.state is Active {
                (s, seq![Action::SendHeartbeatAck])
            } else {
                (s, Seq::empty())
            }
        },
        Event::TransportClosed => {
            if s.state is Handshaking || s.state is Active {
                (
                    Supervisor {
                        state: ConnectionState::Disconnected,
                        failures: bump(s.failures),
                        transport_open: false,
                        ..s
                    },
                    seq![Action::StartBackoffTimer(spec_backoff_ms(bump(s.failures)))],
                )
            } else if s.state is Draining {
                (
                    Supervisor { state: ConnectionState::Disconnected, transport_open: false, ..s },
                    Seq::empty(),
                )
            } else {
                (s, Seq::empty())
            }
        },
        Event::IdleTimeout => {
            if s.state is Handshaking || s.state is Active {
                (
                    Supervisor {
                        state: ConnectionState::Disconnected,
                        failures: bump(s.failures),
                        transport_open: false,
                        ..s
                    },
                    seq![
                        Action::CloseTransport,
                        Action::StartBackoffTimer(spec_backoff_ms(bump(s.failures))),
                    ],
                )
            } else {
                (s, Seq::empty())
            }
        },
        Event::BackoffElapsed => {
            if s.state is Disconnected && s.listening {
                (Supervisor { state: ConnectionState::CheckingIn, ..s }, seq![Action::StartCheckin])
            } else {
                (s, Seq::empty())
            }
        },
        Event::StopRequested => {
            if s.state is Active {
                (
                    Supervisor { state: ConnectionState::Draining, listening: false, ..s },
                    Seq::empty(),
                )
            } else if s.state is Handshaking {
                (
                    Supervisor {
                        state: ConnectionState::Disconnected,
                        listening: false,
                        transport_open: false,
                        ..s
                    },
                    seq![Action::CloseTransport],
                )
            } else if s.state is CheckingIn {
                (
                    Supervisor { state: ConnectionState::Disconnected, listening: false, ..s },
                    Seq::empty(),
                )
            } else {
                (Supervisor { listening: false, ..s }, Seq::empty())
            }
        },
        Event::DrainFinished => {
            if s.state is Draining {
                (
                    Supervisor { state: ConnectionState::Disconnected, transport_open: false, ..s },
                    seq![Action::CloseTransport],
                )
            } else {
                (s, Seq::empty())
            }
        },
    }
}

impl Supervisor {
    /// Applies one event and returns the actions the runtime must perform,
    /// exactly as [`spec_step`] says.
    pub fn step(&mut self, e: Event) -> (actions: Vec<Action>)
        ensures
            (*final(self), actions@) == spec_step(*old(self), e),
    {
        let (next, actions) = step_impl(*self, e);
        *self = next;
        actions
    }
}

fn step_impl(s: Supervisor, e: Event) -> (r: (Supervisor, Vec<Action>))
    ensures
        (r.0, r.1@) == spec_step(s, e),
{
    let mut acts: Vec<Action> = Vec::new();
    let next: Supervisor;
    match e {
        Event::ListenRequested => {
            if matches!(s.state, ConnectionState::Disconnected) && !s.listening {
                acts.push(Action::StartCheckin);
                next = Supervisor { state: ConnectionState::CheckingIn, listening: true, failures: 0, ..s };
            } else {
                acts.push(Action::RejectListen);
                next = s;
            }
        },
        Event::CheckinSucceeded => {
            if matches!(s.state, ConnectionState::CheckingIn) {
                acts.push(Action::OpenTransport);
                next = Supervisor { state: ConnectionState::Handshaking, transport_open: true, ..s };
            } else {
                next = s;
            }
        },
        Event::CheckinFailed => {
            if matches!(s.state, ConnectionState::CheckingIn) {
                let f = bump_failures(s.failures);
                acts.push(Action::StartBackoffTimer(backoff_ms(f)));
                next = Supervisor { state: ConnectionState::Disconnected, failures: f, ..s };
            } else {
                next = s;
            }
        },
        Event::LoginAccepted => {
            if matches!(s.state, ConnectionState::Handshaking) {
                next = Supervisor { state: ConnectionState::Active, failures: 0, ..s };
            } else {
                next = s;
            }
        },
        Event::LoginRejected => {
            if matches!(s.state, ConnectionState::Handshaking) {
                let f = bump_failures(s.failures);
                acts.push(Action::CloseTransport);
                acts.push(Action::StartBackoffTimer(backoff_ms(f)));
                next = Supervisor {
                    state: ConnectionState::Disconnected,
                    failures: f,
                    transport_open: false,
                    ..s
                };
            } else {
                next = s;
            }
        },
        Event::HeartbeatPingReceived => {
            if matches!(s.state, ConnectionState::Active) {
                acts.push(Action::SendHeartbeatAck);
            }
            next = s;
        },
        Event::TransportClosed => {
            if matches!(s.state, ConnectionState::Handshaking) || matches!(
                s.state,
                ConnectionState::Active,
            ) {
                let f = bump_failures(s.failures);
                acts.push(Action::StartBackoffTimer(backoff_ms(f)));
                next = Supervisor {
                    state: ConnectionState::Disconnected,
                    failures: f,
                    transport_open: false,
                    ..s
                };
            } else if matches!(s.state, ConnectionState::Draining) {
                next = Supervisor {
                    state: ConnectionState::Disconnected,
                    transport_open: false,
                    ..s
                };
            } else {
                next = s;
            }
        },
        Event::IdleTimeout => {
            if matches!(s.state, ConnectionState::Handshaking) || matches!(
                s.state,
                ConnectionState::Active,
            ) {
                let f = bump_failures(s.failures);
                acts.push(Action::CloseTransport);
                acts.push(Action::StartBackoffTimer(backoff_ms(f)));
                next = Supervisor {
                    state: ConnectionState::Disconnected,
                    failures: f,
                    transport_open: false,
                    ..s
                };
            } else {
                next = s;
            }
        },
        Event::BackoffElapsed => {
            if matches!(s.state, ConnectionState::Disconnected) && s.listening {
                acts.push(Action::StartCheckin);
                next = Supervisor { state: ConnectionState::CheckingIn, ..s };
            } else {
                next = s;
            }
        },
        Event::StopRequested => {
            if matches!(s.state, ConnectionState::Active) {
                next = Supervisor { state: ConnectionState::Draining, listening: false, ..s };
            } else if matches!(s.state, ConnectionState::Handshaking) {
                acts.push(Action::CloseTransport);
                next = Supervisor {
                    state: ConnectionState::Disconnected,
                    listening: false,
                    transport_open: false,
                    ..s
                };
            } else if matches!(s.state, ConnectionState::CheckingIn) {
                next = Supervisor { state: ConnectionState::Disconnected, listening: false, ..s };
            } else {
                next = Supervisor { listening: false, ..s };
            }
        },
        Event::DrainFinished => {
            if matches!(s.state, ConnectionState::Draining) {
                acts.push(Action::CloseTransport);
                next = Supervisor {
                    state: ConnectionState::Disconnected,
                    transport_open: false,
                    ..s
                };
            } else {
                next = s;
            }
        },
    }
    (next, acts)
}

fn bump_failures(f: u32) -> (r: u32)
    ensures
        r == bump(f),
{
    if f == u32::MAX {
        f
    } else {
        f + 1
    }
}

/// How one action changes the number of open transports.
pub open spec fn after_action(live: int, a: Action) -> int {
    if a is OpenTransport {
        live + 1
    } else if a is CloseTransport {
        live - 1
    } else {
        live
    }
}

/// How many transports are open after executing all of `acts` starting
/// from `live` open transports.
pub open spec fn live_transports(live: int, acts: Seq<Action>) -> int
    decreases acts.len(),
{
    if acts.len() == 0 {
        live
    } else {
        live_transports(after_action(live, acts[0]), acts.skip(1))
    }
}

/// True when executing `acts` one by one from `live` open transports never
/// holds more than one transport, nor closes one that is not open.
pub open spec fn at_most_one_transport(live: int, acts: Seq<Action>) -> bool
    decreases acts.len(),
{
    &&& 0 <= live <= 1
    &&& acts.len() > 0 ==> at_most_one_transport(after_action(live, acts[0]), acts.skip(1))
}

/// The number of open transports a supervisor accounts for.
pub open spec fn live_of(s: Supervisor) -> int {
    if s.transport_open {
        1
    } else {
        0
    }
}

/// How many transports are open at the moment the step's actions start to
/// run: when the event itself reports that the peer closed the transport,
/// none is open any more.
pub open spec fn live_at_event(s: Supervisor, e: Event) -> int {
    if e is TransportClosed {
        0
    } else {
        live_of(s)
    }
}

/// The supervisor never holds two live transports for one registration:
/// every step preserves the invariant, at no point while its actions are
/// executed in order is more than one transport open, and afterwards
/// exactly the supervisor's own accounting is open.
pub proof fn lemma_single_transport(s: Supervisor, e: Event)
    requires
        s.wf(),
    ensures
        spec_step(s, e).0.wf(),
        at_most_one_transport(live_at_event(s, e), spec_step(s, e).1),
        live_transports(live_at_event(s, e), spec_step(s, e).1) == live_of(spec_step(s, e).0),
{
    let acts = spec_step(s, e).1;
    let live = live_at_event(s, e);
    if acts.len() == 1 {
        let l1 = after_action(live, acts[0]);
        assert(acts.skip(1) =~= Seq::<Action>::empty());
        assert(live_transports(l1, Seq::<Action>::empty()) == l1);
        assert(at_most_one_transport(l1, Seq::<Action>::empty()) <==> 0 <= l1 <= 1);
    } else if acts.len() == 2 {
        let l1 = after_action(live, acts[0]);
        let l2 = after_action(l1, acts[1]);
        assert(acts.skip(1) =~= seq![acts[1]]);
        assert(seq![acts[1]].skip(1) =~= Seq::<Action>::empty());
        assert(live_transports(l2, Seq::<Action>::empty()) == l2);
        assert(at_most_one_transport(l2, Seq::<Action>::empty()) <==> 0 <= l2 <= 1);
        assert(live_transports(l1, seq![acts[1]]) == l2);
        assert(at_most_one_transport(l1, seq![acts[1]]) <==> (0 <= l1 <= 1 && 0 <= l2 <= 1));
    }
}

/// Stopping is idempotent: a stop on a supervisor that is not listening
/// and holds nothing changes nothing and asks for no action.
pub proof fn lemma_stop_idempotent(s: Supervisor)
    requires
        s.wf(),
        !s.listening,
        s.state is Disconnected,
    ensures
        spec_step(s, Event::StopRequested).0 == s,
        (spec_step(s, Event::StopRequested).1 == Seq::<Action>::empty()),
{
    assert(spec_step(s, Event::StopRequested).0 =~= s);
}

/// A successful login resets the failure count, so the next backoff, if
/// any, restarts from the base delay.
pub proof fn lemma_backoff_resets_on_active(s: Supervisor)
    requires
        s.wf(),
        s.state is Handshaking,
    ensures
        spec_step(s, Event::LoginAccepted).0.failures == 0,
        spec_step(s, Event::LoginAccepted).0.state is Active,
{
}

/// While a stop is in effect no step reopens a transport or re-enters a
/// connected state: once not listening and disconnected, every event but a
/// new listen request leaves the supervisor disconnected.
pub proof fn lemma_stopped_stays_stopped(s: Supervisor, e: Event)
    requires
        s.wf(),
        !s.listening,
        s.state is Disconnected,
        e != Event::ListenRequested,
    ensures
        (spec_step(s, e).0 == Supervisor { listening: false, ..s }),
        forall|i: int|
            0 <= i < spec_step(s, e).1.len() ==> spec_step(s, e).1[i] != Action::OpenTransport,
{
    assert(spec_step(s, e).0 =~= Supervisor { listening: false, ..s });
}

} // verus!
