//! The UI-facing connection manager.
//!
//! The manager owns the connection lifecycle: `Disconnected`, then on a
//! successful port open `Connected`, then back to `Disconnected` on a
//! disconnect request or a fatal connection error.  A failed connect
//! attempt is an outcome, not a state: the manager stays `Disconnected`
//! and may be retried.  At most one connection is active at a time; a
//! connect request while connected is rejected.
//!
//! The port open itself, the outbound queue, the inbound channel and the
//! keepalive timer live outside this crate.  Their owner reports each
//! outcome or timer tick as a [`ManagerEvent`]; [`ConnectionManager::handle_event`]
//! decides the state transition and returns the [`ManagerAction`] to
//! perform.  While connected, every keepalive tick enqueues exactly one
//! liveness ping carrying a sequence number that increases by one per
//! tick.

use crate::message::Message;
use vstd::prelude::*;

verus! {

/// The manager's lifecycle state.  The liveness counter lives in the
/// connected state, so a fresh connection always restarts it at zero.
#[derive(Clone, Copy, Debug, PartialEq, Eq, Structural)]
pub enum LinkState {
    /// No active connection; connect controls are enabled.
    Disconnected,
    /// One link worker owns the port; `ping_sequence` is the sequence
    /// number the next keepalive ping will carry.
    Connected { ping_sequence: u16 },
}

/// Why a connect attempt returned no connection.
#[derive(Clone, Copy, Debug, PartialEq, Eq, Structural)]
pub enum ConnectError {
    /// The port could not be opened; no worker was created, and the
    /// attempt may be retried.
    ConnectFailed,
    /// A connection is already active: a new one requires a prior clean
    /// disconnect.
    AlreadyConnected,
}

/// The connect transition: from `Disconnected`, a successful port open
/// connects with a fresh ping sequence and a failed one changes nothing;
/// from `Connected`, the attempt is rejected and changes nothing.
pub open spec fn connect_transition(s: LinkState, port_opened: bool) -> (
    LinkState,
    Result<(), ConnectError>,
) {
    match s {
        LinkState::Connected { .. } => (s, Err(ConnectError::AlreadyConnected)),
        LinkState::Disconnected => {
            if port_opened {
                (LinkState::Connected { ping_sequence: 0 }, Ok(()))
            } else {
                (LinkState::Disconnected, Err(ConnectError::ConnectFailed))
            }
        },
    }
}

/// The disconnect transition: always `Disconnected`, whatever held before.
pub open spec fn disconnect_transition(s: LinkState) -> LinkState {
    LinkState::Disconnected
}

/// The keepalive transition: connected, it emits one ping carrying the
/// current sequence number and advances the counter (wrapping);
/// disconnected, it emits nothing and changes nothing.
pub open spec fn keepalive_transition(s: LinkState) -> (LinkState, Option<Message>) {
    match s {
        LinkState::Disconnected => (s, None),
        LinkState::Connected { ping_sequence } => {
            let next: u16 = if ping_sequence == 0xFFFF {
                0
            } else {
                (ping_sequence + 1) as u16
            };
            (LinkState::Connected { ping_sequence: next }, Some(Message::Ping(ping_sequence)))
        },
    }
}

/// The send decision: connected, the message goes to the outbound queue;
/// disconnected, it is dropped and the caller is never blocked.
pub open spec fn send_decision(s: LinkState, m: Message) -> Option<Message> {
    match s {
        LinkState::Connected { .. } => Some(m),
        LinkState::Disconnected => None,
    }
}

/// One occurrence the manager reacts to: a UI request (with the outcome
/// of the port open it triggered), a fatal error from the worker, a
/// keepalive timer tick, or a decoded message from the inbound channel.
#[derive(Clone, Copy, Debug, PartialEq, Eq, Structural)]
pub enum ManagerEvent {
    /// The user asked to connect and the port open attempt ended thus.
    ConnectRequest { port_opened: bool },
    /// The user asked to disconnect.
    DisconnectRequest,
    /// The worker reported a fatal error on the open port.
    ConnectionError,
    /// The keepalive timer fired.
    KeepAlive,
    /// The worker forwarded a decoded message.
    Received(Message),
}

/// What the caller must do after an event is handled.
#[derive(Clone, Copy, Debug, PartialEq, Eq)]
pub enum ManagerAction {
    /// Nothing.
    Idle,
    /// Put this message on the outbound queue.
    Enqueue(Message),
    /// Hand this message to the message callback.
    Deliver(Message),
    /// Report this outcome to the caller of connect.
    ConnectOutcome(Result<(), ConnectError>),
}

/// The manager's whole step function: one event in, the next state and
/// the action out.
pub open spec fn manager_step(s: LinkState, ev: ManagerEvent) -> (LinkState, ManagerAction) {
    match ev {
        ManagerEvent::ConnectRequest { port_opened } => {
            let r = connect_transition(s, port_opened);
            (r.0, ManagerAction::ConnectOutcome(r.1))
        },
        ManagerEvent::DisconnectRequest => (disconnect_transition(s), ManagerAction::Idle),
        ManagerEvent::ConnectionError => (disconnect_transition(s), ManagerAction::Idle),
        ManagerEvent::KeepAlive => {
            let r = keepalive_transition(s);
            match r.1 {
                Some(p) => (r.0, ManagerAction::Enqueue(p)),
                None => (r.0, ManagerAction::Idle),
            }
        },
        ManagerEvent::Received(m) => (s, ManagerAction::Deliver(m)),
    }
}

/// The UI-facing connection manager.
pub struct ConnectionManager {
    state: LinkState,
}

impl View for ConnectionManager {
    type V = LinkState;

    closed spec fn view(&self) -> LinkState {
        self.state
    }
}

impl ConnectionManager {
    /// A fresh manager, disconnected.
    pub fn new() -> (m: Self)
        ensures
            m@ == LinkState::Disconnected,
    {
        ConnectionManager { state: LinkState::Disconnected }
    }

    /// Whether a connection is active.
    pub fn is_connected(&self) -> (r: bool)
        ensures
            r <==> self@ is Connected,
    {
        match self.state {
            LinkState::Connected { .. } => true,
            LinkState::Disconnected => false,
        }
    }

    /// Whether the connect controls are enabled: exactly when nothing is
    /// connected.
    pub fn connect_allowed(&self) -> (r: bool)
        ensures
            r <==> self@ is Disconnected,
    {
        !self.is_connected()
    }

    /// Whether the disconnect control is enabled: exactly when a
    /// connection is active.
    pub fn disconnect_allowed(&self) -> (r: bool)
        ensures
            r <==> self@ is Connected,
    {
        self.is_connected()
    }

    /// Records the outcome of a connect attempt.  `port_opened` says
    /// whether the port could be opened with the fixed settings; on
    /// success the manager is connected with a fresh ping sequence, and
    /// the caller must have spawned the worker that owns the port.
    pub fn connect(&mut self, port_opened: bool) -> (r: Result<(), ConnectError>)
        ensures
            final(self)@ == connect_transition(old(self)@, port_opened).0,
            r == connect_transition(old(self)@, port_opened).1,
            r is Ok <==> (old(self)@ is Disconnected && port_opened),
    {
        match self.state {
            LinkState::Connected { .. } => Err(ConnectError::AlreadyConnected),
            LinkState::Disconnected => {
                if port_opened {
                    self.state = LinkState::Connected { ping_sequence: 0 };
                    Ok(())
                } else {
                    Err(ConnectError::ConnectFailed)
                }
            },
        }
    }

    /// Disconnects: closing the outbound queue and dropping the port are
    /// the caller's part; the manager is `Disconnected` afterwards.
    /// A disconnect with no active connection is a no-op.
    pub fn disconnect(&mut self)
        ensures
            final(self)@ == disconnect_transition(old(self)@),
    {
        self.state = LinkState::Disconnected;
    }

    /// Decides whether a message goes to the outbound queue: yes exactly
    /// when connected, otherwise it is dropped, never blocking the
    /// caller.
    pub fn send(&self, m: Message) -> (r: Option<Message>)
        ensures
            r == send_decision(self@, m),
    {
        match self.state {
            LinkState::Connected { .. } => Some(m),
            LinkState::Disconnected => None,
        }
    }

    /// One keepalive timer tick: connected, returns the ping to enqueue
    /// (carrying the pre-tick sequence number) and advances the counter;
    /// disconnected, returns nothing and changes nothing.
    pub fn keepalive_tick(&mut self) -> (ping: Option<Message>)
        ensures
            final(self)@ == keepalive_transition(old(self)@).0,
            ping == keepalive_transition(old(self)@).1,
    {
        match self.state {
            LinkState::Disconnected => None,
            LinkState::Connected { ping_sequence } => {
                let next: u16 = if ping_sequence == 0xFFFF {
                    0
                } else {
                    ping_sequence + 1
                };
                self.state = LinkState::Connected { ping_sequence: next };
                Some(Message::Ping(ping_sequence))
            },
        }
    }

    /// Handles one event: applies [`manager_step`] to the current state
    /// and returns the action the caller must perform.
    pub fn handle_event(&mut self, ev: ManagerEvent) -> (a: ManagerAction)
        ensures
            final(self)@ == manager_step(old(self)@, ev).0,
            a == manager_step(old(self)@, ev).1,
    {
        match ev {
            ManagerEvent::ConnectRequest { port_opened } => {
                let r = self.connect(port_opened);
                ManagerAction::ConnectOutcome(r)
            },
            ManagerEvent::DisconnectRequest => {
                self.disconnect();
                ManagerAction::Idle
            },
            ManagerEvent::ConnectionError => {
                self.disconnect();
                ManagerAction::Idle
            },
            ManagerEvent::KeepAlive => {
                match self.keepalive_tick() {
                    Some(p) => ManagerAction::Enqueue(p),
                    None => ManagerAction::Idle,
                }
            },
            ManagerEvent::Received(m) => ManagerAction::Deliver(m),
        }
    }
}

/// Idempotent disconnect: a second disconnect right after a first one
/// ends in the same state and produces the same (empty) action, so no
/// duplicate events can arise from it.
pub proof fn lemma_disconnect_idempotent(s: LinkState)
    ensures
        manager_step(manager_step(s, ManagerEvent::DisconnectRequest).0,
            ManagerEvent::DisconnectRequest).0
            == manager_step(s, ManagerEvent::DisconnectRequest).0,
        manager_step(manager_step(s, ManagerEvent::DisconnectRequest).0,
            ManagerEvent::DisconnectRequest).1
            == manager_step(s, ManagerEvent::DisconnectRequest).1,
        manager_step(s, ManagerEvent::DisconnectRequest).1 is Idle,
{
}

/// The pings emitted by `n` consecutive keepalive ticks from state `s`,
/// in order.
pub open spec fn keepalive_pings(s: LinkState, n: nat) -> Seq<Message>
    decreases n,
{
    if n == 0 {
        Seq::empty()
    } else {
        let r = keepalive_transition(s);
        match r.1 {
            Some(p) => seq![p] + keepalive_pings(r.0, (n - 1) as nat),
            None => keepalive_pings(r.0, (n - 1) as nat),
        }
    }
}

/// Helper for the keepalive law, generalized over the starting sequence
/// number.
proof fn lemma_keepalive_from(start: u16, n: nat)
    requires
        start + n <= 0x10000,
    ensures
        keepalive_pings(LinkState::Connected { ping_sequence: start }, n).len() == n,
        forall|i: int|
            0 <= i < n ==> keepalive_pings(LinkState::Connected { ping_sequence: start }, n)[i]
                == Message::Ping((start + i) as u16),
    decreases n,
{
    if n > 0 {
        let s = LinkState::Connected { ping_sequence: start };
        let pings = keepalive_pings(s, n);
        if start == 0xFFFF {
            assert(n == 1);
            let rest = keepalive_pings(LinkState::Connected { ping_sequence: 0 }, 0);
            assert(rest =~= Seq::<Message>::empty());
            assert(pings =~= seq![Message::Ping(start)]);
        } else {
            lemma_keepalive_from((start + 1) as u16, (n - 1) as nat);
            let rest = keepalive_pings(
                LinkState::Connected { ping_sequence: (start + 1) as u16 },
                (n - 1) as nat,
            );
            assert(pings == seq![Message::Ping(start)] + rest);
            assert(pings.len() == n);
            assert forall|i: int| 0 <= i < n implies pings[i] == Message::Ping(
                (start + i) as u16,
            ) by {
                if i > 0 {
                    assert(pings[i] == rest[i - 1]);
                }
            }
        }
    }
}

/// The messages due at update number `c` of the simpler, counter-driven
/// liveness variant: a toggle signal every 20th update (keeping the
/// device's watchdog satisfied), a telemetry poll every 5th.
pub open spec fn scheduled_messages(c: u32) -> Seq<Message> {
    let led: Seq<Message> = if c % 20 == 0 {
        seq![Message::ToggleLed]
    } else {
        Seq::empty()
    };
    let poll: Seq<Message> = if c % 5 == 0 {
        seq![Message::QueryMotion]
    } else {
        Seq::empty()
    };
    led + poll
}

/// The simpler liveness driver: instead of sequence-numbered pings, a
/// fixed cadence of toggle signals and telemetry polls, driven by an
/// update counter.
pub struct TickScheduler {
    counter: u32,
}

impl View for TickScheduler {
    type V = u32;

    closed spec fn view(&self) -> u32 {
        self.counter
    }
}

impl TickScheduler {
    /// A fresh scheduler; its first update is number one.
    pub fn new() -> (t: Self)
        ensures
            t@ == 0,
    {
        TickScheduler { counter: 0 }
    }

    /// One update: advances the counter (wrapping) and returns exactly
    /// the messages due at the new count, toggle signal first.
    pub fn tick(&mut self) -> (due: Vec<Message>)
        ensures
            final(self)@ == (if old(self)@ == u32::MAX {
                0u32
            } else {
                (old(self)@ + 1) as u32
            }),
            due@ == scheduled_messages(final(self)@),
    {
        self.counter = if self.counter == u32::MAX {
            0
        } else {
            self.counter + 1
        };
        let mut due: Vec<Message> = Vec::new();
        if self.counter % 20 == 0 {
            due.push(Message::ToggleLed);
        }
        if self.counter % 5 == 0 {
            due.push(Message::QueryMotion);
        }
        assert(due@ =~= scheduled_messages(self.counter));
        due
    }
}

/// Keepalive law: after a connect, `n` keepalive ticks with no other
/// traffic enqueue exactly one ping each, with strictly increasing
/// sequence numbers `0, 1, ..., n-1`.  (After 65536 ticks the 16-bit
/// counter wraps and the sequence restarts; such runs are excluded.)
pub proof fn lemma_keepalive_sequence(n: nat)
    requires
        n <= 0x10000,
    ensures
        keepalive_pings(LinkState::Connected { ping_sequence: 0 }, n).len() == n,
        forall|i: int|
            0 <= i < n ==> keepalive_pings(LinkState::Connected { ping_sequence: 0 }, n)[i]
                == Message::Ping(i as u16),
        connect_transition(LinkState::Disconnected, true).0 == (LinkState::Connected {
            ping_sequence: 0,
        }),
{
    lemma_keepalive_from(0, n);
}

} // verus!
