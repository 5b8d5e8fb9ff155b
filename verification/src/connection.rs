//! Decisions of the connection manager: which serial port to keep open and
//! when to try (again) to open it.
//!
//! The manager reacts to commands and to a periodic timer. After a
//! `Connect` command, and on every timer tick after it, it tries to open the
//! requested port, unless the port name is blank or a port is already
//! attached: a device that is unplugged and plugged back in is reopened,
//! however long it was away. A later `Connect` replaces the requested port;
//! a `Disconnect` forgets it and closes the attached one.
use vstd::prelude::*;
use crate::text::{trim, trimmed};

verus! {

/// A request to the connection manager.
pub enum ConnectionCommand {
    /// Open `port` at `baud_rate`, and keep it open.
    Connect { port: String, baud_rate: u32 },
    /// Close the port and stop reconnecting.
    Disconnect,
}

/// Something the connection manager reacts to.
pub enum ConnectionEvent {
    /// A command arrived.
    Command(ConnectionCommand),
    /// The reconnect timer fired.
    Timer,
}

/// What the connection manager does in reaction.
pub enum ConnectionAction {
    /// Nothing.
    Nothing,
    /// Close the attached port.
    ClosePort,
    /// Try to open `port` at `baud_rate`; when `prime_first` holds, first
    /// open it briefly at `PRIME_BAUD_RATE` to wake the device.
    Open { port: String, baud_rate: u32, prime_first: bool },
}

/// The rate at which the device needs waking before it syncs.
pub const PRIMED_BAUD_RATE: u32 = 38400;

/// The rate at which a port is opened briefly to wake the device.
pub const PRIME_BAUD_RATE: u32 = 9600;

/// The rate used when a request names none.
pub const DEFAULT_BAUD_RATE: u32 = 38400;

/// The state of the connection manager.
#[verifier::ext_equal]
pub struct ReconnectState {
    /// The port (name and rate) to keep open, if any.
    pub target: Option<(Seq<char>, u32)>,
}

/// The state after the event.
pub open spec fn after_event(s: ReconnectState, e: ConnectionEvent) -> ReconnectState {
    match e {
        ConnectionEvent::Command(ConnectionCommand::Connect { port, baud_rate }) => ReconnectState {
            target: Some((port@, baud_rate)),
        },
        ConnectionEvent::Command(ConnectionCommand::Disconnect) => ReconnectState { target: None },
        ConnectionEvent::Timer => s,
    }
}

/// The event asks for the port to be checked now (everything but a
/// `Disconnect`).
pub open spec fn checks_now(e: ConnectionEvent) -> bool {
    match e {
        ConnectionEvent::Command(ConnectionCommand::Disconnect) => false,
        _ => true,
    }
}

/// An attempt to open the port is due: a non-blank port is requested and
/// none is attached.
pub open spec fn should_open(s: ReconnectState, port_active: bool) -> bool {
    match s.target {
        Some((name, _)) => trimmed(name).len() > 0 && !port_active,
        None => false,
    }
}

/// The state after `n` timer ticks.
pub open spec fn after_ticks(s: ReconnectState, n: nat) -> ReconnectState
    decreases n,
{
    if n == 0 {
        s
    } else {
        after_event(after_ticks(s, (n - 1) as nat), ConnectionEvent::Timer)
    }
}

/// The connection manager.
pub struct Reconnector {
    target: Option<(String, u32)>,
}

impl View for Reconnector {
    type V = ReconnectState;

    closed spec fn view(&self) -> ReconnectState {
        ReconnectState {
            target: match self.target {
                Some((name, rate)) => Some((name@, rate)),
                None => None,
            },
        }
    }
}

impl Reconnector {
    /// A manager with no port requested.
    pub fn new() -> (r: Reconnector)
        ensures
            r@ == (ReconnectState { target: None }),
    {
        Reconnector { target: None }
    }

    /// Reacts to `event`, given whether a port is attached now: a `Connect`
    /// or a timer tick opens the requested port when that is due, and a
    /// `Disconnect` closes the attached port.
    pub fn step(&mut self, event: ConnectionEvent, port_active: bool) -> (action: ConnectionAction)
        ensures
            final(self)@ == after_event(old(self)@, event),
            checks_now(event) && should_open(final(self)@, port_active) ==> (action matches
                ConnectionAction::Open { port, baud_rate, prime_first } && final(self)@.target
                == Some((port@, baud_rate)) && prime_first == (baud_rate == PRIMED_BAUD_RATE)),
            checks_now(event) && !should_open(final(self)@, port_active) ==> action is Nothing,
            !checks_now(event) ==> action is ClosePort,
    {
        match event {
            ConnectionEvent::Command(ConnectionCommand::Connect { port, baud_rate }) => {
                self.target = Some((port, baud_rate));
            },
            ConnectionEvent::Command(ConnectionCommand::Disconnect) => {
                self.target = None;
                assert(self@ =~= after_event(old(self)@, event));
                return ConnectionAction::ClosePort;
            },
            ConnectionEvent::Timer => {},
        }
        assert(self@ =~= after_event(old(self)@, event));
        match &self.target {
            Some((name, rate)) => {
                let blank = trim(name.as_str()).is_empty();
                proof {
                    assert(name@ == self@.target.unwrap().0);
                }
                if blank || port_active {
                    return ConnectionAction::Nothing;
                }
                let port = name.clone();
                let baud_rate = *rate;
                ConnectionAction::Open {
                    port,
                    baud_rate,
                    prime_first: baud_rate == PRIMED_BAUD_RATE,
                }
            },
            None => ConnectionAction::Nothing,
        }
    }

    /// The port to keep open, if any.
    pub fn current(&self) -> (r: Option<(String, u32)>)
        ensures
            r matches Some((name, rate)) ==> self@.target == Some((name@, rate)),
            r is None ==> self@.target is None,
    {
        match &self.target {
            Some((name, rate)) => Some((name.clone(), *rate)),
            None => None,
        }
    }
}

/// Once a non-blank port is requested, every timer tick while no port is
/// attached tries to open it again, without limit: however many ticks
/// passed, the requested port is unchanged and an attempt is due.
pub proof fn law_retries_forever(s: ReconnectState, n: nat)
    requires
        s.target matches Some((name, _)) && trimmed(name).len() > 0,
    ensures
        after_ticks(s, n) == s,
        should_open(after_ticks(s, n), false),
    decreases n,
{
    if n > 0 {
        law_retries_forever(s, (n - 1) as nat);
    }
}

/// After a `Connect`, however many timer ticks follow, the port and rate
/// tried are those of that `Connect`; an earlier request is never tried
/// again.
pub proof fn law_latest_connect_targeted(s: ReconnectState, port: String, baud_rate: u32, n: nat)
    ensures
        after_ticks(
            after_event(s, ConnectionEvent::Command(ConnectionCommand::Connect { port, baud_rate })),
            n,
        ).target == Some((port@, baud_rate)),
    decreases n,
{
    if n > 0 {
        law_latest_connect_targeted(s, port, baud_rate, (n - 1) as nat);
    }
}

/// After a `Disconnect`, no timer tick opens a port until a new `Connect`.
pub proof fn law_disconnect_stops(s: ReconnectState, port_active: bool, n: nat)
    ensures
        after_ticks(
            after_event(s, ConnectionEvent::Command(ConnectionCommand::Disconnect)),
            n,
        ).target is None,
        !should_open(
            after_ticks(
                after_event(s, ConnectionEvent::Command(ConnectionCommand::Disconnect)),
                n,
            ),
            port_active,
        ),
    decreases n,
{
    if n > 0 {
        law_disconnect_stops(s, port_active, (n - 1) as nat);
    }
}

/// A `Connect` to a non-blank port while none is attached is tried at once.
pub proof fn law_connect_tries_at_once(s: ReconnectState, port: String, baud_rate: u32)
    requires
        trimmed(port@).len() > 0,
    ensures
        should_open(
            after_event(
                s,
                ConnectionEvent::Command(ConnectionCommand::Connect { port, baud_rate }),
            ),
            false,
        ),
{
}

} // verus!
