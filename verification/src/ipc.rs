//! The decisions around the local socket and the event bus: start-up over
//! an existing socket, what a subscriber does on each signal of the bus,
//! what is taken in from clients, and what a client shows.

use vstd::prelude::*;
use crate::event::{EventDetails, EventType, SecurityEvent, Severity};
use crate::text::concat;
use crate::time::Timestamp;

verus! {

/// How many events the bus holds for a subscriber that does not keep up.
pub const BUS_CAPACITY: usize = 1000;

/// The permissions of the socket: every user may connect.
pub const SOCKET_MODE: u32 = 0o666;

/// What start-up does about the socket path.
#[derive(Debug, Clone, Copy, PartialEq, Eq, Structural)]
pub enum StartupAction {
    /// Nothing is in the way.
    Bind,
    /// A socket is left over from an instance that is gone: remove it.
    RemoveStaleThenBind,
    /// Another instance answers on the socket: do not start.
    Refuse,
}

/// Decides what start-up does, from whether the socket path exists and
/// whether a connection to it succeeds.
pub fn plan_startup(socket_exists: bool, peer_answers: bool) -> (r: StartupAction)
    ensures
        r == if !socket_exists {
            StartupAction::Bind
        } else if peer_answers {
            StartupAction::Refuse
        } else {
            StartupAction::RemoveStaleThenBind
        },
        r == StartupAction::Refuse <==> socket_exists && peer_answers,
{
    if !socket_exists {
        StartupAction::Bind
    } else if peer_answers {
        StartupAction::Refuse
    } else {
        StartupAction::RemoveStaleThenBind
    }
}

/// The message with which start-up is refused.
pub fn refusal_message(socket_path: &str) -> (r: String)
    ensures
        r@ == "Another instance is already running on socket: "@ + socket_path@,
{
    concat("Another instance is already running on socket: ", socket_path)
}

/// What the bus hands a subscriber.
#[derive(Debug, Clone, Copy, PartialEq, Eq, Structural)]
pub enum BusSignal {
    /// The next event.
    Event,
    /// The subscriber fell behind, and this many events were dropped for it.
    Lagged(u64),
    /// Every sender is gone.
    Closed,
}

/// What a subscriber does next.
#[derive(Debug, Clone, Copy, PartialEq, Eq, Structural)]
pub enum ClientStep {
    /// Write the event to the client as one line.
    Write,
    /// Go on with the next signal; the client stays connected.
    Continue,
    /// End this connection.
    Stop,
}

/// A subscriber writes each event, goes on after a lag, and ends when the
/// bus is closed.
pub fn on_bus_signal(signal: BusSignal) -> (r: ClientStep)
    ensures
        r == match signal {
            BusSignal::Event => ClientStep::Write,
            BusSignal::Lagged(_) => ClientStep::Continue,
            BusSignal::Closed => ClientStep::Stop,
        },
{
    match signal {
        BusSignal::Event => ClientStep::Write,
        BusSignal::Lagged(_) => ClientStep::Continue,
        BusSignal::Closed => ClientStep::Stop,
    }
}

/// A subscriber whose write failed ends; the others are not touched.
pub fn after_write(succeeded: bool) -> (r: ClientStep)
    ensures
        r == if succeeded {
            ClientStep::Continue
        } else {
            ClientStep::Stop
        },
{
    if succeeded {
        ClientStep::Continue
    } else {
        ClientStep::Stop
    }
}

/// The line that carries one event: its text and a line feed.
pub fn frame_line(json: &str) -> (r: String)
    ensures
        r@ == json@.push('\n'),
{
    let mut out = json.to_owned();
    out.push('\n');
    out
}

/// Takes in an event that a client submitted. The instant that the client
/// gave is kept; where it gave none, the event gets the instant `now`.
pub fn ingest(
    timestamp: Option<Timestamp>,
    event_type: EventType,
    path: String,
    details: EventDetails,
    now: Timestamp,
) -> (ev: SecurityEvent)
    ensures
        match timestamp {
            Some(t) => ev.timestamp.spec_secs() == t.spec_secs() && ev.timestamp.spec_nanos()
                == t.spec_nanos(),
            None => ev.timestamp.spec_secs() == now.spec_secs() && ev.timestamp.spec_nanos()
                == now.spec_nanos(),
        },
        ev.event_type == event_type,
        ev.path == path,
        ev.details == details,
{
    let timestamp = match timestamp {
        Some(t) => t,
        None => now,
    };
    SecurityEvent { timestamp, event_type, path, details }
}

/// How a client follows the events.
#[derive(Debug, Clone, Copy, PartialEq, Eq, Structural)]
pub enum ClientMode {
    /// Everything that arrives, events that the bus had buffered included.
    Monitor,
    /// Only what happened after the client connected.
    Listen,
}

/// An event passes a severity filter when there is none or when its
/// severity is at least the filter's.
pub open spec fn passes_filter(severity: Severity, filter: Option<Severity>) -> bool {
    match filter {
        Some(min) => severity.level() >= min.level(),
        None => true,
    }
}

/// Whether a client shows an event: in listen mode only events later than
/// the connection, in both modes only events that pass the filter.
pub fn should_show(
    mode: ClientMode,
    event: &SecurityEvent,
    connect_time: &Timestamp,
    filter: Option<Severity>,
) -> (r: bool)
    ensures
        r == ((mode == ClientMode::Listen ==> event.timestamp.is_after(connect_time))
            && passes_filter(event.details.severity, filter)),
{
    let fresh = match mode {
        ClientMode::Monitor => true,
        ClientMode::Listen => event.timestamp.later_than(connect_time),
    };
    let wanted = match filter {
        Some(min) => event.details.severity.at_least(&min),
        None => true,
    };
    fresh && wanted
}

/// The directory entry of a process in the process filesystem.
pub fn process_path(pid: u32) -> (r: String)
    ensures
        r@ == "/proc/"@ + crate::text::decimal_text(pid as nat),
{
    concat("/proc/", crate::text::decimal(pid as u64).as_str())
}

} // verus!
