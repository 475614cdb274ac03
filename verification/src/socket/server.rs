//! What the gateway does with a frame that a client sent.

use crate::socket::event::WsEvent;
use crate::socket::stats::ServerStats;
use vstd::prelude::*;
use vstd::string::StringExecFns;

verus! {

/// The kinds of frames that a client can send.
#[derive(Debug, Clone, Copy, PartialEq, Eq, Structural)]
pub enum MessageKind {
    Text,
    Binary,
    Ping,
    Pong,
    Close,
    Frame,
}

impl MessageKind {
    /// Whether a frame of this kind carries a payload that is read as an
    /// event: text and binary frames do.
    pub open spec fn carries_event(self) -> bool {
        self == MessageKind::Text || self == MessageKind::Binary
    }

    /// Whether a frame of this kind carries a payload that is read as an
    /// event.
    pub fn is_payload(&self) -> (payload: bool)
        ensures
            payload == self.carries_event(),
    {
        match self {
            MessageKind::Text => true,
            MessageKind::Binary => true,
            _ => false,
        }
    }
}

/// What became of a frame.
#[derive(Debug, Clone, Copy, PartialEq, Eq, Structural)]
pub enum HandlingResult {
    /// The frame was handled; the connection goes on.
    Handled,
    /// The frame closes the connection: its task ends without an error.
    Closed,
}

impl HandlingResult {
    /// Whether the connection's task ends after this frame.
    pub fn ends_connection(&self) -> (ends: bool)
        ensures
            ends == (*self == HandlingResult::Closed),
    {
        match self {
            HandlingResult::Closed => true,
            HandlingResult::Handled => false,
        }
    }
}

/// What the gateway does with a frame.
pub struct Handling {
    /// The event to hand to the dispatcher, if the frame carries one. What
    /// the dispatcher makes of it, an error too, is noted and ends nothing.
    pub dispatch: Option<WsEvent>,
    pub result: HandlingResult,
}

/// What the gateway does with a frame of the kind `kind` whose payload reads
/// as `event`, or as no event where it is not the JSON of one. An event of a
/// text or binary frame goes to the dispatcher; a payload that is no event is
/// passed over; a close frame ends the connection.
pub fn handle_message(kind: MessageKind, event: Option<WsEvent>) -> (handling: Handling)
    ensures
        handling.dispatch == if kind.carries_event() {
            event
        } else {
            None
        },
        handling.result == if kind == MessageKind::Close {
            HandlingResult::Closed
        } else {
            HandlingResult::Handled
        },
{
    let dispatch = if kind.is_payload() {
        event
    } else {
        None
    };
    let result = match kind {
        MessageKind::Close => HandlingResult::Closed,
        _ => HandlingResult::Handled,
    };
    Handling { dispatch, result }
}

/// What happens to a connection, as the server's counters see it.
#[derive(Debug, Clone, Copy, PartialEq, Eq, Structural)]
pub enum ConnectionEvent {
    /// The handshake with a client that connected has ended, well or not.
    Handshake(bool),
    /// The task of a client that was served has ended.
    Ended,
}

/// Counts a connection event, and says whether the client is to be served:
/// a client whose handshake went well counts as connected and in the total,
/// and is served; one whose handshake failed is passed over; a client whose
/// task has ended counts as connected no more.
pub fn track(stats: &mut ServerStats, event: ConnectionEvent) -> (serve: bool)
    ensures
        serve == (event == ConnectionEvent::Handshake(true)),
        final(stats).current() == match event {
            ConnectionEvent::Handshake(true) => (old(stats).current() + 1) % 0x1_0000_0000_0000_0000,
            ConnectionEvent::Handshake(false) => old(stats).current(),
            ConnectionEvent::Ended => (old(stats).current() - 1) % 0x1_0000_0000_0000_0000,
        },
        final(stats).total() == match event {
            ConnectionEvent::Handshake(true) => (old(stats).total() + 1) % 0x1_0000_0000_0000_0000,
            _ => old(stats).total(),
        },
{
    match event {
        ConnectionEvent::Handshake(true) => {
            stats.inc_current_clients();
            true
        },
        ConnectionEvent::Handshake(false) => false,
        ConnectionEvent::Ended => {
            stats.dec_current_clients();
            false
        },
    }
}

/// How a write to a client ended.
#[derive(Debug, Clone, Copy, PartialEq, Eq, Structural)]
pub enum WriteOutcome {
    /// The frame was sent.
    Sent,
    /// The connection was closed before.
    AlreadyClosed,
    /// The connection closed in the normal way.
    ConnectionClosed,
    /// The write failed for another reason.
    Failed,
}

/// Whether a task that relays messages to a client goes on after a write
/// that ended as `outcome`. On a closed connection the task ends without an
/// error; any other failure is noted, and the task goes on.
pub fn relay_goes_on(outcome: WriteOutcome) -> (goes_on: bool)
    ensures
        goes_on == !(outcome == WriteOutcome::AlreadyClosed || outcome
            == WriteOutcome::ConnectionClosed),
{
    match outcome {
        WriteOutcome::AlreadyClosed => false,
        WriteOutcome::ConnectionClosed => false,
        _ => true,
    }
}

/// The address that the gateway listens on: the host, a colon and the port.
pub fn listen_address(host: &str, port: &str) -> (address: String)
    ensures
        address@ == host@ + seq![':'] + port@,
{
    let mut address = String::from_str(host);
    address.push(':');
    address.append(port);
    address
}

} // verus!
