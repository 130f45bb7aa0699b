use vstd::prelude::*;

use crate::history::UserMessage;

verus! {

/// An outbound event, before it is framed for the wire.
#[derive(Debug, PartialEq, Eq)]
pub enum ServerEvent {
    /// Sent to a new connection with the id it was given.
    LoginAck { id: usize },
    /// One message of the history, replayed to a new connection.
    History { message: UserMessage },
    /// A connection's display name, set or replayed.
    PresenceChanged { user: usize, name: String },
    /// A chat message, as it was appended to the history.
    Message { message: UserMessage },
    /// Tells a new connection of a peer that was already there.
    PeerPresent { peer: usize },
    /// Tells a peer of a new connection.
    PeerJoined { peer: usize },
    /// Tells the remaining connections of one that left.
    PeerLeft { peer: usize },
}

/// The wire name of an event's action.
pub open spec fn action_name(e: ServerEvent) -> Seq<char> {
    match e {
        ServerEvent::LoginAck { .. } => "login-ack"@,
        ServerEvent::History { .. } => "history"@,
        ServerEvent::PresenceChanged { .. } => "presence-changed"@,
        ServerEvent::Message { .. } => "message"@,
        ServerEvent::PeerPresent { .. } => "peer-present"@,
        ServerEvent::PeerJoined { .. } => "peer-joined"@,
        ServerEvent::PeerLeft { .. } => "peer-left"@,
    }
}

impl ServerEvent {
    /// The wire name of this event's action.
    pub fn action(&self) -> (r: &'static str)
        ensures
            r@ == action_name(*self),
    {
        match self {
            ServerEvent::LoginAck { .. } => "login-ack",
            ServerEvent::History { .. } => "history",
            ServerEvent::PresenceChanged { .. } => "presence-changed",
            ServerEvent::Message { .. } => "message",
            ServerEvent::PeerPresent { .. } => "peer-present",
            ServerEvent::PeerJoined { .. } => "peer-joined",
            ServerEvent::PeerLeft { .. } => "peer-left",
        }
    }
}

/// One event to be written to each of a set of connections, taken as a
/// snapshot of the registry when the event was produced.
#[derive(Debug)]
pub struct Broadcast {
    pub recipients: Vec<usize>,
    pub event: ServerEvent,
}

/// What a new connection is owed: `replay` goes to the new connection in
/// order, and each id of `announce` gets a `PeerJoined` event for it.
#[derive(Debug)]
pub struct JoinPlan {
    pub id: usize,
    pub replay: Vec<ServerEvent>,
    pub announce: Vec<usize>,
}

} // verus!
