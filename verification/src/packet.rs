//! The messages client and server exchange, by kind, and the channel each
//! kind travels on.

use vstd::prelude::*;

verus! {

/// A delivery channel: unreliable, reliable in any order, or reliable and
/// in the order sent.
#[derive(Clone, Copy, PartialEq, Eq, Debug, Structural)]
pub enum Channel {
    Unreliable,
    ReliableUnordered,
    ReliableOrdered,
}

/// The kinds of message a client sends.
#[derive(Clone, Copy, PartialEq, Eq, Debug, Structural)]
pub enum ClientPacketKind {
    /// A chat line.
    ChatMessage,
    /// A block placed or broken at a world position.
    PlaceBlock,
    /// The chunks the client starts loading.
    LoadChunks,
    /// The player's position.
    Move,
}

/// The kinds of message the server sends.
#[derive(Clone, Copy, PartialEq, Eq, Debug, Structural)]
pub enum ServerPacketKind {
    /// A chat line of a player.
    ChatMessage,
    /// A player joined, with where they stand.
    PlayerConnected,
    /// A player left, with the reason.
    PlayerDisconnected,
    /// The world's seed and where the joining player stands.
    ConnectionInfo,
    /// The saved changes of a chunk.
    ChunkUpdate,
    /// Where every player stands.
    PlayerData,
}

/// Only the player's position, which is sent again and again, may be lost;
/// every other client message arrives, in order.
pub open spec fn client_channel(kind: ClientPacketKind) -> Channel {
    match kind {
        ClientPacketKind::Move => Channel::Unreliable,
        _ => Channel::ReliableOrdered,
    }
}

/// Positions of all players may be lost; chunk changes arrive in any
/// order; everything else arrives in order.
pub open spec fn server_channel(kind: ServerPacketKind) -> Channel {
    match kind {
        ServerPacketKind::PlayerData => Channel::Unreliable,
        ServerPacketKind::ChunkUpdate => Channel::ReliableUnordered,
        _ => Channel::ReliableOrdered,
    }
}

impl ClientPacketKind {
    /// The channel a client message of this kind is sent on.
    pub fn channel(self) -> (r: Channel)
        ensures
            r == client_channel(self),
    {
        match self {
            ClientPacketKind::ChatMessage => Channel::ReliableOrdered,
            ClientPacketKind::PlaceBlock => Channel::ReliableOrdered,
            ClientPacketKind::LoadChunks => Channel::ReliableOrdered,
            ClientPacketKind::Move => Channel::Unreliable,
        }
    }
}

impl ServerPacketKind {
    /// The channel a server message of this kind is sent on.
    pub fn channel(self) -> (r: Channel)
        ensures
            r == server_channel(self),
    {
        match self {
            ServerPacketKind::ChatMessage => Channel::ReliableOrdered,
            ServerPacketKind::PlayerConnected => Channel::ReliableOrdered,
            ServerPacketKind::PlayerDisconnected => Channel::ReliableOrdered,
            ServerPacketKind::ConnectionInfo => Channel::ReliableOrdered,
            ServerPacketKind::ChunkUpdate => Channel::ReliableUnordered,
            ServerPacketKind::PlayerData => Channel::Unreliable,
        }
    }
}

} // verus!
