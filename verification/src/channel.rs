//! The channels between server and clients, and what each one promises.

use vstd::prelude::*;
use vstd::std_specs::convert::FromSpecImpl;

verus! {

/// The version of the message schema. Two ends talk only if theirs agree.
pub const PROTOCOL_ID: u64 = 7;

/// What a channel promises of the messages sent on it.
#[derive(Debug, Clone, Copy, PartialEq, Eq, Structural)]
pub enum Delivery {
    /// Every message arrives, once, in the order sent.
    ReliableOrdered,
    /// A message may be lost; one that arrives is newer than all that
    /// arrived before it.
    UnreliableSequenced,
}

/// The channels from a client to the server.
#[derive(Debug, Clone, Copy, PartialEq, Eq, Structural)]
pub enum ClientChannel {
    /// Carries the control sample of each tick.
    Input,
    /// Carries the requests to take part and to leave.
    Command,
}

/// The channels from the server to a client.
#[derive(Debug, Clone, Copy, PartialEq, Eq, Structural)]
pub enum ServerChannel {
    /// Carries the control messages: players created and removed.
    ServerMessages,
    /// Carries the snapshots of all positions.
    NetworkedEntities,
}

impl ClientChannel {
    /// The number the transport knows this channel by.
    pub open spec fn spec_id(self) -> u8 {
        match self {
            ClientChannel::Command => 0,
            ClientChannel::Input => 1,
        }
    }

    /// What this channel promises. Losing a request or a sample is not
    /// acceptable, so both channels are reliable.
    pub open spec fn spec_delivery(self) -> Delivery {
        Delivery::ReliableOrdered
    }

    /// What this channel promises.
    pub fn delivery(self) -> (d: Delivery)
        ensures
            d == self.spec_delivery(),
    {
        Delivery::ReliableOrdered
    }
}

impl ServerChannel {
    /// The number the transport knows this channel by.
    pub open spec fn spec_id(self) -> u8 {
        match self {
            ServerChannel::NetworkedEntities => 0,
            ServerChannel::ServerMessages => 1,
        }
    }

    /// What this channel promises. A lost create or remove would leave a
    /// client's view wrong for good, so control messages go reliably; a lost
    /// snapshot is healed by the next one, so snapshots do not.
    pub open spec fn spec_delivery(self) -> Delivery {
        match self {
            ServerChannel::ServerMessages => Delivery::ReliableOrdered,
            ServerChannel::NetworkedEntities => Delivery::UnreliableSequenced,
        }
    }

    /// What this channel promises.
    pub fn delivery(self) -> (d: Delivery)
        ensures
            d == self.spec_delivery(),
    {
        match self {
            ServerChannel::ServerMessages => Delivery::ReliableOrdered,
            ServerChannel::NetworkedEntities => Delivery::UnreliableSequenced,
        }
    }
}

impl From<ClientChannel> for u8 {
    fn from(channel_id: ClientChannel) -> (id: u8) {
        match channel_id {
            ClientChannel::Command => 0,
            ClientChannel::Input => 1,
        }
    }
}

impl FromSpecImpl<ClientChannel> for u8 {
    open spec fn obeys_from_spec() -> bool {
        true
    }

    open spec fn from_spec(channel_id: ClientChannel) -> u8 {
        channel_id.spec_id()
    }
}

impl From<ServerChannel> for u8 {
    fn from(channel_id: ServerChannel) -> (id: u8) {
        match channel_id {
            ServerChannel::NetworkedEntities => 0,
            ServerChannel::ServerMessages => 1,
        }
    }
}

impl FromSpecImpl<ServerChannel> for u8 {
    open spec fn obeys_from_spec() -> bool {
        true
    }

    open spec fn from_spec(channel_id: ServerChannel) -> u8 {
        channel_id.spec_id()
    }
}

} // verus!
