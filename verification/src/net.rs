//! Identifiers of the message channels between a client and the game host.

use vstd::prelude::*;

verus! {

/// Channels on which a client sends to the host.
#[derive(Clone, Copy, Debug, PartialEq, Eq, Structural)]
pub enum ClientChannel {
    Input,
    Command,
}

/// Channels on which the host sends to its clients.
#[derive(Clone, Copy, Debug, PartialEq, Eq, Structural)]
pub enum ServerChannel {
    ServerMessages,
    NetworkFrame,
}

/// How a reliable channel is set up: its number on the wire and, where it is
/// not left to the transport, the time in milliseconds after which an
/// unacknowledged message is sent again.
#[derive(Clone, Copy, Debug, PartialEq, Eq, Structural)]
pub struct ReliableChannel {
    pub channel_id: u8,
    pub message_resend_millis: Option<u64>,
}

impl ClientChannel {
    /// The channel's number on the wire.
    pub open spec fn spec_id(&self) -> u8 {
        match self {
            ClientChannel::Input => 0,
            ClientChannel::Command => 1,
        }
    }

    /// The channel's number on the wire: `Input` is 0, `Command` is 1.
    pub fn id(&self) -> (n: u8)
        ensures
            n == self.spec_id(),
    {
        match self {
            ClientChannel::Input => 0,
            ClientChannel::Command => 1,
        }
    }

    /// The client's channels in the order of their numbers. Both resend at
    /// once.
    pub fn channels_config() -> (channels: Vec<ReliableChannel>)
        ensures
            channels@.len() == 2,
            channels@[0] == (ReliableChannel {
                channel_id: ClientChannel::Input.spec_id(),
                message_resend_millis: Some(0),
            }),
            channels@[1] == (ReliableChannel {
                channel_id: ClientChannel::Command.spec_id(),
                message_resend_millis: Some(0),
            }),
    {
        let mut channels: Vec<ReliableChannel> = Vec::new();
        channels.push(
            ReliableChannel { channel_id: ClientChannel::Input.id(), message_resend_millis: Some(0) },
        );
        channels.push(
            ReliableChannel { channel_id: ClientChannel::Command.id(), message_resend_millis: Some(0) },
        );
        channels
    }
}

impl ServerChannel {
    /// The channel's number on the wire.
    pub open spec fn spec_id(&self) -> u8 {
        match self {
            ServerChannel::NetworkFrame => 0,
            ServerChannel::ServerMessages => 1,
        }
    }

    /// The channel's number on the wire: `NetworkFrame` is 0,
    /// `ServerMessages` is 1.
    pub fn id(&self) -> (n: u8)
        ensures
            n == self.spec_id(),
    {
        match self {
            ServerChannel::NetworkFrame => 0,
            ServerChannel::ServerMessages => 1,
        }
    }

    /// The host's channels in the order of their numbers. Network frames
    /// resend as the transport sees fit, server messages after 200
    /// milliseconds.
    pub fn channels_config() -> (channels: Vec<ReliableChannel>)
        ensures
            channels@.len() == 2,
            channels@[0] == (ReliableChannel {
                channel_id: ServerChannel::NetworkFrame.spec_id(),
                message_resend_millis: None,
            }),
            channels@[1] == (ReliableChannel {
                channel_id: ServerChannel::ServerMessages.spec_id(),
                message_resend_millis: Some(200),
            }),
    {
        let mut channels: Vec<ReliableChannel> = Vec::new();
        channels.push(
            ReliableChannel { channel_id: ServerChannel::NetworkFrame.id(), message_resend_millis: None },
        );
        channels.push(
            ReliableChannel {
                channel_id: ServerChannel::ServerMessages.id(),
                message_resend_millis: Some(200),
            },
        );
        channels
    }
}

/// No two channels of one side share a number.
pub proof fn channel_ids_differ(a: ClientChannel, b: ClientChannel, c: ServerChannel, d: ServerChannel)
    ensures
        a.spec_id() == b.spec_id() ==> a == b,
        c.spec_id() == d.spec_id() ==> c == d,
{
}

/// The host's request that a client send its profile.
#[derive(Clone, Copy, Debug, PartialEq, Eq)]
pub struct RequestProfileCmd {
    id: u64,
}

impl RequestProfileCmd {
    /// The client that is asked.
    pub closed spec fn spec_id(&self) -> u64 {
        self.id
    }

    /// A request to the client `id`.
    pub fn new(id: u64) -> (cmd: RequestProfileCmd)
        ensures
            cmd.spec_id() == id,
    {
        RequestProfileCmd { id }
    }

    /// The client that is asked.
    pub fn id(&self) -> (id: u64)
        ensures
            id == self.spec_id(),
    {
        self.id
    }
}

} // verus!
