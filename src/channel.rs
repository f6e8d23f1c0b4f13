//! The logical channels of a connection: their stable ids, reliability and
//! memory budgets, and what happens to a message that does not fit.
use vstd::prelude::*;

verus! {

/// Id of the reliable, ordered channel for session-control messages.
pub const CONTROL_CHANNEL_ID: u8 = 0;
/// Id of the unreliable channel for player inputs.
pub const INPUT_CHANNEL_ID: u8 = 1;
/// Id of the unreliable channel for world snapshots.
pub const SNAPSHOT_CHANNEL_ID: u8 = 2;

/// Memory budget of every channel, in bytes.
pub const CHANNEL_MEMORY_BUDGET: usize = 5242880;
/// Delay before an unacknowledged reliable message is sent again.
pub const RESEND_TIME_MILLIS: u64 = 200;
/// Bytes a connection may send per tick.
pub const AVAILABLE_BYTES_PER_TICK: u64 = 1048576;

#[derive(Clone, Copy, Debug, PartialEq, Eq, Structural)]
pub enum Reliability {
    ReliableOrdered { resend_time_millis: u64 },
    Unreliable,
}

/// The configuration of one channel.
#[derive(Clone, Copy, Debug, PartialEq, Eq, Structural)]
pub struct ChannelSettings {
    pub channel_id: u8,
    pub max_memory_usage_bytes: usize,
    pub reliability: Reliability,
}

/// A reliable channel's buffer would overflow: its budget is misconfigured.
#[derive(Clone, Copy, Debug, PartialEq, Eq, Structural)]
pub struct CapacityError {
    pub channel_id: u8,
}

/// What becomes of a message handed to a channel.
#[derive(Clone, Copy, Debug, PartialEq, Eq, Structural)]
pub enum Admission {
    /// It fits the budget and is queued.
    Queued,
    /// It does not fit an unreliable channel and is dropped.
    Dropped,
}

impl ChannelSettings {
    /// Decides the fate of a message of `len` bytes on this channel while
    /// `buffered` bytes wait: queued while the budget holds; past it, dropped
    /// on an unreliable channel and an error on a reliable one.
    pub fn accept(&self, buffered: usize, len: usize) -> (r: Result<Admission, CapacityError>)
        ensures
            buffered + len <= self.max_memory_usage_bytes ==> r == Ok::<
                Admission,
                CapacityError,
            >(Admission::Queued),
            buffered + len > self.max_memory_usage_bytes && self.reliability is Unreliable ==> r
                == Ok::<Admission, CapacityError>(Admission::Dropped),
            buffered + len > self.max_memory_usage_bytes && self.reliability is ReliableOrdered
                ==> r == Err::<Admission, CapacityError>(
                CapacityError { channel_id: self.channel_id },
            ),
    {
        if buffered <= self.max_memory_usage_bytes && len <= self.max_memory_usage_bytes - buffered {
            Ok(Admission::Queued)
        } else {
            match self.reliability {
                Reliability::Unreliable => Ok(Admission::Dropped),
                Reliability::ReliableOrdered { .. } => Err(
                    CapacityError { channel_id: self.channel_id },
                ),
            }
        }
    }
}

/// The client's channels: the input channel, unreliable.
pub open spec fn client_channels() -> Seq<ChannelSettings> {
    seq![
        ChannelSettings {
            channel_id: INPUT_CHANNEL_ID,
            max_memory_usage_bytes: CHANNEL_MEMORY_BUDGET,
            reliability: Reliability::Unreliable,
        },
    ]
}

/// The server's channels: the control channel, reliable and ordered, and
/// the snapshot channel, unreliable.
pub open spec fn server_channels() -> Seq<ChannelSettings> {
    seq![
        ChannelSettings {
            channel_id: CONTROL_CHANNEL_ID,
            max_memory_usage_bytes: CHANNEL_MEMORY_BUDGET,
            reliability: Reliability::ReliableOrdered { resend_time_millis: RESEND_TIME_MILLIS },
        },
        ChannelSettings {
            channel_id: SNAPSHOT_CHANNEL_ID,
            max_memory_usage_bytes: CHANNEL_MEMORY_BUDGET,
            reliability: Reliability::Unreliable,
        },
    ]
}

/// The channels on which a client sends.
#[derive(Clone, Copy, Debug, PartialEq, Eq, Structural)]
pub enum ClientChannel {
    PlayerInput,
}

/// The channels on which the server sends.
#[derive(Clone, Copy, Debug, PartialEq, Eq, Structural)]
pub enum ServerChannel {
    ServerMessages,
    NetworkedEntities,
}

impl ClientChannel {
    pub open spec fn spec_id(self) -> u8 {
        match self {
            ClientChannel::PlayerInput => INPUT_CHANNEL_ID,
        }
    }

    /// The configuration of every client channel.
    pub fn channels_config() -> (r: Vec<ChannelSettings>)
        ensures
            r@ == client_channels(),
    {
        let mut r: Vec<ChannelSettings> = Vec::new();
        r.push(
            ChannelSettings {
                channel_id: u8::from(ClientChannel::PlayerInput),
                max_memory_usage_bytes: CHANNEL_MEMORY_BUDGET,
                reliability: Reliability::Unreliable,
            },
        );
        assert(r@ =~= client_channels());
        r
    }
}

impl From<ClientChannel> for u8 {
    fn from(channel: ClientChannel) -> (r: u8)
        ensures
            r == channel.spec_id(),
    {
        match channel {
            ClientChannel::PlayerInput => INPUT_CHANNEL_ID,
        }
    }
}

impl vstd::std_specs::convert::FromSpecImpl<ClientChannel> for u8 {
    open spec fn obeys_from_spec() -> bool {
        true
    }

    open spec fn from_spec(v: ClientChannel) -> u8 {
        v.spec_id()
    }
}

impl ServerChannel {
    pub open spec fn spec_id(self) -> u8 {
        match self {
            ServerChannel::ServerMessages => CONTROL_CHANNEL_ID,
            ServerChannel::NetworkedEntities => SNAPSHOT_CHANNEL_ID,
        }
    }

    /// The configuration of every server channel.
    pub fn channels_config() -> (r: Vec<ChannelSettings>)
        ensures
            r@ == server_channels(),
    {
        let mut r: Vec<ChannelSettings> = Vec::new();
        r.push(
            ChannelSettings {
                channel_id: u8::from(ServerChannel::ServerMessages),
                max_memory_usage_bytes: CHANNEL_MEMORY_BUDGET,
                reliability: Reliability::ReliableOrdered { resend_time_millis: RESEND_TIME_MILLIS },
            },
        );
        r.push(
            ChannelSettings {
                channel_id: u8::from(ServerChannel::NetworkedEntities),
                max_memory_usage_bytes: CHANNEL_MEMORY_BUDGET,
                reliability: Reliability::Unreliable,
            },
        );
        assert(r@ =~= server_channels());
        r
    }
}

impl From<ServerChannel> for u8 {
    fn from(channel: ServerChannel) -> (r: u8)
        ensures
            r == channel.spec_id(),
    {
        match channel {
            ServerChannel::ServerMessages => CONTROL_CHANNEL_ID,
            ServerChannel::NetworkedEntities => SNAPSHOT_CHANNEL_ID,
        }
    }
}

impl vstd::std_specs::convert::FromSpecImpl<ServerChannel> for u8 {
    open spec fn obeys_from_spec() -> bool {
        true
    }

    open spec fn from_spec(v: ServerChannel) -> u8 {
        v.spec_id()
    }
}

/// The configuration both ends of a connection must share.
#[derive(Clone, Debug)]
pub struct ConnectionSettings {
    pub available_bytes_per_tick: u64,
    pub server_channels_config: Vec<ChannelSettings>,
    pub client_channels_config: Vec<ChannelSettings>,
}

/// The connection configuration: the server's and the clients' channels.
pub fn connection_config() -> (r: ConnectionSettings)
    ensures
        r.available_bytes_per_tick == AVAILABLE_BYTES_PER_TICK,
        r.server_channels_config@ == server_channels(),
        r.client_channels_config@ == client_channels(),
{
    ConnectionSettings {
        available_bytes_per_tick: AVAILABLE_BYTES_PER_TICK,
        server_channels_config: ServerChannel::channels_config(),
        client_channels_config: ClientChannel::channels_config(),
    }
}

} // verus!
