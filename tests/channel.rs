use bong::channel::{
    Admission, CapacityError, ChannelSettings, Reliability, CHANNEL_MEMORY_BUDGET,
};
use bong::{connection_config, ClientChannel, ServerChannel};

#[test]
fn channel_ids_are_stable() {
    assert_eq!(u8::from(ServerChannel::ServerMessages), 0);
    assert_eq!(u8::from(ClientChannel::PlayerInput), 1);
    assert_eq!(u8::from(ServerChannel::NetworkedEntities), 2);
}

#[test]
fn connection_config_lists_every_channel() {
    let c = connection_config();
    assert_eq!(c.available_bytes_per_tick, 1024 * 1024);
    assert_eq!(c.server_channels_config.len(), 2);
    assert_eq!(c.server_channels_config[0].channel_id, 0);
    assert!(matches!(c.server_channels_config[0].reliability, Reliability::ReliableOrdered { .. }));
    assert_eq!(c.server_channels_config[1].channel_id, 2);
    assert_eq!(c.server_channels_config[1].reliability, Reliability::Unreliable);
    assert_eq!(c.client_channels_config, ClientChannel::channels_config());
    assert_eq!(c.client_channels_config[0].channel_id, 1);
    assert_eq!(c.client_channels_config[0].max_memory_usage_bytes, 5 * 1024 * 1024);
}

#[test]
fn overflow_drops_unreliable_and_fails_reliable() {
    let unreliable = ChannelSettings { channel_id: 2, max_memory_usage_bytes: 100, reliability: Reliability::Unreliable };
    let reliable = ChannelSettings {
        channel_id: 0,
        max_memory_usage_bytes: 100,
        reliability: Reliability::ReliableOrdered { resend_time_millis: 200 },
    };
    assert_eq!(unreliable.accept(60, 40), Ok(Admission::Queued));
    assert_eq!(unreliable.accept(60, 41), Ok(Admission::Dropped));
    assert_eq!(reliable.accept(0, 100), Ok(Admission::Queued));
    assert_eq!(reliable.accept(1, 100), Err(CapacityError { channel_id: 0 }));
    assert_eq!(reliable.accept(usize::MAX, usize::MAX), Err(CapacityError { channel_id: 0 }));
    assert_eq!(CHANNEL_MEMORY_BUDGET, 5 * 1024 * 1024);
}
