use delila_rs::monitor::{default_histogram_type, waveform_channel_keys, AtomicStats, ChannelKey};

#[test]
fn test_atomic_stats() {
    let mut stats = AtomicStats::new();
    stats.record_received();
    stats.record_received();
    stats.record_processed(10);
    stats.record_drop();

    let (recv, events, drop) = stats.snapshot();
    assert_eq!(recv, 2);
    assert_eq!(events, 10);
    assert_eq!(drop, 1);
    assert_eq!(stats.status_details(), "Received: 2, Processed: 10, Dropped: 1");
    stats.reset();
    assert_eq!(stats.snapshot(), (0, 0, 0));
}

#[test]
fn channel_key_and_default_type() {
    let k = ChannelKey::new(3, 7);
    assert_eq!(k.module_id, 3);
    assert_eq!(k.channel_id, 7);
    assert_eq!(default_histogram_type(), "energy");
}

#[test]
fn waveform_listing_puts_live_channels_first_then_new_registered_ones() {
    let live = vec![ChannelKey::new(0, 3), ChannelKey::new(1, 0)];
    let registered = vec![
        ChannelKey::new(0, 0),
        ChannelKey::new(1, 0),
        ChannelKey::new(0, 3),
        ChannelKey::new(2, 5),
        ChannelKey::new(0, 0),
    ];
    let keys = waveform_channel_keys(&live, &registered);
    assert_eq!(
        keys,
        vec![ChannelKey::new(0, 3), ChannelKey::new(1, 0), ChannelKey::new(0, 0), ChannelKey::new(2, 5)]
    );
    assert_eq!(waveform_channel_keys(&vec![], &vec![]), vec![]);
}
