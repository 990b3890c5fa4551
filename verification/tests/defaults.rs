use delila_rs::data_sink::{AtomicStats as SinkStats, DataSinkConfig};
use delila_rs::emulator::{waveform_probes, EmulatorConfig};
use delila_rs::merger::{AtomicStats as MergerStats, MergerConfig};

#[test]
fn mod_default_config() {
    // data sink
    let config = DataSinkConfig::default();
    assert_eq!(config.address, "tcp://localhost:5555");
    assert_eq!(config.stats_interval_secs, 1);

    // emulator
    let config = EmulatorConfig::default();
    assert_eq!(config.events_per_batch, 100);
    assert_eq!(config.batch_interval_ms, 100);
    assert_eq!(config.command_address, "tcp://*:5560");
    assert_eq!(config.heartbeat_interval_ms, 1000);
    assert_eq!(config.num_modules, 1);
    assert_eq!(config.channels_per_module, 16);
    assert!(!config.enable_waveform);
    assert_eq!(config.waveform_probes, waveform_probes::ALL_ANALOG);
    assert_eq!(config.waveform_samples, 512);

    // merger
    let config = MergerConfig::default();
    assert_eq!(config.pub_address, "tcp://*:5556");
    assert_eq!(config.command_address, "tcp://*:5570");
}

#[test]
fn mod_atomic_stats() {
    // data sink
    let mut stats = SinkStats::new();
    stats.record_received();
    stats.record_received();
    stats.record_processed();
    stats.record_drop();
    let (recv, proc_, drop, eos) = stats.snapshot();
    assert_eq!(recv, 2);
    assert_eq!(proc_, 1);
    assert_eq!(drop, 1);
    assert_eq!(eos, 0);

    // merger
    let mut stats = MergerStats::new();
    stats.record_received();
    stats.record_received();
    stats.record_sent();
    stats.record_drop();
    let (recv, sent, drop, eos) = stats.snapshot();
    assert_eq!(recv, 2);
    assert_eq!(sent, 1);
    assert_eq!(drop, 1);
    assert_eq!(eos, 0);
}

#[test]
fn merger_default_config_details() {
    let config = MergerConfig::default();
    assert_eq!(config.sub_addresses, vec!["tcp://localhost:5555".to_string()]);
    assert_eq!(config.backlog_soft_limit_bytes, 4096 * 1024 * 1024);
    assert_eq!(config.backlog_hard_limit_bytes, 0);
    let sink = DataSinkConfig::default();
    assert_eq!(sink.command_address, "tcp://*:5580");
    assert_eq!(sink.channel_capacity, 1000);
}
