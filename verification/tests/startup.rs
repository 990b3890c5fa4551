use delila_rs::cli::{CommonArgs, DataSinkArgs, MergerArgs, SourceArgs};
use delila_rs::config::{
    MergerNetworkConfig, MonitorNetworkConfig, NetworkConfig, RecorderNetworkConfig, Settings,
    SourceNetworkConfig, SourceType,
};
use delila_rs::startup::{
    emulator_config_from_settings, emulator_config_standalone, merger_config, sink_config,
};

fn network() -> NetworkConfig {
    NetworkConfig {
        cluster_name: "default".to_string(),
        sources: vec![],
        merger: None,
        recorder: None,
        monitor: None,
    }
}

fn source(id: u32, command: Option<&str>) -> SourceNetworkConfig {
    SourceNetworkConfig {
        id,
        name: format!("src-{}", id),
        source_type: SourceType::Emulator,
        bind: format!("tcp://*:{}", 6000 + id),
        command: command.map(|c| c.to_string()),
        config_file: None,
        digitizer_url: None,
        module_id: None,
        pipeline_order: 1,
        is_master: false,
    }
}

fn settings() -> Settings {
    Settings {
        events_per_batch: 250,
        batch_interval_ms: 40,
        num_modules: 300,
        channels_per_module: 8,
        enable_waveform: true,
        waveform_probes: 3,
        waveform_samples: 128,
    }
}

#[test]
fn merger_uses_file_addresses_unless_given() {
    let net = MergerNetworkConfig {
        subscribe: vec!["tcp://a:1".to_string(), "tcp://b:2".to_string()],
        publish: "tcp://*:5556".to_string(),
        command: None,
        pipeline_order: 2,
    };
    let args = MergerArgs { common: CommonArgs::default(), sub_addresses: vec![], pub_address: None };
    let c = merger_config(&args, &net);
    assert_eq!(c.sub_addresses, vec!["tcp://a:1".to_string(), "tcp://b:2".to_string()]);
    assert_eq!(c.pub_address, "tcp://*:5556");
    assert_eq!(c.command_address, "tcp://*:5570");
    assert_eq!(c.backlog_soft_limit_bytes, 4096 * 1024 * 1024);
    assert_eq!(c.backlog_hard_limit_bytes, 0);

    let args = MergerArgs {
        common: CommonArgs::default(),
        sub_addresses: vec!["tcp://c:3".to_string()],
        pub_address: Some("tcp://*:7000".to_string()),
    };
    let net = MergerNetworkConfig { command: Some("tcp://*:9999".to_string()), ..net };
    let c = merger_config(&args, &net);
    assert_eq!(c.sub_addresses, vec!["tcp://c:3".to_string()]);
    assert_eq!(c.pub_address, "tcp://*:7000");
    assert_eq!(c.command_address, "tcp://*:9999");
}

#[test]
fn sink_follows_recorder_then_monitor() {
    let args = DataSinkArgs { common: CommonArgs::default(), address: None };
    let c = sink_config(&args, &network());
    assert_eq!(c.address, "tcp://localhost:5557");
    assert_eq!(c.command_address, "tcp://*:5580");
    assert_eq!(c.stats_interval_secs, 1);
    assert_eq!(c.channel_capacity, 1000);

    let mut net = network();
    net.monitor = Some(MonitorNetworkConfig {
        subscribe: "tcp://m:1".to_string(),
        command: Some("tcp://*:5590".to_string()),
        http_port: 8081,
        pipeline_order: 3,
    });
    let c = sink_config(&args, &net);
    assert_eq!(c.address, "tcp://m:1");
    assert_eq!(c.command_address, "tcp://*:5580");

    net.recorder = Some(RecorderNetworkConfig {
        subscribe: "tcp://r:1".to_string(),
        command: Some("tcp://*:5581".to_string()),
        output_dir: "./data".to_string(),
        max_file_size_mb: 1024,
        max_file_duration_sec: 600,
        pipeline_order: 3,
    });
    let c = sink_config(&args, &net);
    assert_eq!(c.address, "tcp://r:1");
    assert_eq!(c.command_address, "tcp://*:5581");

    let args = DataSinkArgs { common: CommonArgs::default(), address: Some("tcp://x:9".to_string()) };
    assert_eq!(sink_config(&args, &net).address, "tcp://x:9");
}

#[test]
fn emulator_from_settings() {
    let args = SourceArgs { common: CommonArgs::default(), source_id: Some(3), address: None };
    let c = emulator_config_from_settings(&args, None, &settings(), None, None);
    assert_eq!(c.address, "tcp://*:5558");
    assert_eq!(c.command_address, "tcp://*:5563");
    assert_eq!(c.source_id, 3);
    assert_eq!(c.events_per_batch, 250);
    assert_eq!(c.batch_interval_ms, 40);
    assert_eq!(c.heartbeat_interval_ms, 1000);
    assert_eq!(c.num_modules, 44); // 300 taken as u8
    assert_eq!(c.channels_per_module, 8);
    assert!(c.enable_waveform);
    assert_eq!(c.waveform_probes, 3);
    assert_eq!(c.waveform_samples, 128);

    let s = source(3, Some("tcp://*:7777"));
    let c = emulator_config_from_settings(&args, Some(&s), &settings(), Some(10), Some(5));
    assert_eq!(c.address, "tcp://*:6003");
    assert_eq!(c.command_address, "tcp://*:7777");
    assert_eq!(c.events_per_batch, 10);
    assert_eq!(c.batch_interval_ms, 5);

    let s = source(3, None);
    let args = SourceArgs { common: CommonArgs::default(), source_id: Some(3), address: Some("tcp://*:1".to_string()) };
    let c = emulator_config_from_settings(&args, Some(&s), &settings(), None, None);
    assert_eq!(c.address, "tcp://*:1");
    assert_eq!(c.command_address, "tcp://*:5563");
}

#[test]
fn emulator_standalone() {
    let args = SourceArgs { common: CommonArgs::default(), source_id: None, address: None };
    let c = emulator_config_standalone(&args, None, None);
    assert_eq!(c.address, "tcp://*:5555");
    assert_eq!(c.command_address, "tcp://*:5560");
    assert_eq!(c.source_id, 0);
    assert_eq!(c.events_per_batch, 100);
    assert_eq!(c.batch_interval_ms, 100);
    assert_eq!(c.num_modules, 2);
    assert_eq!(c.channels_per_module, 16);
    assert!(!c.enable_waveform);
    assert_eq!(c.waveform_samples, 512);
}
