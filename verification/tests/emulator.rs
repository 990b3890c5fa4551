use delila_rs::common::flags;
use delila_rs::emulator::{gate_bits, waveform_probes, AtomicStats, EmulatorCommandExt, EmulatorConfig, RuntimeSettings};
use delila_rs::command::EmulatorRuntimeConfig;
use delila_rs::state::CommandHandlerExt;

#[test]
fn generate_batch_size() {
    let mut config = EmulatorConfig::default();
    config.events_per_batch = 50;
    assert_eq!(config.events_per_batch, 50);
}

#[test]
fn test_config_custom() {
    let config = EmulatorConfig {
        address: "tcp://*:6000".to_string(),
        command_address: "tcp://*:6001".to_string(),
        source_id: 42,
        events_per_batch: 200,
        batch_interval_ms: 50,
        heartbeat_interval_ms: 500,
        num_modules: 2,
        channels_per_module: 8,
        enable_waveform: true,
        waveform_probes: waveform_probes::ALL,
        waveform_samples: 1024,
    };
    assert_eq!(config.source_id, 42);
    assert_eq!(config.events_per_batch, 200);
    assert_eq!(config.batch_interval_ms, 50);
    assert_eq!(config.num_modules, 2);
    assert!(config.enable_waveform);
    assert_eq!(config.waveform_samples, 1024);
}

#[test]
fn test_flag_constants() {
    assert_eq!(flags::FLAG_PILEUP, 1);
    assert_eq!(flags::FLAG_OVER_RANGE, 4);
}

#[test]
fn probe_masks_combine() {
    assert_eq!(waveform_probes::ALL_ANALOG, 0b11);
    assert_eq!(waveform_probes::ALL_DIGITAL, 0b11_1100);
    assert_eq!(waveform_probes::ALL, 0b11_1111);
}

#[test]
fn gate_bits_marks_the_window() {
    let bits = gate_bits(20, 3, 5);
    assert_eq!(bits, vec![0b1111_1000, 0b0000_0000, 0b0000_0000]);
    let bits = gate_bits(10, 6, 50);
    assert_eq!(bits, vec![0b1100_0000, 0b0000_0011]);
    assert_eq!(gate_bits(0, 0, 5), Vec::<u8>::new());
    assert_eq!(gate_bits(8, 9, 3), vec![0]);
}

#[test]
fn emulator_ext_resets_and_updates() {
    let mut stats = AtomicStats::new();
    stats.record_batch(100, 4000);
    stats.record_batch(100, 4000);
    let mut settings = RuntimeSettings::new(&EmulatorConfig::default());
    {
        let ext = EmulatorCommandExt { stats: &mut stats, runtime_settings: &mut settings };
        assert_eq!(ext.status_details().unwrap(), "Events: 200, Batches: 2, Bytes: 8000");
    }
    {
        let mut ext = EmulatorCommandExt { stats: &mut stats, runtime_settings: &mut settings };
        assert!(ext.on_start(1).is_ok());
        let cfg = EmulatorRuntimeConfig {
            events_per_batch: 7,
            batch_interval_ms: 3,
            enable_waveform: true,
            waveform_probes: 63,
            waveform_samples: 128,
        };
        assert!(ext.on_update_emulator_config(&cfg).is_ok());
    }
    assert_eq!(stats.snapshot(), (0, 0, 0));
    assert_eq!(settings.events_per_batch(), 7);
    assert_eq!(settings.batch_interval_ms(), 3);
    assert!(settings.enable_waveform());
    assert_eq!(settings.waveform_probes(), 63);
    assert_eq!(settings.waveform_samples(), 128);
}
