use delila_rs::config::{
    default_cluster_name, default_collection, default_http_port, default_max_file_duration_sec,
    default_max_file_size_mb, default_output_dir, default_sink_pipeline_order,
    default_source_pipeline_order, default_merger_pipeline_order, Config, ConfigError, FileSettings,
    FirmwareType, NetworkConfig, OperatorFileConfig, SettingsConfig, SettingsSource,
    SourceNetworkConfig, SourceType,
};

fn source(id: u32, name: &str, t: SourceType) -> SourceNetworkConfig {
    SourceNetworkConfig {
        id,
        name: name.to_string(),
        source_type: t,
        bind: format!("tcp://*:{}", 5555 + id),
        command: None,
        config_file: None,
        digitizer_url: None,
        module_id: None,
        pipeline_order: default_source_pipeline_order(),
        is_master: false,
    }
}

fn config_with(sources: Vec<SourceNetworkConfig>) -> Config {
    Config {
        network: NetworkConfig {
            cluster_name: default_cluster_name(),
            sources,
            merger: None,
            recorder: None,
            monitor: None,
        },
        settings: SettingsConfig::default(),
        operator: OperatorFileConfig::default(),
    }
}

#[test]
fn default_settings() {
    let settings = SettingsConfig::default().get_settings().unwrap();
    assert_eq!(settings.events_per_batch, 100);
    assert_eq!(settings.batch_interval_ms, 100);
    assert_eq!(settings.num_modules, 2);
    assert_eq!(settings.channels_per_module, 16);
    assert!(!settings.enable_waveform);
    assert_eq!(settings.waveform_probes, 3);
    assert_eq!(settings.waveform_samples, 512);
}

#[test]
fn mongodb_not_supported() {
    let mut s = SettingsConfig::default();
    s.source = SettingsSource::MongoDB;
    let err = s.get_settings().unwrap_err();
    assert!(matches!(err, ConfigError::MongoDbNotSupported));
    assert_eq!(err.to_string(), "MongoDB not yet supported");
}

#[test]
fn emulator_source_is_not_digitizer() {
    let s = source(0, "emu", SourceType::Emulator);
    assert!(!s.is_digitizer());
    assert!(s.is_emulator());
    assert_eq!(s.command_address(), "tcp://*:5560".to_string());
}

#[test]
fn digitizer_source_kinds() {
    let mut s = source(3, "dig", SourceType::Psd2);
    assert!(s.is_digitizer());
    assert!(!s.is_master_digitizer());
    s.is_master = true;
    assert!(s.is_master_digitizer());
    assert_eq!(s.command_address(), "tcp://*:5563");
    s.command = Some("tcp://*:7000".to_string());
    assert_eq!(s.command_address(), "tcp://*:7000");
    let mut e = source(0, "emu", SourceType::Emulator);
    e.is_master = true;
    assert!(!e.is_master_digitizer());
}

#[test]
fn get_source_by_id() {
    let config = config_with(vec![
        source(0, "source-0", SourceType::Emulator),
        source(2, "source-2", SourceType::Psd2),
    ]);
    let s0 = config.get_source(0);
    assert!(s0.is_some());
    assert_eq!(s0.unwrap().name, "source-0");
    let s2 = config.get_source(2);
    assert_eq!(s2.unwrap().name, "source-2");
    assert!(s2.unwrap().is_digitizer());
    assert_eq!(s2.unwrap().source_type, SourceType::Psd2);
    assert!(config.get_source(1).is_none());
}

#[test]
fn load_digitizer_config_required_missing() {
    let s = source(1, "dig-1", SourceType::Psd2);
    let err = s.require_config_file().unwrap_err();
    assert!(err.to_string().contains("config_file required"));
    assert_eq!(
        err.to_string(),
        "Missing required field: config_file required for source 'dig-1' (type: PSD2)"
    );
    let mut s = s;
    s.config_file = Some("d.json".to_string());
    assert_eq!(s.require_config_file().unwrap(), "d.json");
}

#[test]
fn defaults_of_sections() {
    assert_eq!(OperatorFileConfig::default().experiment_name, "DefaultExp");
    assert_eq!(default_cluster_name(), "default");
    assert_eq!(default_output_dir(), "./data");
    assert_eq!(default_max_file_size_mb(), 1024);
    assert_eq!(default_max_file_duration_sec(), 600);
    assert_eq!(default_http_port(), 8081);
    assert_eq!(default_collection(), "run_config");
    assert_eq!((default_source_pipeline_order(), default_merger_pipeline_order(), default_sink_pipeline_order()), (1, 2, 3));
    assert_eq!(SourceType::default(), SourceType::Emulator);
    assert_eq!(SourceType::Pha1.to_string(), "PHA1");
    assert_eq!(SourceType::Zle.to_string(), "ZLE");
    let f = FileSettings::default();
    assert_eq!(f.events_per_batch, 100);
}

#[test]
fn firmware_url_schemes() {
    assert_eq!(FirmwareType::PSD1.url_scheme(), "dig1://");
    assert_eq!(FirmwareType::PSD2.url_scheme(), "dig2://");
    assert_eq!(FirmwareType::PHA.url_scheme(), "dig2://");
}
