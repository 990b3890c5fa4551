use delila_rs::config::{ChannelConfig, DigitizerConfig, FirmwareType, ParamValue};

fn has(params: &[delila_rs::config::CaenParameter], path: &str, value: &str) -> bool {
    params.iter().any(|p| p.path == path && p.value == value)
}

#[test]
fn test_new_digitizer_config() {
    let config = DigitizerConfig::new(0, "Test Digitizer", FirmwareType::PSD2);
    assert_eq!(config.digitizer_id, 0);
    assert_eq!(config.name, "Test Digitizer");
    assert_eq!(config.firmware, FirmwareType::PSD2);
    assert_eq!(config.num_channels, 32);
}

#[test]
fn test_psd1_has_8_channels() {
    let config = DigitizerConfig::new(0, "PSD1", FirmwareType::PSD1);
    assert_eq!(config.num_channels, 8);
}

#[test]
fn test_get_channel_config_with_override() {
    let mut config = DigitizerConfig::new(0, "Test", FirmwareType::PSD2);
    config.channel_defaults.enabled = Some("True".to_string());
    config.channel_defaults.dc_offset = Some("20".to_string());
    config.channel_defaults.trigger_threshold = Some(500);

    let override_config = ChannelConfig {
        trigger_threshold: Some(1000),
        ..Default::default()
    };
    config.channel_overrides.insert(0, override_config);

    let ch0 = config.get_channel_config(0);
    assert_eq!(ch0.enabled, Some("True".to_string()));
    assert_eq!(ch0.dc_offset, Some("20".to_string()));
    assert_eq!(ch0.trigger_threshold, Some(1000));

    let ch1 = config.get_channel_config(1);
    assert_eq!(ch1.trigger_threshold, Some(500));
}

#[test]
fn test_to_caen_parameters_psd2() {
    let mut config = DigitizerConfig::new(0, "Test", FirmwareType::PSD2);
    config.board.start_source = Some("SWcmd".to_string());
    config.channel_defaults.enabled = Some("True".to_string());
    config.channel_defaults.polarity = Some("Negative".to_string());

    let params = config.to_caen_parameters();

    assert!(has(&params, "/par/startsource", "SWcmd"));
    assert!(has(&params, "/ch/0..31/par/ChEnable", "True"));
    assert!(has(&params, "/ch/0..31/par/PulsePolarity", "Negative"));
}

#[test]
fn test_master_config_sync_params() {
    let config = DigitizerConfig::new_master(0, "Master", FirmwareType::PSD2);
    assert!(config.is_master);
    assert!(config.sync.is_some());

    let sync = config.sync.as_ref().unwrap();
    assert_eq!(sync.start_source, Some("SWcmd".to_string()));
    assert_eq!(sync.trgout_source, Some("Run".to_string()));
    assert!(sync.sin_source.is_none());

    let params = config.to_caen_parameters();
    assert!(has(&params, "/par/trgoutsource", "Run"));
    assert!(has(&params, "/par/startsource", "SWcmd"));
}

#[test]
fn test_slave_config_sync_params() {
    let config = DigitizerConfig::new_slave(0, "Slave", FirmwareType::PSD2);
    assert!(!config.is_master);
    assert!(config.sync.is_some());

    let sync = config.sync.as_ref().unwrap();
    assert_eq!(sync.start_source, Some("SIN".to_string()));
    assert_eq!(sync.sin_source, Some("SIN".to_string()));
    assert!(sync.trgout_source.is_none());

    let params = config.to_caen_parameters();
    assert!(has(&params, "/par/sinsource", "SIN"));
    assert!(has(&params, "/par/startsource", "SIN"));
}

#[test]
fn test_to_caen_parameters_psd1() {
    let mut config = DigitizerConfig::new(0, "Test", FirmwareType::PSD1);
    config.channel_defaults.enabled = Some("TRUE".to_string());
    config.channel_defaults.polarity = Some("POLARITY_NEGATIVE".to_string());

    let params = config.to_caen_parameters();

    assert!(has(&params, "/ch/0..7/par/ch_enabled", "TRUE"));
    assert!(has(&params, "/ch/0..7/par/ch_polarity", "POLARITY_NEGATIVE"));
}

#[test]
fn caen_parameters_follow_board_defaults_overrides_order() {
    let mut config = DigitizerConfig::new(3, "Order", FirmwareType::PSD2);
    config.sync = None;
    config.board.start_source = Some("SWcmd".to_string());
    config.board.gpio_mode = Some("Run".to_string());
    config.board.test_pulse_period = Some(10000);
    config.board.test_pulse_width = Some(100);
    config.board.global_trigger_source = Some("TestPulse".to_string());
    config.board.record_length = Some(512);
    config.board.waveforms_enabled = Some(true);
    config.board.extra.push(("/par/custom".to_string(), ParamValue::Number("7".to_string())));
    config.board.extra.push(("itlamask".to_string(), ParamValue::Bool(false)));
    config.channel_defaults.dc_offset = Some("20".to_string());
    config.channel_defaults.gate_long_ns = Some(400);
    config.channel_defaults.gate_short_ns = Some(100);
    config.channel_defaults.extra.push(("Mode".to_string(), ParamValue::Text("Fast".to_string())));
    config.channel_overrides.insert(
        5,
        ChannelConfig {
            trigger_threshold: Some(300),
            cfd_delay_ns: Some(8),
            ..Default::default()
        },
    );
    let params = config.to_caen_parameters();
    let got: Vec<(String, String)> = params.iter().map(|p| (p.path.clone(), p.value.clone())).collect();
    let want: Vec<(&str, &str)> = vec![
        ("/par/startsource", "SWcmd"),
        ("/par/gpiomode", "Run"),
        ("/par/testpulseperiod", "10000"),
        ("/par/testpulsewidth", "100"),
        ("/par/globaltriggersource", "TestPulse"),
        ("/par/chrecordlengths", "512"),
        ("/par/waveforms", "true"),
        ("/par/custom", "7"),
        ("/par/itlamask", "false"),
        ("/ch/0..31/par/DCOffset", "20"),
        ("/ch/0..31/par/GateLongLengthT", "400"),
        ("/ch/0..31/par/GateShortLengthT", "100"),
        ("/ch/0..31/par/Mode", "Fast"),
        ("/ch/5/par/TriggerThr", "300"),
        ("/ch/5/par/ch_cfd_delay", "8"),
    ];
    let want: Vec<(String, String)> = want.iter().map(|(a, b)| (a.to_string(), b.to_string())).collect();
    assert_eq!(got, want);
}

#[test]
fn sync_start_source_takes_priority_over_board() {
    let mut config = DigitizerConfig::new_master(0, "M", FirmwareType::PSD1);
    config.board.start_source = Some("ITLA".to_string());
    config.board.record_length = Some(256);
    let params = config.to_caen_parameters();
    assert_eq!(params.iter().filter(|p| p.path == "/par/startsource").count(), 1);
    assert!(has(&params, "/par/startsource", "SWcmd"));
    assert!(has(&params, "/par/reclen", "256"));
}

#[test]
fn override_extra_parameters_replace_default_ones() {
    let mut config = DigitizerConfig::new(0, "X", FirmwareType::PHA);
    config.channel_defaults.extra.push(("A".to_string(), ParamValue::Number("1".to_string())));
    config.channel_defaults.extra.push(("B".to_string(), ParamValue::Other("null".to_string())));
    let mut o = ChannelConfig::default();
    o.extra.push(("B".to_string(), ParamValue::Text("x".to_string())));
    o.extra.push(("C".to_string(), ParamValue::Bool(true)));
    o.polarity = Some("Positive".to_string());
    config.channel_overrides.insert(2, o);
    let ch2 = config.get_channel_config(2);
    let names: Vec<&str> = ch2.extra.iter().map(|e| e.0.as_str()).collect();
    assert_eq!(names, vec!["A", "B", "C"]);
    assert!(matches!(&ch2.extra[1].1, ParamValue::Text(t) if t == "x"));
    assert_eq!(ch2.polarity, Some("Positive".to_string()));
    let ch3 = config.get_channel_config(3);
    assert_eq!(ch3.extra.len(), 2);
    assert!(ch3.polarity.is_none());
}
