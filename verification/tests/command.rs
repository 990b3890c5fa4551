use delila_rs::command::{Command, CommandResponse, ComponentState, RunConfig};
use delila_rs::command::ComponentState::{Armed, Configured, Error, Idle, Running};

#[test]
fn error_response() {
    let resp = CommandResponse::error(ComponentState::Idle, "Already idle");
    assert!(!resp.success);
    assert_eq!(resp.state, ComponentState::Idle);
}

#[test]
fn error_response_with_code() {
    let resp = CommandResponse::error_with_code(ComponentState::Error, "Hardware fault", 101);
    assert!(!resp.success);
    assert_eq!(resp.state, ComponentState::Error);
    assert_eq!(resp.error_code, Some(101));
}

#[test]
fn state_display() {
    assert_eq!(ComponentState::Idle.to_string(), "Idle");
    assert_eq!(ComponentState::Configured.to_string(), "Configured");
    assert_eq!(ComponentState::Armed.to_string(), "Armed");
    assert_eq!(ComponentState::Running.to_string(), "Running");
    assert_eq!(ComponentState::Error.to_string(), "Error");
}

#[test]
fn command_display() {
    let mut rc = RunConfig::default();
    rc.run_number = 99;
    assert_eq!(Command::Configure(rc).to_string(), "Configure(run=99)");
    assert_eq!(Command::Arm.to_string(), "Arm");
    assert_eq!(Command::Start { run_number: 1 }.to_string(), "Start(run=1)");
    assert_eq!(Command::Stop.to_string(), "Stop");
    assert_eq!(Command::Reset.to_string(), "Reset");
    assert_eq!(Command::GetStatus.to_string(), "GetStatus");
}

#[test]
fn state_transitions() {
    // Valid transitions
    assert!(Idle.can_transition_to(Configured));
    assert!(Configured.can_transition_to(Armed));
    assert!(Armed.can_transition_to(Running));
    assert!(Running.can_transition_to(Configured));

    // Reset transitions
    assert!(Configured.can_transition_to(Idle));
    assert!(Armed.can_transition_to(Idle));
    assert!(Running.can_transition_to(Idle));
    assert!(Error.can_transition_to(Idle));

    // Error transitions
    assert!(Running.can_transition_to(Error));
    assert!(Armed.can_transition_to(Error));
    assert!(Configured.can_transition_to(Error));

    // Invalid transitions
    assert!(!Idle.can_transition_to(Running));
    assert!(!Idle.can_transition_to(Armed));
    assert!(!Configured.can_transition_to(Running));
    assert!(!Error.can_transition_to(Running));
}

#[test]
fn valid_commands_per_state() {
    assert!(Idle.valid_commands().contains(&"Configure"));
    assert!(!Idle.valid_commands().contains(&"Start"));

    assert!(Configured.valid_commands().contains(&"Arm"));
    assert!(Configured.valid_commands().contains(&"Reset"));

    assert!(Armed.valid_commands().contains(&"Start"));
    assert!(!Armed.valid_commands().contains(&"Configure"));

    assert!(Running.valid_commands().contains(&"Stop"));
    assert!(!Running.valid_commands().contains(&"Start"));
    assert_eq!(Running.valid_commands(), vec!["Stop", "Reset", "GetStatus"]);

    assert!(Error.valid_commands().contains(&"Reset"));
    assert!(!Error.valid_commands().contains(&"Start"));
}

#[test]
fn success_responses_carry_state_and_run() {
    let r = CommandResponse::success(ComponentState::Armed, "Armed");
    assert!(r.success);
    assert_eq!(r.state, ComponentState::Armed);
    assert_eq!(r.message, "Armed");
    assert_eq!(r.run_number, None);
    assert_eq!(r.error_code, None);
    let r = CommandResponse::success_with_run(ComponentState::Running, "Started", 7);
    assert!(r.success);
    assert_eq!(r.run_number, Some(7));
}

#[test]
fn update_command_display() {
    let c = Command::UpdateEmulatorConfig(delila_rs::command::EmulatorRuntimeConfig {
        events_per_batch: 10,
        batch_interval_ms: 0,
        enable_waveform: false,
        waveform_probes: 3,
        waveform_samples: 512,
    });
    assert_eq!(c.to_string(), "UpdateEmulatorConfig(events=10)");
}

#[test]
fn run_config_defaults() {
    let rc = RunConfig::default();
    assert_eq!(rc.run_number, 0);
    assert_eq!(rc.comment, "");
    assert_eq!(rc.exp_name, "");
    assert_eq!(RunConfig::with_run_number(5).run_number, 5);
}
