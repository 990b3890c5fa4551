use delila_rs::command::{Command, ComponentState, EmulatorRuntimeConfig, RunConfig};
use delila_rs::state::{decide_command, handle_command, handle_command_simple, CommandHandlerExt, ComponentSharedState};
use tokio::sync::watch;

struct TestComponent {
    configure_called: bool,
    arm_called: bool,
    start_called: bool,
    stop_called: bool,
    reset_called: bool,
    refuse_start: bool,
    start_calls: u32,
    last_start: Option<u32>,
}

impl TestComponent {
    fn new() -> Self {
        TestComponent {
            configure_called: false,
            arm_called: false,
            start_called: false,
            stop_called: false,
            reset_called: false,
            refuse_start: false,
            start_calls: 0,
            last_start: None,
        }
    }
}

impl CommandHandlerExt for TestComponent {
    fn component_name(&self) -> &'static str {
        "TestComponent"
    }

    fn on_configure(&mut self, _config: &RunConfig) -> Result<(), String> {
        self.configure_called = true;
        Ok(())
    }

    fn on_arm(&mut self) -> Result<(), String> {
        self.arm_called = true;
        Ok(())
    }

    fn on_start(&mut self, run_number: u32) -> Result<(), String> {
        self.start_called = true;
        self.start_calls += 1;
        self.last_start = Some(run_number);
        if self.refuse_start {
            Err("start refused".to_string())
        } else {
            Ok(())
        }
    }

    fn on_stop(&mut self) -> Result<(), String> {
        self.stop_called = true;
        Ok(())
    }

    fn on_reset(&mut self) -> Result<(), String> {
        self.reset_called = true;
        Ok(())
    }

    fn status_details(&self) -> Option<String> {
        Some("custom details".to_string())
    }

    fn on_update_emulator_config(&mut self, _config: &EmulatorRuntimeConfig) -> Result<(), String> {
        Err("UpdateEmulatorConfig not supported by this component".to_string())
    }
}

fn run_config(n: u32) -> RunConfig {
    RunConfig { run_number: n, comment: "test".to_string(), exp_name: "TestExp".to_string() }
}

#[test]
fn test_state_transitions() {
    let mut state = ComponentSharedState::new();
    let (state_tx, state_rx) = watch::channel(ComponentState::Idle);
    let mut ext = TestComponent::new();

    let resp = handle_command(&mut state, &state_tx, Command::Configure(run_config(42)), Some(&mut ext));
    assert!(resp.success);
    assert_eq!(state.state, ComponentState::Configured);
    assert!(ext.configure_called);
    assert_eq!(*state_rx.borrow(), ComponentState::Configured);

    let resp = handle_command(&mut state, &state_tx, Command::Arm, Some(&mut ext));
    assert!(resp.success);
    assert_eq!(state.state, ComponentState::Armed);
    assert!(ext.arm_called);

    let resp = handle_command(&mut state, &state_tx, Command::Start { run_number: 42 }, Some(&mut ext));
    assert!(resp.success);
    assert_eq!(state.state, ComponentState::Running);
    assert!(ext.start_called);

    let resp = handle_command(&mut state, &state_tx, Command::Stop, Some(&mut ext));
    assert!(resp.success);
    assert_eq!(state.state, ComponentState::Configured);
    assert!(ext.stop_called);

    let resp = handle_command(&mut state, &state_tx, Command::Reset, Some(&mut ext));
    assert!(resp.success);
    assert_eq!(state.state, ComponentState::Idle);
    assert!(ext.reset_called);
    assert_eq!(*state_rx.borrow(), ComponentState::Idle);
}

#[test]
fn test_invalid_transition() {
    let mut state = ComponentSharedState::new();
    let (state_tx, _state_rx) = watch::channel(ComponentState::Idle);
    let resp = handle_command_simple(&mut state, &state_tx, Command::Start { run_number: 1 }, "Test");
    assert!(!resp.success);
    assert_eq!(state.state, ComponentState::Idle);
    assert_eq!(resp.message, "Cannot start from Idle state");
}

#[test]
fn test_status_with_details() {
    let mut state = ComponentSharedState::new();
    state.run_config = Some(RunConfig { run_number: 99, comment: "".to_string(), exp_name: "".to_string() });
    state.state = ComponentState::Running;
    let (state_tx, _state_rx) = watch::channel(ComponentState::Running);
    let mut ext = TestComponent::new();
    let resp = handle_command(&mut state, &state_tx, Command::GetStatus, Some(&mut ext));
    assert!(resp.success);
    assert!(resp.message.contains("custom details"));
    assert_eq!(resp.message, "State: Running, Run: 99, custom details");
    assert_eq!(resp.run_number, Some(99));
}

#[test]
fn test_simple_handler() {
    let mut state = ComponentSharedState::new();
    let (state_tx, _state_rx) = watch::channel(ComponentState::Idle);
    let resp = handle_command_simple(&mut state, &state_tx, Command::Configure(run_config(1)), "Simple");
    assert!(resp.success);
    assert_eq!(state.state, ComponentState::Configured);
    assert_eq!(resp.run_number, Some(1));
}

#[test]
fn refused_hook_keeps_state() {
    let mut state = ComponentSharedState::new();
    let (state_tx, _state_rx) = watch::channel(ComponentState::Idle);
    let mut ext = TestComponent::new();
    ext.refuse_start = true;
    handle_command(&mut state, &state_tx, Command::Configure(run_config(5)), Some(&mut ext));
    handle_command(&mut state, &state_tx, Command::Arm, Some(&mut ext));
    let resp = handle_command(&mut state, &state_tx, Command::Start { run_number: 6 }, Some(&mut ext));
    assert!(!resp.success);
    assert_eq!(resp.message, "start refused");
    assert_eq!(state.state, ComponentState::Armed);
    assert_eq!(resp.state, ComponentState::Armed);
}

#[test]
fn stop_when_not_running_and_update_unsupported() {
    let mut state = ComponentSharedState::new();
    let (state_tx, _state_rx) = watch::channel(ComponentState::Idle);
    let resp = handle_command_simple(&mut state, &state_tx, Command::Stop, "S");
    assert!(!resp.success);
    assert_eq!(resp.message, "Not running");
    let cfg = delila_rs::command::EmulatorRuntimeConfig {
        events_per_batch: 1,
        batch_interval_ms: 1,
        enable_waveform: false,
        waveform_probes: 1,
        waveform_samples: 1,
    };
    let resp = handle_command_simple(&mut state, &state_tx, Command::UpdateEmulatorConfig(cfg), "S");
    assert!(!resp.success);
    assert_eq!(resp.message, "UpdateEmulatorConfig not supported by this component");
    let resp = handle_command_simple(&mut state, &state_tx, Command::GetStatus, "S");
    assert_eq!(resp.message, "State: Idle");
    let resp = handle_command_simple(&mut state, &state_tx, Command::Reset, "S");
    assert!(resp.success);
    assert_eq!(resp.message, "Reset to Idle");
}

#[test]
fn refused_transition_runs_no_hook_and_sends_nothing() {
    let mut state = ComponentSharedState::new();
    let (state_tx, state_rx) = watch::channel(ComponentState::Idle);
    let mut ext = TestComponent::new();
    let resp = handle_command(&mut state, &state_tx, Command::Arm, Some(&mut ext));
    assert!(!resp.success);
    assert_eq!(resp.message, "Cannot arm from Idle state");
    assert!(!ext.arm_called);
    assert!(!state_rx.has_changed().unwrap());
}

#[test]
fn refused_start_hook_sends_nothing_and_keeps_run_number() {
    let mut state = ComponentSharedState::new();
    let (state_tx, mut state_rx) = watch::channel(ComponentState::Idle);
    let mut ext = TestComponent::new();
    ext.refuse_start = true;
    handle_command(&mut state, &state_tx, Command::Configure(run_config(5)), Some(&mut ext));
    handle_command(&mut state, &state_tx, Command::Arm, Some(&mut ext));
    state_rx.borrow_and_update();
    let resp = handle_command(&mut state, &state_tx, Command::Start { run_number: 6 }, Some(&mut ext));
    assert!(!resp.success);
    assert_eq!(resp.run_number, None);
    assert_eq!(state.run_number(), Some(6));
    assert!(!state_rx.has_changed().unwrap());
    assert_eq!(*state_rx.borrow(), ComponentState::Armed);
}

#[test]
fn reset_from_running_is_accepted_and_broadcast() {
    let mut state = ComponentSharedState::new();
    state.state = ComponentState::Running;
    let (state_tx, state_rx) = watch::channel(ComponentState::Running);
    let resp = handle_command_simple(&mut state, &state_tx, Command::Reset, "S");
    assert!(resp.success);
    assert_eq!(state.state, ComponentState::Idle);
    assert!(state.run_config.is_none());
    assert_eq!(*state_rx.borrow(), ComponentState::Idle);
}

#[test]
fn decide_command_follows_hook_answer() {
    let mut state = ComponentSharedState::new();
    let (resp, sent) = decide_command(&mut state, Command::Configure(run_config(7)), Some(Ok(())), None);
    assert!(resp.success);
    assert_eq!(sent, Some(ComponentState::Configured));
    assert_eq!(state.state, ComponentState::Configured);

    let (resp, sent) = decide_command(&mut state, Command::Arm, Some(Err("busy".to_string())), None);
    assert!(!resp.success);
    assert_eq!(resp.message, "busy");
    assert_eq!(sent, None);
    assert_eq!(state.state, ComponentState::Configured);

    let (resp, sent) = decide_command(&mut state, Command::GetStatus, None, Some("x=1".to_string()));
    assert_eq!(resp.message, "State: Configured, Run: 7, x=1");
    assert_eq!(sent, None);

    let (resp, sent) = decide_command(&mut state, Command::Reset, None, None);
    assert!(resp.success);
    assert_eq!(sent, Some(ComponentState::Idle));
}

#[test]
fn only_the_commands_own_hook_runs_once() {
    let mut state = ComponentSharedState::new();
    let (state_tx, state_rx) = watch::channel(ComponentState::Idle);
    let mut ext = TestComponent::new();

    handle_command(&mut state, &state_tx, Command::Configure(run_config(42)), Some(&mut ext));
    assert!(ext.configure_called);
    assert!(!ext.arm_called && !ext.start_called && !ext.stop_called && !ext.reset_called);

    let resp = handle_command(&mut state, &state_tx, Command::Start { run_number: 9 }, Some(&mut ext));
    assert!(!resp.success);
    assert_eq!(ext.start_calls, 0);

    handle_command(&mut state, &state_tx, Command::Arm, Some(&mut ext));
    let resp = handle_command(&mut state, &state_tx, Command::Start { run_number: 43 }, Some(&mut ext));
    assert!(resp.success);
    assert_eq!(resp.run_number, Some(43));
    assert_eq!(state.run_number(), Some(43));
    assert_eq!(ext.start_calls, 1);
    assert_eq!(ext.last_start, Some(43));
    assert_eq!(*state_rx.borrow(), ComponentState::Running);

    let resp = handle_command(&mut state, &state_tx, Command::GetStatus, Some(&mut ext));
    assert!(resp.success);
    assert_eq!(ext.start_calls, 1);
    assert!(!ext.stop_called && !ext.reset_called);
}
