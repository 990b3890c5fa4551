//! Command and response types for component control.
//!
//! Every component runs the same five-state machine:
//! `Idle --Configure--> Configured --Arm--> Armed --Start--> Running`,
//! `Running --Stop--> Configured`, and `Reset` back to `Idle`; `Error` is
//! reachable from every active state and left only by `Reset`.

use vstd::prelude::*;
use vstd::string::*;
use crate::text::{decimal, u64_to_decimal};

verus! {

/// Component state (five-state machine).
#[derive(Debug, Clone, Copy, PartialEq, Eq, Structural)]
pub enum ComponentState {
    /// Initial state, no configuration loaded
    Idle,
    /// Configuration loaded and validated
    Configured,
    /// Hardware/resources prepared, ready to start
    Armed,
    /// Actively acquiring/processing data
    Running,
    /// Recoverable error occurred
    Error,
}

/// The transition relation of the state machine.
pub open spec fn valid_transition(from: ComponentState, to: ComponentState) -> bool {
    match (from, to) {
        (ComponentState::Idle, ComponentState::Configured) => true,
        (ComponentState::Configured, ComponentState::Armed) => true,
        (ComponentState::Armed, ComponentState::Running) => true,
        (ComponentState::Running, ComponentState::Configured) => true,
        (ComponentState::Configured, ComponentState::Idle) => true,
        (ComponentState::Armed, ComponentState::Idle) => true,
        (ComponentState::Running, ComponentState::Idle) => true,
        (ComponentState::Error, ComponentState::Idle) => true,
        (ComponentState::Configured, ComponentState::Error) => true,
        (ComponentState::Armed, ComponentState::Error) => true,
        (ComponentState::Running, ComponentState::Error) => true,
        _ => false,
    }
}

/// Display name of a state.
pub open spec fn state_name(s: ComponentState) -> Seq<char> {
    match s {
        ComponentState::Idle => "Idle"@,
        ComponentState::Configured => "Configured"@,
        ComponentState::Armed => "Armed"@,
        ComponentState::Running => "Running"@,
        ComponentState::Error => "Error"@,
    }
}

/// Names of the commands accepted in a state.
pub open spec fn valid_command_names(s: ComponentState) -> Seq<Seq<char>> {
    match s {
        ComponentState::Idle => seq!["Configure"@, "GetStatus"@],
        ComponentState::Configured => seq!["Arm"@, "Reset"@, "GetStatus"@],
        ComponentState::Armed => seq!["Start"@, "Reset"@, "GetStatus"@],
        ComponentState::Running => seq!["Stop"@, "Reset"@, "GetStatus"@],
        ComponentState::Error => seq!["Reset"@, "GetStatus"@],
    }
}

/// Reset is listed as a valid command in every state that can return to
/// Idle ("Reset from any state").
pub proof fn lemma_reset_listed_where_allowed(s: ComponentState)
    requires
        valid_transition(s, ComponentState::Idle),
    ensures
        valid_command_names(s).contains("Reset"@),
{
    match s {
        ComponentState::Configured => assert(valid_command_names(s)[1] == "Reset"@),
        ComponentState::Armed => assert(valid_command_names(s)[1] == "Reset"@),
        ComponentState::Running => assert(valid_command_names(s)[1] == "Reset"@),
        ComponentState::Error => assert(valid_command_names(s)[0] == "Reset"@),
        ComponentState::Idle => {},
    }
}

/// The state machine's edges, listed by the state they lead to: Configured
/// is entered from Idle (Configure) or Running (Stop); Armed only from
/// Configured; Running only from Armed; Idle (Reset) from every other
/// state; Error from the three active states. No state leads to itself.
pub proof fn lemma_transition_table(from: ComponentState, to: ComponentState)
    ensures
        to == ComponentState::Configured ==> (valid_transition(from, to) <==> (from == ComponentState::Idle
            || from == ComponentState::Running)),
        to == ComponentState::Armed ==> (valid_transition(from, to) <==> from == ComponentState::Configured),
        to == ComponentState::Running ==> (valid_transition(from, to) <==> from == ComponentState::Armed),
        to == ComponentState::Idle ==> (valid_transition(from, to) <==> from != ComponentState::Idle),
        to == ComponentState::Error ==> (valid_transition(from, to) <==> (from == ComponentState::Configured
            || from == ComponentState::Armed || from == ComponentState::Running)),
        !valid_transition(from, from),
{
}

/// The commands a state lists agree with the transitions it allows: Start
/// is listed exactly where Running can be entered, Arm exactly where Armed
/// can be, Stop only while Running, and GetStatus everywhere.
pub proof fn lemma_listed_commands_match_transitions(s: ComponentState)
    ensures
        valid_command_names(s).contains("Start"@) <==> valid_transition(s, ComponentState::Running),
        valid_command_names(s).contains("Arm"@) <==> valid_transition(s, ComponentState::Armed),
        valid_command_names(s).contains("Stop"@) <==> s == ComponentState::Running,
        valid_command_names(s).contains("GetStatus"@),
{
    reveal_strlit("Configure");
    reveal_strlit("GetStatus");
    reveal_strlit("Arm");
    reveal_strlit("Reset");
    reveal_strlit("Start");
    reveal_strlit("Stop");
    let n = valid_command_names(s);
    assert(n.contains(n[n.len() - 1]));
    assert(n[0] == n[0]);
    if s == ComponentState::Armed {
        assert(n[0] == "Start"@);
    }
    if s == ComponentState::Configured {
        assert(n[0] == "Arm"@);
    }
    if s == ComponentState::Running {
        assert(n[0] == "Stop"@);
    }
    assert forall|i: int| 0 <= i < n.len() implies (n[i] == "Start"@ ==> s == ComponentState::Armed)
        && (n[i] == "Arm"@ ==> s == ComponentState::Configured) && (n[i] == "Stop"@ ==> s
        == ComponentState::Running) by {
        assert("Start"@ != "Configure"@ && "Start"@ != "GetStatus"@ && "Start"@ != "Reset"@ && "Start"@ != "Stop"@
            && "Start"@ != "Arm"@) by {
            assert("Start"@[2] != "Configure"@[2]);
            assert("Start"@.len() != "GetStatus"@.len());
            assert("Start"@[0] != "Reset"@[0]);
            assert("Start"@.len() != "Stop"@.len());
            assert("Start"@.len() != "Arm"@.len());
        }
        assert("Arm"@ != "Configure"@ && "Arm"@ != "GetStatus"@ && "Arm"@ != "Reset"@ && "Arm"@ != "Stop"@) by {
            assert("Arm"@.len() != "Configure"@.len());
            assert("Arm"@.len() != "GetStatus"@.len());
            assert("Arm"@.len() != "Reset"@.len());
            assert("Arm"@.len() != "Stop"@.len());
        }
        assert("Stop"@ != "Configure"@ && "Stop"@ != "GetStatus"@ && "Stop"@ != "Reset"@) by {
            assert("Stop"@.len() != "Configure"@.len());
            assert("Stop"@.len() != "GetStatus"@.len());
            assert("Stop"@.len() != "Reset"@.len());
        }
    }
}

impl ComponentState {
    /// Check if transition to target state is valid
    pub fn can_transition_to(&self, target: ComponentState) -> (r: bool)
        ensures
            r == valid_transition(*self, target),
    {
        match (*self, target) {
            (ComponentState::Idle, ComponentState::Configured)
            | (ComponentState::Configured, ComponentState::Armed)
            | (ComponentState::Armed, ComponentState::Running)
            | (ComponentState::Running, ComponentState::Configured)
            | (ComponentState::Configured, ComponentState::Idle)
            | (ComponentState::Armed, ComponentState::Idle)
            | (ComponentState::Running, ComponentState::Idle)
            | (ComponentState::Error, ComponentState::Idle)
            | (ComponentState::Configured, ComponentState::Error)
            | (ComponentState::Armed, ComponentState::Error)
            | (ComponentState::Running, ComponentState::Error) => true,
            _ => false,
        }
    }

    /// Get valid commands for current state
    pub fn valid_commands(&self) -> (r: Vec<&'static str>)
        ensures
            r@.len() == valid_command_names(*self).len(),
            forall|i: int| 0 <= i < r@.len() ==> #[trigger] r@[i]@ == valid_command_names(*self)[i],
    {
        proof {
            reveal_strlit("Configure");
            reveal_strlit("GetStatus");
            reveal_strlit("Arm");
            reveal_strlit("Reset");
            reveal_strlit("Start");
            reveal_strlit("Stop");
        }
        match self {
            ComponentState::Idle => vec!["Configure", "GetStatus"],
            ComponentState::Configured => vec!["Arm", "Reset", "GetStatus"],
            ComponentState::Armed => vec!["Start", "Reset", "GetStatus"],
            ComponentState::Running => vec!["Stop", "Reset", "GetStatus"],
            ComponentState::Error => vec!["Reset", "GetStatus"],
        }
    }

    /// The display name of the state (`Idle`, `Configured`, ...).
    pub fn to_string(&self) -> (r: String)
        ensures
            r@ == state_name(*self),
    {
        match self {
            ComponentState::Idle => String::from_str("Idle"),
            ComponentState::Configured => String::from_str("Configured"),
            ComponentState::Armed => String::from_str("Armed"),
            ComponentState::Running => String::from_str("Running"),
            ComponentState::Error => String::from_str("Error"),
        }
    }
}

/// Run configuration passed with Configure command
#[derive(Debug, Clone)]
pub struct RunConfig {
    /// Run number for this acquisition
    pub run_number: u32,
    /// Optional description/comment
    pub comment: String,
    /// Experiment name (used in output filenames)
    pub exp_name: String,
}

impl RunConfig {
    /// A run configuration with the given run number and empty comment and
    /// experiment name (the `Default` of the other fields).
    pub fn with_run_number(run_number: u32) -> (r: RunConfig)
        ensures
            r.run_number == run_number,
            r.comment@ == Seq::<char>::empty(),
            r.exp_name@ == Seq::<char>::empty(),
    {
        RunConfig { run_number, comment: String::new(), exp_name: String::new() }
    }
}

impl Default for RunConfig {
    fn default() -> (r: RunConfig)
        ensures
            r.run_number == 0,
            r.comment@ == Seq::<char>::empty(),
            r.exp_name@ == Seq::<char>::empty(),
    {
        RunConfig::with_run_number(0)
    }
}

/// Runtime-configurable emulator settings.
///
/// These settings can be updated while the emulator is running; changes
/// take effect on the next batch generation.
#[derive(Debug, Clone, Copy)]
pub struct EmulatorRuntimeConfig {
    /// Events per batch
    pub events_per_batch: u32,
    /// Batch interval in milliseconds (0 = maximum speed)
    pub batch_interval_ms: u64,
    /// Enable waveform generation
    pub enable_waveform: bool,
    /// Waveform probe bitmask (1=analog1, 2=analog2, 3=both, 63=all)
    pub waveform_probes: u8,
    /// Number of waveform samples
    pub waveform_samples: u32,
}

/// Commands sent from controller to components
#[derive(Debug, Clone)]
pub enum Command {
    /// Load configuration and prepare for run (Idle -> Configured)
    Configure(RunConfig),
    /// Prepare hardware/resources for acquisition (Configured -> Armed)
    Arm,
    /// Begin data acquisition (Armed -> Running); the run number is given
    /// at start time so it can change without re-configuring hardware
    Start { run_number: u32 },
    /// Stop data acquisition (Running -> Configured)
    Stop,
    /// Reset to initial state (any -> Idle)
    Reset,
    /// Query current status
    GetStatus,
    /// Update emulator runtime configuration; accepted in any state
    UpdateEmulatorConfig(EmulatorRuntimeConfig),
}

/// Display text of a command.
pub open spec fn command_text(c: Command) -> Seq<char> {
    match c {
        Command::Configure(cfg) => "Configure(run="@ + decimal(cfg.run_number as nat) + ")"@,
        Command::Arm => "Arm"@,
        Command::Start { run_number } => "Start(run="@ + decimal(run_number as nat) + ")"@,
        Command::Stop => "Stop"@,
        Command::Reset => "Reset"@,
        Command::GetStatus => "GetStatus"@,
        Command::UpdateEmulatorConfig(cfg) => "UpdateEmulatorConfig(events="@ + decimal(
            cfg.events_per_batch as nat,
        ) + ")"@,
    }
}

impl Command {
    /// The display text of the command, e.g. `Configure(run=99)`.
    pub fn to_string(&self) -> (r: String)
        ensures
            r@ == command_text(*self),
    {
        match self {
            Command::Configure(cfg) => {
                let mut s = String::from_str("Configure(run=");
                s.append(u64_to_decimal(cfg.run_number as u64).as_str());
                s.append(")");
                s
            },
            Command::Arm => String::from_str("Arm"),
            Command::Start { run_number } => {
                let mut s = String::from_str("Start(run=");
                s.append(u64_to_decimal(*run_number as u64).as_str());
                s.append(")");
                s
            },
            Command::Stop => String::from_str("Stop"),
            Command::Reset => String::from_str("Reset"),
            Command::GetStatus => String::from_str("GetStatus"),
            Command::UpdateEmulatorConfig(cfg) => {
                let mut s = String::from_str("UpdateEmulatorConfig(events=");
                s.append(u64_to_decimal(cfg.events_per_batch as u64).as_str());
                s.append(")");
                s
            },
        }
    }
}

/// Response from component to controller
#[derive(Debug, Clone)]
pub struct CommandResponse {
    /// Whether the command succeeded
    pub success: bool,
    /// Current component state after command
    pub state: ComponentState,
    /// Human-readable message
    pub message: String,
    /// Current run number (if configured)
    pub run_number: Option<u32>,
    /// Error code (if in error state)
    pub error_code: Option<u32>,
}

impl CommandResponse {
    /// Create a success response
    pub fn success(state: ComponentState, message: &str) -> (r: CommandResponse)
        ensures
            r.success,
            r.state == state,
            r.message@ == message@,
            r.run_number is None,
            r.error_code is None,
    {
        CommandResponse {
            success: true,
            state,
            message: String::from_str(message),
            run_number: None,
            error_code: None,
        }
    }

    /// Create a success response with run number
    pub fn success_with_run(state: ComponentState, message: &str, run_number: u32) -> (r:
        CommandResponse)
        ensures
            r.success,
            r.state == state,
            r.message@ == message@,
            r.run_number == Some(run_number),
            r.error_code is None,
    {
        CommandResponse {
            success: true,
            state,
            message: String::from_str(message),
            run_number: Some(run_number),
            error_code: None,
        }
    }

    /// Create an error response
    pub fn error(state: ComponentState, message: &str) -> (r: CommandResponse)
        ensures
            !r.success,
            r.state == state,
            r.message@ == message@,
            r.run_number is None,
            r.error_code is None,
    {
        CommandResponse {
            success: false,
            state,
            message: String::from_str(message),
            run_number: None,
            error_code: None,
        }
    }

    /// Create an error response with error code
    pub fn error_with_code(state: ComponentState, message: &str, error_code: u32) -> (r:
        CommandResponse)
        ensures
            !r.success,
            r.state == state,
            r.message@ == message@,
            r.run_number is None,
            r.error_code == Some(error_code),
    {
        CommandResponse {
            success: false,
            state,
            message: String::from_str(message),
            run_number: None,
            error_code: Some(error_code),
        }
    }
}

} // verus!
