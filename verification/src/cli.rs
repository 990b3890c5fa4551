//! Command-line arguments of the DELILA components: shared arguments by
//! composition, one argument set per component.
//!
//! The argument grammar itself (flags, long names, repetition) is declared
//! by the program around this library; these are the values it yields.

use vstd::prelude::*;
use vstd::string::*;
use crate::command::{Command, RunConfig};

verus! {

/// Common arguments shared across all DELILA components
#[derive(Debug, Clone)]
pub struct CommonArgs {
    /// Path to configuration file (`-f`, `--config`)
    pub config_file: String,
}

impl Default for CommonArgs {
    /// The configuration file a command line without `-f` names.
    fn default() -> (r: CommonArgs)
        ensures
            r.config_file@ == "config.toml"@,
    {
        CommonArgs { config_file: String::from_str("config.toml") }
    }
}

/// Arguments for source components (Reader, Emulator)
#[derive(Debug, Clone)]
pub struct SourceArgs {
    pub common: CommonArgs,
    /// Source ID (0-indexed module number)
    pub source_id: Option<u32>,
    /// Override bind address (e.g., tcp://*:5555)
    pub address: Option<String>,
}

/// Arguments for pipeline components (Recorder, Monitor, DataSink)
#[derive(Debug, Clone)]
pub struct PipelineArgs {
    pub common: CommonArgs,
}

/// Arguments for Merger (supports multiple upstream sources)
#[derive(Debug, Clone)]
pub struct MergerArgs {
    pub common: CommonArgs,
    /// Upstream addresses to subscribe to (`-s`, repeatable)
    pub sub_addresses: Vec<String>,
    /// Downstream address to publish to
    pub pub_address: Option<String>,
}

/// Arguments for Recorder (file writer)
#[derive(Debug, Clone)]
pub struct RecorderArgs {
    pub common: CommonArgs,
    /// ZMQ address to subscribe to
    pub address: Option<String>,
    /// Output directory for data files
    pub output_dir: Option<String>,
}

/// Arguments for Monitor (web histogram display)
#[derive(Debug, Clone)]
pub struct MonitorArgs {
    pub common: CommonArgs,
    /// ZMQ address to subscribe to
    pub address: Option<String>,
    /// HTTP server port
    pub port: Option<u16>,
}

/// Arguments for DataSink (test subscriber)
#[derive(Debug, Clone)]
pub struct DataSinkArgs {
    pub common: CommonArgs,
    /// ZMQ address to subscribe to
    pub address: Option<String>,
}

/// Arguments for Operator (Web UI / Control API)
#[derive(Debug, Clone)]
pub struct OperatorArgs {
    pub common: CommonArgs,
    /// HTTP server port (default 8080)
    pub port: u16,
}

/// The HTTP port of an operator command line without `--port`.
pub fn default_operator_port() -> (r: u16)
    ensures
        r == 8080,
{
    8080
}

/// Arguments for Controller (CLI control client)
#[derive(Debug, Clone)]
pub struct ControllerArgs {
    /// Target component's command address (e.g., tcp://localhost:5560)
    pub address: String,
    /// Command to send (e.g., GetStatus, Configure, Arm, Start, Stop)
    pub command: String,
    /// Run number (required for Configure command)
    pub run_number: Option<u32>,
    /// Experiment name (optional for Configure command)
    pub exp_name: Option<String>,
}

/// A controller subcommand: the command to send and the component's
/// command address.
#[derive(Debug, Clone)]
pub enum ControllerCommand {
    /// Configure component for run (Idle to Configured)
    Configure { address: String, run_number: u32, comment: Option<String> },
    /// Prepare for acquisition (Configured to Armed)
    Arm { address: String },
    /// Begin data acquisition (Armed to Running)
    Start { address: String, run_number: u32 },
    /// Stop acquisition (Running to Configured)
    Stop { address: String },
    /// Reset to idle state (any to Idle)
    Reset { address: String },
    /// Query current status
    Status { address: String },
}

impl ControllerCommand {
    /// The command a subcommand sends.
    pub fn to_command(&self) -> (r: Command)
        ensures
            match *self {
                ControllerCommand::Configure { run_number, comment, .. } => r matches Command::Configure(rc)
                    && rc.run_number == run_number && rc.exp_name@ == Seq::<char>::empty() && rc.comment@ == (
                match comment {
                    Some(c) => c@,
                    None => Seq::<char>::empty(),
                }),
                ControllerCommand::Arm { .. } => r is Arm,
                ControllerCommand::Start { run_number, .. } => r == Command::Start { run_number },
                ControllerCommand::Stop { .. } => r is Stop,
                ControllerCommand::Reset { .. } => r is Reset,
                ControllerCommand::Status { .. } => r is GetStatus,
            },
    {
        match self {
            ControllerCommand::Configure { run_number, comment, .. } => Command::Configure(
                RunConfig {
                    run_number: *run_number,
                    comment: match comment {
                        Some(c) => c.clone(),
                        None => String::new(),
                    },
                    exp_name: String::new(),
                },
            ),
            ControllerCommand::Arm { .. } => Command::Arm,
            ControllerCommand::Start { run_number, .. } => Command::Start { run_number: *run_number },
            ControllerCommand::Stop { .. } => Command::Stop,
            ControllerCommand::Reset { .. } => Command::Reset,
            ControllerCommand::Status { .. } => Command::GetStatus,
        }
    }

    /// The command address of the target component.
    pub fn address(&self) -> (r: &str)
        ensures
            r@ == match *self {
                ControllerCommand::Configure { address, .. } => address@,
                ControllerCommand::Arm { address } => address@,
                ControllerCommand::Start { address, .. } => address@,
                ControllerCommand::Stop { address } => address@,
                ControllerCommand::Reset { address } => address@,
                ControllerCommand::Status { address } => address@,
            },
    {
        match self {
            ControllerCommand::Configure { address, .. } => address.as_str(),
            ControllerCommand::Arm { address } => address.as_str(),
            ControllerCommand::Start { address, .. } => address.as_str(),
            ControllerCommand::Stop { address } => address.as_str(),
            ControllerCommand::Reset { address } => address.as_str(),
            ControllerCommand::Status { address } => address.as_str(),
        }
    }
}

} // verus!
