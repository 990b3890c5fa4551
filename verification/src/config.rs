//! Configuration of a DELILA DAQ system: the network topology (sources,
//! merger, recorder, monitor), the operational settings and the operator
//! section, with the defaults that a configuration file may leave out.
//!
//! Reading the TOML file is done by the program around this library; it
//! hands over the values it read.

use vstd::prelude::*;
use vstd::string::*;
use crate::text::{decimal, u64_to_decimal};

pub mod digitizer;

pub use digitizer::{BoardConfig, CaenParameter, ChannelConfig, DigitizerConfig, FirmwareType, ParamValue, SyncConfig};

verus! {

/// Configuration errors
#[derive(Debug, Clone)]
pub enum ConfigError {
    /// Failed to read config file
    IoError(String),
    /// Failed to parse TOML
    TomlError(String),
    /// Failed to parse digitizer JSON config
    DigitizerConfigError(String),
    /// Missing required field
    MissingField(String),
    /// MongoDB not yet supported
    MongoDbNotSupported,
}

impl ConfigError {
    /// The error's message.
    pub fn to_string(&self) -> (r: String)
        ensures
            r@ == match self {
                ConfigError::IoError(m) => "Failed to read config file: "@ + m@,
                ConfigError::TomlError(m) => "Failed to parse TOML: "@ + m@,
                ConfigError::DigitizerConfigError(m) => "Failed to parse digitizer JSON config: "@ + m@,
                ConfigError::MissingField(m) => "Missing required field: "@ + m@,
                ConfigError::MongoDbNotSupported => "MongoDB not yet supported"@,
            },
    {
        match self {
            ConfigError::IoError(m) => {
                let mut s = String::from_str("Failed to read config file: ");
                s.append(m.as_str());
                s
            },
            ConfigError::TomlError(m) => {
                let mut s = String::from_str("Failed to parse TOML: ");
                s.append(m.as_str());
                s
            },
            ConfigError::DigitizerConfigError(m) => {
                let mut s = String::from_str("Failed to parse digitizer JSON config: ");
                s.append(m.as_str());
                s
            },
            ConfigError::MissingField(m) => {
                let mut s = String::from_str("Missing required field: ");
                s.append(m.as_str());
                s
            },
            ConfigError::MongoDbNotSupported => String::from_str("MongoDB not yet supported"),
        }
    }
}

/// Top-level configuration
#[derive(Debug, Clone)]
pub struct Config {
    pub network: NetworkConfig,
    pub settings: SettingsConfig,
    /// Operator configuration
    pub operator: OperatorFileConfig,
}

impl Config {
    /// The source with the given id, if the network has one (the first
    /// such source).
    pub fn get_source(&self, source_id: u32) -> (r: Option<&SourceNetworkConfig>)
        ensures
            match r {
                Some(s) => exists|i: int|
                    0 <= i < self.network.sources@.len()
                        && self.network.sources@[i] == *s
                        && s.id == source_id
                        && forall|j: int| 0 <= j < i ==> #[trigger] self.network.sources@[j].id != source_id,
                None => forall|j: int|
                    0 <= j < self.network.sources@.len() ==> #[trigger] self.network.sources@[j].id != source_id,
            },
    {
        let sources = &self.network.sources;
        let mut i: usize = 0;
        while i < sources.len()
            invariant
                sources@ == self.network.sources@,
                i <= sources@.len(),
                forall|j: int| 0 <= j < i ==> #[trigger] sources@[j].id != source_id,
            decreases sources.len() - i,
        {
            if sources[i].id == source_id {
                assert(self.network.sources@[i as int] == sources@[i as int]);
                return Some(&sources[i]);
            }
            i = i + 1;
        }
        None
    }
}

/// Operator configuration from config file
#[derive(Debug, Clone)]
pub struct OperatorFileConfig {
    /// Experiment name (server-authoritative, not editable by UI)
    pub experiment_name: String,
}

impl Default for OperatorFileConfig {
    fn default() -> (r: OperatorFileConfig)
        ensures
            r.experiment_name@ == "DefaultExp"@,
    {
        OperatorFileConfig { experiment_name: default_experiment_name() }
    }
}

/// Experiment name of a file that names none.
pub fn default_experiment_name() -> (r: String)
    ensures
        r@ == "DefaultExp"@,
{
    String::from_str("DefaultExp")
}

/// Network topology configuration
#[derive(Debug, Clone)]
pub struct NetworkConfig {
    /// Cluster name for identification
    pub cluster_name: String,
    /// Data source configurations
    pub sources: Vec<SourceNetworkConfig>,
    /// Merger configuration
    pub merger: Option<MergerNetworkConfig>,
    /// Recorder configuration
    pub recorder: Option<RecorderNetworkConfig>,
    /// Monitor configuration
    pub monitor: Option<MonitorNetworkConfig>,
}

/// Cluster name of a file that names none.
pub fn default_cluster_name() -> (r: String)
    ensures
        r@ == "default"@,
{
    String::from_str("default")
}

/// Data source type
#[derive(Debug, Clone, Copy, PartialEq, Eq, Structural)]
pub enum SourceType {
    /// Emulator (dummy data generator for testing)
    Emulator,
    /// CAEN PSD firmware (legacy, via CAEN library)
    Psd1,
    /// CAEN PSD2 firmware (via dig2 library)
    Psd2,
    /// CAEN PHA firmware (via CAEN library)
    Pha1,
    /// CAEN DPP-ZLE firmware (future)
    Zle,
}

impl Default for SourceType {
    fn default() -> (r: SourceType)
        ensures
            r == SourceType::Emulator,
    {
        SourceType::Emulator
    }
}

/// Display name of a source type.
pub open spec fn source_type_name(t: SourceType) -> Seq<char> {
    match t {
        SourceType::Emulator => "Emulator"@,
        SourceType::Psd1 => "PSD1"@,
        SourceType::Psd2 => "PSD2"@,
        SourceType::Pha1 => "PHA1"@,
        SourceType::Zle => "ZLE"@,
    }
}

impl SourceType {
    /// The type's display name.
    pub fn to_string(&self) -> (r: String)
        ensures
            r@ == source_type_name(*self),
    {
        match self {
            SourceType::Emulator => String::from_str("Emulator"),
            SourceType::Psd1 => String::from_str("PSD1"),
            SourceType::Psd2 => String::from_str("PSD2"),
            SourceType::Pha1 => String::from_str("PHA1"),
            SourceType::Zle => String::from_str("ZLE"),
        }
    }
}

/// Data source (emulator/digitizer) network config
#[derive(Debug, Clone)]
pub struct SourceNetworkConfig {
    /// Unique source ID
    pub id: u32,
    /// Human-readable name
    pub name: String,
    /// Source type (emulator, psd1, psd2, pha1, zle)
    pub source_type: SourceType,
    /// ZMQ bind address for data (e.g., "tcp://*:5555")
    pub bind: String,
    /// ZMQ bind address for commands (e.g., "tcp://*:5560")
    pub command: Option<String>,
    /// Path to digitizer configuration file (JSON)
    pub config_file: Option<String>,
    /// Digitizer URL (e.g., "dig2://172.18.4.56")
    pub digitizer_url: Option<String>,
    /// Module ID for event tagging
    pub module_id: Option<u8>,
    /// Pipeline order for Start/Stop sequencing (1 = upstream, default: 1)
    pub pipeline_order: u32,
    /// Master digitizer flag for synchronized start
    pub is_master: bool,
}

/// Pipeline order of a source that names none: sources are upstream.
pub fn default_source_pipeline_order() -> (r: u32)
    ensures
        r == 1,
{
    1
}

/// The command port a source without an explicit command address binds:
/// 5560 plus its id (taken as a `u16`).
pub open spec fn default_command_port(id: u32) -> int {
    5560 + (id as u16)
}

/// `"config_file required for source '<name>' (type: <type>)"`.
pub open spec fn missing_config_file_text(name: Seq<char>, t: SourceType) -> Seq<char> {
    "config_file required for source '"@ + name + "' (type: "@ + source_type_name(t) + ")"@
}

impl SourceNetworkConfig {
    /// Check if this source is a real digitizer (not emulator)
    pub fn is_digitizer(&self) -> (r: bool)
        ensures
            r == (self.source_type != SourceType::Emulator),
    {
        self.source_type != SourceType::Emulator
    }

    /// Check if this source is an emulator
    pub fn is_emulator(&self) -> (r: bool)
        ensures
            r == (self.source_type == SourceType::Emulator),
    {
        self.source_type == SourceType::Emulator
    }

    /// Check if this source is the master digitizer
    pub fn is_master_digitizer(&self) -> (r: bool)
        ensures
            r == (self.is_master && self.source_type != SourceType::Emulator),
    {
        self.is_master && self.is_digitizer()
    }

    /// Command address, or `tcp://*:<5560 + id>` when none is set.
    pub fn command_address(&self) -> (r: String)
        requires
            self.command is None ==> default_command_port(self.id) <= u16::MAX,
        ensures
            r@ == match self.command {
                Some(c) => c@,
                None => "tcp://*:"@ + decimal(default_command_port(self.id) as nat),
            },
    {
        match &self.command {
            Some(c) => c.clone(),
            None => {
                let port: u16 = 5560 + (self.id as u16);
                let mut s = String::from_str("tcp://*:");
                s.append(u64_to_decimal(port as u64).as_str());
                s
            },
        }
    }

    /// The digitizer configuration file, or the error that a source which
    /// needs one reports when none is set.
    pub fn require_config_file(&self) -> (r: Result<&String, ConfigError>)
        ensures
            match self.config_file {
                Some(p) => r == Ok::<&String, ConfigError>(&p),
                None => r matches Err(ConfigError::MissingField(m))
                    && m@ == missing_config_file_text(self.name@, self.source_type),
            },
    {
        match &self.config_file {
            Some(p) => Ok(p),
            None => {
                let mut m = String::from_str("config_file required for source '");
                m.append(self.name.as_str());
                m.append("' (type: ");
                m.append(self.source_type.to_string().as_str());
                m.append(")");
                Err(ConfigError::MissingField(m))
            },
        }
    }
}

/// Merger network configuration
#[derive(Debug, Clone)]
pub struct MergerNetworkConfig {
    /// ZMQ addresses to subscribe to (upstream sources)
    pub subscribe: Vec<String>,
    /// ZMQ address to publish to (downstream)
    pub publish: String,
    /// ZMQ bind address for commands (e.g., "tcp://*:5570")
    pub command: Option<String>,
    /// Pipeline order for Start/Stop sequencing (default: 2)
    pub pipeline_order: u32,
}

/// Pipeline order of a merger that names none: the middle of the pipeline.
pub fn default_merger_pipeline_order() -> (r: u32)
    ensures
        r == 2,
{
    2
}

/// Recorder network configuration
#[derive(Debug, Clone)]
pub struct RecorderNetworkConfig {
    /// ZMQ address to subscribe to
    pub subscribe: String,
    /// ZMQ bind address for commands (e.g., "tcp://*:5580")
    pub command: Option<String>,
    /// Output directory for data files
    pub output_dir: String,
    /// Maximum file size in MB (default: 1024 = 1GB)
    pub max_file_size_mb: u64,
    /// Maximum file duration in seconds (default: 600 = 10 minutes)
    pub max_file_duration_sec: u64,
    /// Pipeline order for Start/Stop sequencing (default: 3)
    pub pipeline_order: u32,
}

/// Output directory of a recorder that names none.
pub fn default_output_dir() -> (r: String)
    ensures
        r@ == "./data"@,
{
    String::from_str("./data")
}

/// Maximum file size of a recorder that names none: 1 GB.
pub fn default_max_file_size_mb() -> (r: u64)
    ensures
        r == 1024,
{
    1024
}

/// Maximum file duration of a recorder that names none: 10 minutes.
pub fn default_max_file_duration_sec() -> (r: u64)
    ensures
        r == 600,
{
    600
}

/// Pipeline order of a sink that names none: sinks are downstream.
pub fn default_sink_pipeline_order() -> (r: u32)
    ensures
        r == 3,
{
    3
}

/// Monitor network configuration
#[derive(Debug, Clone)]
pub struct MonitorNetworkConfig {
    /// ZMQ address to subscribe to
    pub subscribe: String,
    /// ZMQ bind address for commands (e.g., "tcp://*:5590")
    pub command: Option<String>,
    /// HTTP server port for web UI
    pub http_port: u16,
    /// Pipeline order for Start/Stop sequencing (default: 3)
    pub pipeline_order: u32,
}

/// HTTP port of a monitor that names none.
pub fn default_http_port() -> (r: u16)
    ensures
        r == 8081,
{
    8081
}

/// Where to load operational settings from
#[derive(Debug, Clone, Copy, PartialEq, Eq, Structural)]
pub enum SettingsSource {
    File,
    MongoDB,
}

impl Default for SettingsSource {
    fn default() -> (r: SettingsSource)
        ensures
            r == SettingsSource::File,
    {
        SettingsSource::File
    }
}

/// Settings configuration
#[derive(Debug, Clone)]
pub struct SettingsConfig {
    /// Source of settings
    pub source: SettingsSource,
    /// File-based settings
    pub file: FileSettings,
    /// MongoDB connection settings (future)
    pub mongodb: Option<MongoDbSettings>,
}

impl Default for SettingsConfig {
    fn default() -> (r: SettingsConfig)
        ensures
            r.source == SettingsSource::File,
            r.file == default_file_settings(),
            r.mongodb is None,
    {
        SettingsConfig { source: SettingsSource::File, file: FileSettings::default(), mongodb: None }
    }
}

/// The settings that a file-based configuration yields.
pub open spec fn settings_of(f: FileSettings) -> Settings {
    Settings {
        events_per_batch: f.events_per_batch,
        batch_interval_ms: f.batch_interval_ms,
        num_modules: f.num_modules,
        channels_per_module: f.channels_per_module,
        enable_waveform: f.enable_waveform,
        waveform_probes: f.waveform_probes,
        waveform_samples: f.waveform_samples,
    }
}

impl SettingsConfig {
    /// The effective settings: those of the file section when settings come
    /// from the file; MongoDB is not supported yet.
    pub fn get_settings(&self) -> (r: Result<Settings, ConfigError>)
        ensures
            match self.source {
                SettingsSource::File => r == Ok::<Settings, ConfigError>(settings_of(self.file)),
                SettingsSource::MongoDB => r matches Err(ConfigError::MongoDbNotSupported),
            },
    {
        match self.source {
            SettingsSource::File => Ok(Settings::from(&self.file)),
            SettingsSource::MongoDB => Err(ConfigError::MongoDbNotSupported),
        }
    }
}

/// File-based operational settings
#[derive(Debug, Clone, Copy, PartialEq, Eq, Structural)]
pub struct FileSettings {
    /// Events per batch
    pub events_per_batch: u32,
    /// Batch interval in milliseconds
    pub batch_interval_ms: u64,
    /// Number of modules per digitizer
    pub num_modules: u32,
    /// Channels per module
    pub channels_per_module: u32,
    /// Enable waveform generation (emulator)
    pub enable_waveform: bool,
    /// Waveform probe bitmask (1=analog1, 2=analog2, 3=both analog, 63=all)
    pub waveform_probes: u8,
    /// Number of waveform samples
    pub waveform_samples: usize,
}

/// The file settings that a file with no settings section yields.
pub open spec fn default_file_settings() -> FileSettings {
    FileSettings {
        events_per_batch: 100,
        batch_interval_ms: 100,
        num_modules: 2,
        channels_per_module: 16,
        enable_waveform: false,
        waveform_probes: 3,
        waveform_samples: 512,
    }
}

impl Default for FileSettings {
    fn default() -> (r: FileSettings)
        ensures
            r == default_file_settings(),
    {
        FileSettings {
            events_per_batch: default_events_per_batch(),
            batch_interval_ms: default_batch_interval_ms(),
            num_modules: default_num_modules(),
            channels_per_module: default_channels_per_module(),
            enable_waveform: false,
            waveform_probes: default_waveform_probes(),
            waveform_samples: default_waveform_samples(),
        }
    }
}

pub fn default_events_per_batch() -> (r: u32)
    ensures
        r == 100,
{
    100
}

pub fn default_batch_interval_ms() -> (r: u64)
    ensures
        r == 100,
{
    100
}

pub fn default_num_modules() -> (r: u32)
    ensures
        r == 2,
{
    2
}

pub fn default_channels_per_module() -> (r: u32)
    ensures
        r == 16,
{
    16
}

/// Both analog probes.
pub fn default_waveform_probes() -> (r: u8)
    ensures
        r == 3,
{
    3
}

pub fn default_waveform_samples() -> (r: usize)
    ensures
        r == 512,
{
    512
}

/// MongoDB connection settings (future)
#[derive(Debug, Clone)]
pub struct MongoDbSettings {
    /// MongoDB URI
    pub uri: String,
    /// Database name
    pub database: String,
    /// Collection name
    pub collection: String,
}

/// Collection of a MongoDB section that names none.
pub fn default_collection() -> (r: String)
    ensures
        r@ == "run_config"@,
{
    String::from_str("run_config")
}

/// Unified operational settings (loaded from file or MongoDB)
#[derive(Debug, Clone, Copy, PartialEq, Eq, Structural)]
pub struct Settings {
    pub events_per_batch: u32,
    pub batch_interval_ms: u64,
    pub num_modules: u32,
    pub channels_per_module: u32,
    pub enable_waveform: bool,
    pub waveform_probes: u8,
    pub waveform_samples: usize,
}

impl Settings {
    /// The settings of a file-based configuration, field by field.
    pub fn from(file: &FileSettings) -> (r: Settings)
        ensures
            r == settings_of(*file),
    {
        Settings {
            events_per_batch: file.events_per_batch,
            batch_interval_ms: file.batch_interval_ms,
            num_modules: file.num_modules,
            channels_per_module: file.channels_per_module,
            enable_waveform: file.enable_waveform,
            waveform_probes: file.waveform_probes,
            waveform_samples: file.waveform_samples,
        }
    }
}

} // verus!
