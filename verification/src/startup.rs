//! How each component's startup configuration follows from its command
//! line and from the configuration file the program read.

use vstd::prelude::*;
use vstd::string::*;
use crate::cli::{DataSinkArgs, MergerArgs, SourceArgs};
use crate::config::{MergerNetworkConfig, NetworkConfig, Settings, SourceNetworkConfig};
use crate::data_sink::DataSinkConfig;
use crate::emulator::waveform_probes;
use crate::emulator::EmulatorConfig;
use crate::merger::MergerConfig;
use crate::text::{decimal, u64_to_decimal};

verus! {

/// The text of an optional string, or `d` when there is none.
pub open spec fn text_or(o: Option<String>, d: Seq<char>) -> Seq<char> {
    match o {
        Some(s) => s@,
        None => d,
    }
}

/// `tcp://*:<port>`.
pub open spec fn any_host(port: nat) -> Seq<char> {
    "tcp://*:"@ + decimal(port)
}

fn clone_or(o: &Option<String>, d: &str) -> (r: String)
    ensures
        r@ == text_or(*o, d@),
{
    match o {
        Some(s) => s.clone(),
        None => String::from_str(d),
    }
}

fn any_host_exec(port: u16) -> (r: String)
    ensures
        r@ == any_host(port as nat),
{
    let mut s = String::from_str("tcp://*:");
    s.append(u64_to_decimal(port as u64).as_str());
    s
}

fn clone_strings(v: &Vec<String>) -> (r: Vec<String>)
    ensures
        r@ == v@,
{
    let mut out: Vec<String> = Vec::new();
    for i in 0..v.len()
        invariant
            out@ == v@.take(i as int),
    {
        proof {
            assert(v@.take(i + 1) == v@.take(i as int).push(v@[i as int]));
        }
        out.push(v[i].clone());
    }
    proof {
        assert(v@.take(v@.len() as int) == v@);
    }
    out
}

/// The merger's configuration: the upstream addresses of the command line
/// when it names any, else those of the file; the downstream address of
/// the command line, else the file's; the file's command address, else
/// `tcp://*:5570`; the default backlog watermarks.
pub fn merger_config(args: &MergerArgs, net: &MergerNetworkConfig) -> (r: MergerConfig)
    ensures
        r.sub_addresses@ == (if args.sub_addresses@.len() == 0 { net.subscribe@ } else { args.sub_addresses@ }),
        r.pub_address@ == text_or(args.pub_address, net.publish@),
        r.command_address@ == text_or(net.command, "tcp://*:5570"@),
        r.backlog_soft_limit_bytes == 4096 * 1024 * 1024,
        r.backlog_hard_limit_bytes == 0,
{
    let defaults = MergerConfig::default();
    let sub_addresses = if args.sub_addresses.len() == 0 {
        clone_strings(&net.subscribe)
    } else {
        clone_strings(&args.sub_addresses)
    };
    MergerConfig {
        sub_addresses,
        pub_address: clone_or(&args.pub_address, net.publish.as_str()),
        command_address: clone_or(&net.command, "tcp://*:5570"),
        backlog_soft_limit_bytes: defaults.backlog_soft_limit_bytes,
        backlog_hard_limit_bytes: defaults.backlog_hard_limit_bytes,
    }
}

/// The address a data sink subscribes to by default: the recorder's feed
/// when the file has a recorder, else the monitor's, else
/// `tcp://localhost:5557`.
pub open spec fn sink_feed(net: NetworkConfig) -> Seq<char> {
    match net.recorder {
        Some(rec) => rec.subscribe@,
        None => match net.monitor {
            Some(m) => m.subscribe@,
            None => "tcp://localhost:5557"@,
        },
    }
}

/// The command address of a data sink: the recorder's when the file has a
/// recorder that names one, else `tcp://*:5580`.
pub open spec fn sink_command(net: NetworkConfig) -> Seq<char> {
    match net.recorder {
        Some(rec) => text_or(rec.command, "tcp://*:5580"@),
        None => "tcp://*:5580"@,
    }
}

/// The data sink's configuration: the command line's address, else the
/// default feed; statistics every second; a channel of 1000 batches.
pub fn sink_config(args: &DataSinkArgs, net: &NetworkConfig) -> (r: DataSinkConfig)
    ensures
        r.address@ == text_or(args.address, sink_feed(*net)),
        r.command_address@ == sink_command(*net),
        r.stats_interval_secs == 1,
        r.channel_capacity == 1000,
{
    let (feed, command) = match &net.recorder {
        Some(rec) => (rec.subscribe.clone(), clone_or(&rec.command, "tcp://*:5580")),
        None => match &net.monitor {
            Some(m) => (m.subscribe.clone(), String::from_str("tcp://*:5580")),
            None => (String::from_str("tcp://localhost:5557"), String::from_str("tcp://*:5580")),
        },
    };
    let address = match &args.address {
        Some(a) => a.clone(),
        None => feed,
    };
    DataSinkConfig { address, command_address: command, stats_interval_secs: 1, channel_capacity: 1000 }
}

/// The source id of an emulator command line: the given one, else 0.
pub open spec fn emulator_id(args: SourceArgs) -> u32 {
    match args.source_id {
        Some(id) => id,
        None => 0,
    }
}

/// The data port an emulator without a bind address uses: 5555 plus its
/// id taken as a `u16`.
pub open spec fn default_data_port(id: u32) -> int {
    5555 + (id as u16)
}

/// The command port an emulator without a command address uses: 5560
/// plus its id taken as a `u16`.
pub open spec fn default_emulator_command_port(id: u32) -> int {
    5560 + (id as u16)
}

/// The emulator's configuration when a configuration file was read: the
/// bind address of the command line, else that of the file's source with
/// the emulator's id, else the default data port; that source's command
/// address, else the default command port; batch size and interval of the
/// command line, else of the settings; the settings' module, channel and
/// waveform values; a 1 Hz heartbeat.
pub fn emulator_config_from_settings(
    args: &SourceArgs,
    source_net: Option<&SourceNetworkConfig>,
    settings: &Settings,
    events: Option<usize>,
    interval: Option<u64>,
) -> (r: EmulatorConfig)
    requires
        args.address is None && source_net is None ==> default_data_port(emulator_id(*args)) <= u16::MAX,
        !(source_net matches Some(s) && s.command is Some) ==> default_emulator_command_port(emulator_id(*args))
            <= u16::MAX,
    ensures
        r.address@ == match args.address {
            Some(a) => a@,
            None => match source_net {
                Some(s) => s.bind@,
                None => any_host(default_data_port(emulator_id(*args)) as nat),
            },
        },
        r.command_address@ == match source_net {
            Some(s) => text_or(s.command, any_host(default_emulator_command_port(emulator_id(*args)) as nat)),
            None => any_host(default_emulator_command_port(emulator_id(*args)) as nat),
        },
        r.source_id == emulator_id(*args),
        r.events_per_batch == match events {
            Some(e) => e,
            None => settings.events_per_batch as usize,
        },
        r.batch_interval_ms == match interval {
            Some(i) => i,
            None => settings.batch_interval_ms,
        },
        r.heartbeat_interval_ms == 1000,
        r.num_modules == settings.num_modules as u8,
        r.channels_per_module == settings.channels_per_module as u8,
        r.enable_waveform == settings.enable_waveform,
        r.waveform_probes == settings.waveform_probes,
        r.waveform_samples == settings.waveform_samples,
{
    let sid: u32 = match args.source_id {
        Some(id) => id,
        None => 0,
    };
    let address = match &args.address {
        Some(a) => a.clone(),
        None => match source_net {
            Some(s) => s.bind.clone(),
            None => any_host_exec(5555 + (sid as u16)),
        },
    };
    let command_address = match source_net {
        Some(s) => match &s.command {
            Some(c) => c.clone(),
            None => any_host_exec(5560 + (sid as u16)),
        },
        None => any_host_exec(5560 + (sid as u16)),
    };
    EmulatorConfig {
        address,
        command_address,
        source_id: sid,
        events_per_batch: match events {
            Some(e) => e,
            None => settings.events_per_batch as usize,
        },
        batch_interval_ms: match interval {
            Some(i) => i,
            None => settings.batch_interval_ms,
        },
        heartbeat_interval_ms: 1000,
        num_modules: settings.num_modules as u8,
        channels_per_module: settings.channels_per_module as u8,
        enable_waveform: settings.enable_waveform,
        waveform_probes: settings.waveform_probes,
        waveform_samples: settings.waveform_samples,
    }
}

/// The emulator's configuration without a configuration file: the command
/// line's bind address, else `tcp://*:5555`; the default command port;
/// batch size and interval of the command line, else 100 events every
/// 100 ms; two modules of 16 channels; a 1 Hz heartbeat; no waveforms.
pub fn emulator_config_standalone(args: &SourceArgs, events: Option<usize>, interval: Option<u64>) -> (r: EmulatorConfig)
    requires
        default_emulator_command_port(emulator_id(*args)) <= u16::MAX,
    ensures
        r.address@ == text_or(args.address, "tcp://*:5555"@),
        r.command_address@ == any_host(default_emulator_command_port(emulator_id(*args)) as nat),
        r.source_id == emulator_id(*args),
        r.events_per_batch == match events {
            Some(e) => e,
            None => 100,
        },
        r.batch_interval_ms == match interval {
            Some(i) => i,
            None => 100,
        },
        r.heartbeat_interval_ms == 1000,
        r.num_modules == 2,
        r.channels_per_module == 16,
        !r.enable_waveform,
        r.waveform_probes == waveform_probes::ALL_ANALOG,
        r.waveform_samples == 512,
{
    let sid: u32 = match args.source_id {
        Some(id) => id,
        None => 0,
    };
    EmulatorConfig {
        address: clone_or(&args.address, "tcp://*:5555"),
        command_address: any_host_exec(5560 + (sid as u16)),
        source_id: sid,
        events_per_batch: match events {
            Some(e) => e,
            None => 100,
        },
        batch_interval_ms: match interval {
            Some(i) => i,
            None => 100,
        },
        heartbeat_interval_ms: 1000,
        num_modules: 2,
        channels_per_module: 16,
        enable_waveform: false,
        waveform_probes: waveform_probes::ALL_ANALOG,
        waveform_samples: 512,
    }
}

} // verus!
