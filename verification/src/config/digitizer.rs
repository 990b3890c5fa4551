//! Digitizer configuration: the board settings, the channel defaults and
//! the sparse per-channel overrides of a CAEN digitizer, and their
//! conversion into the path/value pairs that CAEN FELib applies.
//!
//! Parameter paths follow FELib: `/par/<name>` for the board,
//! `/ch/<N>/par/<name>` for one channel and `/ch/0..<N-1>/par/<name>` for
//! a channel range. Values are kept as text; FELib validates them.

use vstd::prelude::*;
use vstd::string::*;
use std::collections::HashMap;
use vstd::std_specs::iter::IteratorSpec;
use crate::chars::chars_of;
use crate::text::{decimal, u64_to_decimal};

verus! {

broadcast use vstd::std_specs::hash::group_hash_axioms;

/// Supported firmware types
#[derive(Debug, Clone, Copy, PartialEq, Eq, Structural)]
pub enum FirmwareType {
    /// DPP-PSD firmware (legacy x725/x730)
    PSD1,
    /// DPP-PSD2 firmware (x274x series)
    PSD2,
    /// DPP-PHA firmware (for spectroscopy)
    PHA,
}

/// URL scheme of a firmware type.
pub open spec fn url_scheme_text(f: FirmwareType) -> Seq<char> {
    match f {
        FirmwareType::PSD1 => "dig1://"@,
        FirmwareType::PSD2 => "dig2://"@,
        FirmwareType::PHA => "dig2://"@,
    }
}

impl FirmwareType {
    /// The URL scheme prefix for this firmware (PHA uses the PSD2 scheme).
    pub fn url_scheme(&self) -> (r: &'static str)
        ensures
            r@ == url_scheme_text(*self),
    {
        match self {
            FirmwareType::PSD1 => "dig1://",
            FirmwareType::PSD2 => "dig2://",
            FirmwareType::PHA => "dig2://",
        }
    }
}

/// Synchronization configuration for Master/Slave setups
#[derive(Debug, Clone)]
pub struct SyncConfig {
    /// TrgOut source (master only)
    pub trgout_source: Option<String>,
    /// SIN source for sync input (slave only)
    pub sin_source: Option<String>,
    /// Start source override
    pub start_source: Option<String>,
}

impl Default for SyncConfig {
    fn default() -> (r: SyncConfig)
        ensures
            r.trgout_source is None,
            r.sin_source is None,
            r.start_source is None,
    {
        SyncConfig { trgout_source: None, sin_source: None, start_source: None }
    }
}

/// CAEN parameter path-value pair
#[derive(Debug, Clone)]
pub struct CaenParameter {
    pub path: String,
    pub value: String,
}


/// A value of an `extra` parameter as it was written in the JSON
/// configuration, kept as the parameter list reads it.
#[derive(Debug)]
pub enum ParamValue {
    /// A JSON string
    Text(String),
    /// A JSON number, in its JSON notation
    Number(String),
    /// A JSON boolean
    Bool(bool),
    /// Any other JSON value (null, array, object), in its JSON notation
    Other(String),
}

impl Clone for ParamValue {
    fn clone(&self) -> (r: ParamValue)
        ensures
            r == *self,
    {
        match self {
            ParamValue::Text(s) => ParamValue::Text(s.clone()),
            ParamValue::Number(s) => ParamValue::Number(s.clone()),
            ParamValue::Bool(b) => ParamValue::Bool(*b),
            ParamValue::Other(s) => ParamValue::Other(s.clone()),
        }
    }
}

/// `"true"` or `"false"`.
pub open spec fn bool_text(b: bool) -> Seq<char> {
    if b { "true"@ } else { "false"@ }
}

/// The text FELib receives for an `extra` value: a string as it is,
/// anything else in its JSON notation.
pub open spec fn param_value_text(v: ParamValue) -> Seq<char> {
    match v {
        ParamValue::Text(s) => s@,
        ParamValue::Number(n) => n@,
        ParamValue::Bool(b) => bool_text(b),
        ParamValue::Other(j) => j@,
    }
}

fn bool_to_string(b: bool) -> (r: String)
    ensures
        r@ == bool_text(b),
{
    if b { String::from_str("true") } else { String::from_str("false") }
}

/// Convert an `extra` value to the text of a CAEN parameter.
fn json_value_to_string(value: &ParamValue) -> (r: String)
    ensures
        r@ == param_value_text(*value),
{
    match value {
        ParamValue::Text(s) => s.clone(),
        ParamValue::Number(n) => n.clone(),
        ParamValue::Bool(b) => bool_to_string(*b),
        ParamValue::Other(j) => j.clone(),
    }
}

/// Board-level configuration parameters. Every value is optional; a
/// missing one is not sent to the board.
#[derive(Debug, Clone)]
pub struct BoardConfig {
    /// Start trigger source (e.g., "SWcmd", "ITLA")
    pub start_source: Option<String>,
    /// GPIO mode (e.g., "Run")
    pub gpio_mode: Option<String>,
    /// Test pulse period in nanoseconds
    pub test_pulse_period: Option<u32>,
    /// Test pulse width in nanoseconds
    pub test_pulse_width: Option<u32>,
    /// Global trigger source (e.g., "SwTrg", "TestPulse", "ITLA")
    pub global_trigger_source: Option<String>,
    /// Record length in samples
    pub record_length: Option<u32>,
    /// Enable waveform readout
    pub waveforms_enabled: Option<bool>,
    /// Additional board parameters, name and value, with distinct names
    pub extra: Vec<(String, ParamValue)>,
}

impl Default for BoardConfig {
    fn default() -> (r: BoardConfig)
        ensures
            r.start_source is None && r.gpio_mode is None,
            r.test_pulse_period is None && r.test_pulse_width is None,
            r.global_trigger_source is None && r.record_length is None,
            r.waveforms_enabled is None,
            r.extra@.len() == 0,
    {
        BoardConfig {
            start_source: None,
            gpio_mode: None,
            test_pulse_period: None,
            test_pulse_width: None,
            global_trigger_source: None,
            record_length: None,
            waveforms_enabled: None,
            extra: Vec::new(),
        }
    }
}

/// Channel configuration parameters. Every value is optional, so that the
/// same type holds both the defaults and a sparse override: `None` means
/// "not set here".
#[derive(Debug, Clone)]
pub struct ChannelConfig {
    /// Channel enable (e.g., "True", "False", "TRUE", "FALSE")
    pub enabled: Option<String>,
    /// DC offset as percentage (0-100%), in the decimal notation that is
    /// sent to the board
    pub dc_offset: Option<String>,
    /// Pulse polarity (e.g., "Positive", "Negative", "POLARITY_POSITIVE")
    pub polarity: Option<String>,
    /// Trigger threshold in ADC counts
    pub trigger_threshold: Option<u32>,
    /// Long gate length in nanoseconds (PSD)
    pub gate_long_ns: Option<u32>,
    /// Short gate length in nanoseconds (PSD)
    pub gate_short_ns: Option<u32>,
    /// Pre-gate length in nanoseconds (PSD1)
    pub gate_pre_ns: Option<u32>,
    /// Event trigger source (e.g., "GlobalTriggerSource", "ChSelfTrigger")
    pub event_trigger_source: Option<String>,
    /// Wave trigger source (e.g., "Disabled", "ChSelfTrigger")
    pub wave_trigger_source: Option<String>,
    /// CFD delay in nanoseconds
    pub cfd_delay_ns: Option<u32>,
    /// Additional channel parameters, name and value, with distinct names
    pub extra: Vec<(String, ParamValue)>,
}

impl Default for ChannelConfig {
    fn default() -> (r: ChannelConfig)
        ensures
            r.enabled is None && r.dc_offset is None && r.polarity is None,
            r.trigger_threshold is None && r.gate_long_ns is None,
            r.gate_short_ns is None && r.gate_pre_ns is None,
            r.event_trigger_source is None && r.wave_trigger_source is None,
            r.cfd_delay_ns is None,
            r.extra@.len() == 0,
    {
        ChannelConfig {
            enabled: None,
            dc_offset: None,
            polarity: None,
            trigger_threshold: None,
            gate_long_ns: None,
            gate_short_ns: None,
            gate_pre_ns: None,
            event_trigger_source: None,
            wave_trigger_source: None,
            cfd_delay_ns: None,
            extra: Vec::new(),
        }
    }
}

/// Configuration of one CAEN digitizer: board settings, channel defaults
/// and the channels that differ from the defaults.
#[derive(Debug, Clone)]
pub struct DigitizerConfig {
    /// Digitizer identifier (matches source.id in network config)
    pub digitizer_id: u32,
    /// Human-readable name
    pub name: String,
    /// Firmware type
    pub firmware: FirmwareType,
    /// Number of channels on this digitizer
    pub num_channels: u8,
    /// Master digitizer flag for synchronized start
    pub is_master: bool,
    /// Synchronization settings (Master/Slave setups)
    pub sync: Option<SyncConfig>,
    /// Board-level parameters
    pub board: BoardConfig,
    /// Default channel settings (applied to all channels)
    pub channel_defaults: ChannelConfig,
    /// Per-channel overrides (only channels that differ from the defaults)
    pub channel_overrides: HashMap<u8, ChannelConfig>,
}

/// Number of channels of a firmware family.
pub open spec fn firmware_channels(f: FirmwareType) -> u8 {
    match f {
        FirmwareType::PSD1 => 8,
        FirmwareType::PSD2 | FirmwareType::PHA => 32,
    }
}

/// A fresh configuration: every board and channel parameter unset, no
/// override, no synchronization, not a master.
pub open spec fn is_fresh(c: DigitizerConfig, digitizer_id: u32, name: Seq<char>, firmware: FirmwareType) -> bool {
    &&& c.digitizer_id == digitizer_id
    &&& c.name@ == name
    &&& c.firmware == firmware
    &&& c.num_channels == firmware_channels(firmware)
    &&& c.board.start_source is None && c.board.gpio_mode is None
    &&& c.board.test_pulse_period is None && c.board.test_pulse_width is None
    &&& c.board.global_trigger_source is None && c.board.record_length is None
    &&& c.board.waveforms_enabled is None && c.board.extra@.len() == 0
    &&& c.channel_defaults.enabled is None && c.channel_defaults.dc_offset is None
    &&& c.channel_defaults.polarity is None && c.channel_defaults.trigger_threshold is None
    &&& c.channel_defaults.gate_long_ns is None && c.channel_defaults.gate_short_ns is None
    &&& c.channel_defaults.gate_pre_ns is None && c.channel_defaults.event_trigger_source is None
    &&& c.channel_defaults.wave_trigger_source is None && c.channel_defaults.cfd_delay_ns is None
    &&& c.channel_defaults.extra@.len() == 0
    &&& c.channel_overrides@ == Map::<u8, ChannelConfig>::empty()
}

/// `o` holds the text `t`.
pub open spec fn text_is(o: Option<String>, t: Seq<char>) -> bool {
    o matches Some(x) && x@ == t
}

/// The value a merge keeps: the override's when it sets one, else the default.
pub open spec fn pick<T>(o: Option<T>, d: Option<T>) -> Option<T> {
    if o is Some { o } else { d }
}

/// Whether position `i` holds the first entry named `k`.
pub open spec fn first_named(s: Seq<(String, ParamValue)>, k: Seq<char>, i: int) -> bool {
    &&& 0 <= i < s.len()
    &&& s[i].0@ == k
    &&& forall|j: int| 0 <= j < i ==> s[j].0@ != k
}

/// Set parameter `k` to `v`: the first entry of that name takes the new
/// value, or the entry is added at the end when there is none.
pub open spec fn put_entry(s: Seq<(String, ParamValue)>, k: String, v: ParamValue) -> Seq<(String, ParamValue)> {
    if exists|i: int| first_named(s, k@, i) {
        let i = choose|i: int| first_named(s, k@, i);
        s.update(i, (s[i].0, v))
    } else {
        s.push((k, v))
    }
}

/// Set every parameter of `t` in turn.
pub open spec fn put_all(s: Seq<(String, ParamValue)>, t: Seq<(String, ParamValue)>) -> Seq<(String, ParamValue)>
    decreases t.len(),
{
    if t.len() == 0 {
        s
    } else {
        put_entry(put_all(s, t.drop_last()), t.last().0, t.last().1)
    }
}

/// `r` carries the values of `o` where `o` sets them and those of `d`
/// elsewhere; its extra parameters are those of `d` with those of `o` set
/// over them.
pub open spec fn overlays(r: ChannelConfig, d: ChannelConfig, o: ChannelConfig) -> bool {
    &&& r.enabled == pick(o.enabled, d.enabled)
    &&& r.dc_offset == pick(o.dc_offset, d.dc_offset)
    &&& r.polarity == pick(o.polarity, d.polarity)
    &&& r.trigger_threshold == pick(o.trigger_threshold, d.trigger_threshold)
    &&& r.gate_long_ns == pick(o.gate_long_ns, d.gate_long_ns)
    &&& r.gate_short_ns == pick(o.gate_short_ns, d.gate_short_ns)
    &&& r.gate_pre_ns == pick(o.gate_pre_ns, d.gate_pre_ns)
    &&& r.event_trigger_source == pick(o.event_trigger_source, d.event_trigger_source)
    &&& r.wave_trigger_source == pick(o.wave_trigger_source, d.wave_trigger_source)
    &&& r.cfd_delay_ns == pick(o.cfd_delay_ns, d.cfd_delay_ns)
    &&& r.extra@ == put_all(d.extra@, o.extra@)
}

/// `r` holds the same settings as `d`.
pub open spec fn same_settings(r: ChannelConfig, d: ChannelConfig) -> bool {
    &&& r.enabled == d.enabled && r.dc_offset == d.dc_offset && r.polarity == d.polarity
    &&& r.trigger_threshold == d.trigger_threshold && r.gate_long_ns == d.gate_long_ns
    &&& r.gate_short_ns == d.gate_short_ns && r.gate_pre_ns == d.gate_pre_ns
    &&& r.event_trigger_source == d.event_trigger_source
    &&& r.wave_trigger_source == d.wave_trigger_source
    &&& r.cfd_delay_ns == d.cfd_delay_ns
    &&& r.extra@ == d.extra@
}


/// The value held under name `k`, if any (the first entry of that name).
pub open spec fn named(s: Seq<(String, ParamValue)>, k: Seq<char>) -> Option<ParamValue> {
    if exists|i: int| first_named(s, k, i) {
        Some(s[choose|i: int| first_named(s, k, i)].1)
    } else {
        None
    }
}

/// No two entries share a name.
pub open spec fn distinct_names(s: Seq<(String, ParamValue)>) -> bool {
    forall|i: int, j: int| 0 <= i < s.len() && 0 <= j < s.len() && i != j ==> s[i].0@ != s[j].0@
}

/// Setting one parameter changes what that name holds and nothing else.
proof fn lemma_put_entry_named(s: Seq<(String, ParamValue)>, k: String, v: ParamValue, k2: Seq<char>)
    ensures
        named(put_entry(s, k, v), k2) == (if k2 == k@ { Some(v) } else { named(s, k2) }),
        distinct_names(s) ==> distinct_names(put_entry(s, k, v)),
{
    let t = put_entry(s, k, v);
    if exists|i: int| first_named(s, k@, i) {
        let i = choose|i: int| first_named(s, k@, i);
        assert(t == s.update(i, (s[i].0, v)));
        assert forall|j: int| first_named(t, k2, j) <==> first_named(s, k2, j) by {
            if 0 <= j < s.len() {
                assert(t[j].0 == s[j].0);
                assert forall|m: int| 0 <= m < j implies t[m].0 == s[m].0 by {}
            }
        }
        if k2 == k@ {
            assert(first_named(t, k2, i));
            assert forall|j: int| first_named(t, k2, j) implies j == i by {
                lemma_first_named_unique(t, k2, i, j);
            }
        } else if exists|j: int| first_named(s, k2, j) {
            let j = choose|j: int| first_named(s, k2, j);
            assert(first_named(t, k2, j));
            assert(j != i);
            assert forall|m: int| first_named(t, k2, m) implies m == j by {
                lemma_first_named_unique(t, k2, j, m);
            }
        }
    } else {
        assert(t == s.push((k, v)));
        assert forall|j: int| 0 <= j < s.len() implies t[j].0@ != k@ by {
            assert(t[j] == s[j]);
            if s[j].0@ == k@ {
                lemma_some_first_named(s, k@, j);
            }
        }
        if k2 == k@ {
            assert(first_named(t, k2, s.len() as int));
            assert forall|j: int| first_named(t, k2, j) implies j == s.len() by {
                lemma_first_named_unique(t, k2, s.len() as int, j);
            }
        } else {
            assert forall|j: int| first_named(t, k2, j) <==> first_named(s, k2, j) by {
                if 0 <= j < s.len() {
                    assert forall|m: int| 0 <= m < j implies t[m] == s[m] by {}
                }
            }
            if exists|j: int| first_named(s, k2, j) {
                let j = choose|j: int| first_named(s, k2, j);
                assert(first_named(t, k2, j));
                assert forall|m: int| first_named(t, k2, m) implies m == j by {
                    lemma_first_named_unique(t, k2, j, m);
                }
            }
        }
        if distinct_names(s) {
            assert forall|a: int, b: int| 0 <= a < t.len() && 0 <= b < t.len() && a != b implies t[a].0@ != t[b].0@ by {
                if a == s.len() || b == s.len() {
                    let c = if a == s.len() { b } else { a };
                    if t[c].0@ == k@ {
                        assert(exists|i: int| first_named(s, k@, i)) by {
                            lemma_some_first_named(s, k@, c);
                        }
                    }
                }
            }
        }
    }
}

/// A name that occurs has a first occurrence.
proof fn lemma_some_first_named(s: Seq<(String, ParamValue)>, k: Seq<char>, c: int)
    requires
        0 <= c < s.len(),
        s[c].0@ == k,
    ensures
        exists|i: int| first_named(s, k, i),
    decreases c,
{
    if exists|m: int| 0 <= m < c && s[m].0@ == k {
        let m = choose|m: int| 0 <= m < c && s[m].0@ == k;
        lemma_some_first_named(s, k, m);
    } else {
        assert(first_named(s, k, c));
    }
}

/// Overrides win, defaults fill in: after the parameters `o` (with distinct
/// names) are set over `d`, each name holds the value `o` gives it, or the
/// value `d` gives it when `o` has no such name; and names stay distinct
/// when they were distinct in `d`.
pub proof fn lemma_override_extras_win(d: Seq<(String, ParamValue)>, o: Seq<(String, ParamValue)>, k: Seq<char>)
    requires
        distinct_names(o),
    ensures
        named(put_all(d, o), k) == (if named(o, k) is Some { named(o, k) } else { named(d, k) }),
        distinct_names(d) ==> distinct_names(put_all(d, o)),
    decreases o.len(),
{
    if o.len() > 0 {
        let p = o.drop_last();
        let last = o.last();
        assert(distinct_names(p));
        lemma_override_extras_win(d, p, k);
        lemma_put_entry_named(put_all(d, p), last.0, last.1, k);
        let n = o.len() - 1;
        if k == last.0@ {
            assert(first_named(o, k, n));
            assert forall|j: int| first_named(o, k, j) implies j == n by {
                lemma_first_named_unique(o, k, n, j);
            }
        } else {
            assert forall|j: int| first_named(o, k, j) <==> first_named(p, k, j) by {
                if 0 <= j < p.len() {
                    assert forall|m: int| 0 <= m < j implies o[m] == p[m] by {}
                }
            }
            if exists|j: int| first_named(p, k, j) {
                let j = choose|j: int| first_named(p, k, j);
                assert(first_named(o, k, j));
                assert forall|m: int| first_named(o, k, m) implies m == j by {
                    lemma_first_named_unique(o, k, j, m);
                }
            }
        }
    }
}

fn clone_text(o: &Option<String>) -> (r: Option<String>)
    ensures
        r == *o,
{
    match o {
        Some(s) => Some(s.clone()),
        None => None,
    }
}

fn clone_entries(v: &Vec<(String, ParamValue)>) -> (r: Vec<(String, ParamValue)>)
    ensures
        r@ == v@,
{
    let mut out: Vec<(String, ParamValue)> = Vec::new();
    for i in 0..v.len()
        invariant
            out@ == v@.take(i as int),
    {
        let k = v[i].0.clone();
        let x = v[i].1.clone();
        proof {
            assert(v@.take(i + 1) == v@.take(i as int).push(v@[i as int]));
        }
        out.push((k, x));
    }
    proof {
        assert(v@.take(v@.len() as int) == v@);
    }
    out
}

/// The first entry named `k` is at `i` and at no other position.
proof fn lemma_first_named_unique(s: Seq<(String, ParamValue)>, k: Seq<char>, i: int, j: int)
    requires
        first_named(s, k, i),
        first_named(s, k, j),
    ensures
        i == j,
{
}

fn set_entry(v: &mut Vec<(String, ParamValue)>, k: &String, x: &ParamValue)
    ensures
        final(v)@ == put_entry(old(v)@, *k, *x),
{
    let mut i: usize = 0;
    while i < v.len()
        invariant
            i <= v@.len(),
            v@ == old(v)@,
            forall|j: int| 0 <= j < i ==> v@[j].0@ != k@,
        decreases v@.len() - i,
    {
        if v[i].0 == *k {
            let name = v[i].0.clone();
            let value = x.clone();
            proof {
                assert(first_named(old(v)@, k@, i as int));
                assert forall|j: int| first_named(old(v)@, k@, j) implies j == i by {
                    lemma_first_named_unique(old(v)@, k@, i as int, j);
                }
            }
            v.set(i, (name, value));
            return;
        }
        i = i + 1;
    }
    proof {
        assert(!exists|j: int| first_named(old(v)@, k@, j));
    }
    v.push((k.clone(), x.clone()));
}

fn set_entries(v: &mut Vec<(String, ParamValue)>, t: &Vec<(String, ParamValue)>)
    ensures
        final(v)@ == put_all(old(v)@, t@),
{
    for i in 0..t.len()
        invariant
            v@ == put_all(old(v)@, t@.take(i as int)),
    {
        proof {
            assert(t@.take(i + 1).drop_last() == t@.take(i as int));
        }
        set_entry(v, &t[i].0, &t[i].1);
    }
    proof {
        assert(t@.take(t@.len() as int) == t@);
    }
}


/// Parameter path/value pairs, as text.
pub open spec fn params_view(v: Seq<CaenParameter>) -> Seq<(Seq<char>, Seq<char>)> {
    v.map_values(|p: CaenParameter| (p.path@, p.value@))
}

/// `path` set to a text value, when there is one.
pub open spec fn opt_text_param(path: Seq<char>, v: Option<String>) -> Seq<(Seq<char>, Seq<char>)> {
    match v {
        Some(x) => seq![(path, x@)],
        None => Seq::empty(),
    }
}

/// `path` set to a number in decimal, when there is one.
pub open spec fn opt_num_param(path: Seq<char>, v: Option<u32>) -> Seq<(Seq<char>, Seq<char>)> {
    match v {
        Some(x) => seq![(path, decimal(x as nat))],
        None => Seq::empty(),
    }
}

/// The path of an `extra` parameter: a name that starts with `/` is a
/// full path, any other name is taken under `prefix`.
pub open spec fn entry_path(prefix: Seq<char>, key: Seq<char>) -> Seq<char> {
    if key.len() > 0 && key[0] == '/' {
        key
    } else {
        prefix + "/"@ + key
    }
}

/// The `extra` parameters, in the order they are held.
pub open spec fn extra_params(prefix: Seq<char>, s: Seq<(String, ParamValue)>) -> Seq<(Seq<char>, Seq<char>)> {
    s.map_values(|e: (String, ParamValue)| (entry_path(prefix, e.0@), param_value_text(e.1)))
}

/// The synchronization parameters: start source, TrgOut source, SIN
/// source, each when set.
pub open spec fn sync_params(sync: Option<SyncConfig>) -> Seq<(Seq<char>, Seq<char>)> {
    match sync {
        Some(s) => opt_text_param("/par/startsource"@, s.start_source)
            + opt_text_param("/par/trgoutsource"@, s.trgout_source)
            + opt_text_param("/par/sinsource"@, s.sin_source),
        None => Seq::empty(),
    }
}

/// Whether the synchronization settings choose the start source.
pub open spec fn sync_sets_start(sync: Option<SyncConfig>) -> bool {
    sync matches Some(s) && s.start_source is Some
}

/// The record-length parameter of a firmware.
pub open spec fn record_length_path(f: FirmwareType) -> Seq<char> {
    match f {
        FirmwareType::PSD1 => "/par/reclen"@,
        _ => "/par/chrecordlengths"@,
    }
}

/// The board parameters: synchronization first, then the board's own
/// start source (only when synchronization sets none), GPIO mode, test
/// pulse, global trigger, record length, waveforms, and the extra ones.
pub open spec fn board_params(c: DigitizerConfig) -> Seq<(Seq<char>, Seq<char>)> {
    sync_params(c.sync)
        + (if sync_sets_start(c.sync) { Seq::empty() } else { opt_text_param("/par/startsource"@, c.board.start_source) })
        + opt_text_param("/par/gpiomode"@, c.board.gpio_mode)
        + opt_num_param("/par/testpulseperiod"@, c.board.test_pulse_period)
        + opt_num_param("/par/testpulsewidth"@, c.board.test_pulse_width)
        + opt_text_param("/par/globaltriggersource"@, c.board.global_trigger_source)
        + opt_num_param(record_length_path(c.firmware), c.board.record_length)
        + (match c.board.waveforms_enabled {
            Some(b) => seq![("/par/waveforms"@, bool_text(b))],
            None => Seq::empty(),
        })
        + extra_params("/par"@, c.board.extra@)
}

/// Channel enable parameter of a firmware.
pub open spec fn enable_name(f: FirmwareType) -> Seq<char> {
    match f { FirmwareType::PSD1 => "ch_enabled"@, _ => "ChEnable"@ }
}

/// DC offset parameter of a firmware.
pub open spec fn offset_name(f: FirmwareType) -> Seq<char> {
    match f { FirmwareType::PSD1 => "ch_dcoffset"@, _ => "DCOffset"@ }
}

/// Polarity parameter of a firmware.
pub open spec fn polarity_name(f: FirmwareType) -> Seq<char> {
    match f { FirmwareType::PSD1 => "ch_polarity"@, _ => "PulsePolarity"@ }
}

/// Trigger threshold parameter of a firmware.
pub open spec fn threshold_name(f: FirmwareType) -> Seq<char> {
    match f { FirmwareType::PSD1 => "ch_threshold"@, _ => "TriggerThr"@ }
}

/// Long gate parameter of a firmware.
pub open spec fn gate_long_name(f: FirmwareType) -> Seq<char> {
    match f { FirmwareType::PSD1 => "ch_gate"@, _ => "GateLongLengthT"@ }
}

/// Short gate parameter of a firmware.
pub open spec fn gate_short_name(f: FirmwareType) -> Seq<char> {
    match f { FirmwareType::PSD1 => "ch_gateshort"@, _ => "GateShortLengthT"@ }
}

/// The parameters of one channel configuration under the channel path
/// `ch`, in a fixed order, each only when it is set.
pub open spec fn channel_params(f: FirmwareType, ch: Seq<char>, c: ChannelConfig) -> Seq<(Seq<char>, Seq<char>)> {
    opt_text_param(ch + "/"@ + enable_name(f), c.enabled)
        + opt_text_param(ch + "/"@ + offset_name(f), c.dc_offset)
        + opt_text_param(ch + "/"@ + polarity_name(f), c.polarity)
        + opt_num_param(ch + "/"@ + threshold_name(f), c.trigger_threshold)
        + opt_num_param(ch + "/"@ + gate_long_name(f), c.gate_long_ns)
        + opt_num_param(ch + "/"@ + gate_short_name(f), c.gate_short_ns)
        + opt_num_param(ch + "/"@ + "ch_gatepre"@, c.gate_pre_ns)
        + opt_text_param(ch + "/"@ + "EventTriggerSource"@, c.event_trigger_source)
        + opt_text_param(ch + "/"@ + "WaveTriggerSource"@, c.wave_trigger_source)
        + opt_num_param(ch + "/"@ + "ch_cfd_delay"@, c.cfd_delay_ns)
        + extra_params(ch, c.extra@)
}

/// The channel-range path of all `n` channels, `/ch/0..<n-1>/par`.
pub open spec fn all_channels_path(n: u8) -> Seq<char> {
    "/ch/0.."@ + decimal((n - 1) as nat) + "/par"@
}

/// The path of one channel, `/ch/<ch>/par`.
pub open spec fn channel_path(ch: u8) -> Seq<char> {
    "/ch/"@ + decimal(ch as nat) + "/par"@
}

/// Whether `e` lists every override exactly once.
pub open spec fn lists_overrides(e: Seq<(u8, ChannelConfig)>, m: Map<u8, ChannelConfig>) -> bool {
    &&& e.len() == m.dom().len()
    &&& forall|i: int, j: int| 0 <= i < e.len() && 0 <= j < e.len() && i != j ==> e[i].0 != e[j].0
    &&& forall|i: int| 0 <= i < e.len() ==> #[trigger] m.contains_key(e[i].0) && m[e[i].0] == e[i].1
}

/// The override parameters of the channels listed in `e`, in that order.
pub open spec fn overrides_params(f: FirmwareType, e: Seq<(u8, ChannelConfig)>) -> Seq<(Seq<char>, Seq<char>)>
    decreases e.len(),
{
    if e.len() == 0 {
        Seq::empty()
    } else {
        overrides_params(f, e.drop_last()) + channel_params(f, channel_path(e.last().0), e.last().1)
    }
}


/// The entries of an override map in the order `HashMap::iter` visits them
/// list every override once.
proof fn lemma_iteration_lists(m: &HashMap<u8, ChannelConfig>, s: Seq<(&u8, &ChannelConfig)>)
    requires
        s == vstd::std_specs::hash::spec_hash_map_iter(m).remaining(),
        s.no_duplicates(),
    ensures
        lists_overrides(s.map_values(|x: (&u8, &ChannelConfig)| (*x.0, *x.1)), m@),
{
    broadcast use vstd::std_specs::hash::axiom_spec_hash_map_iter;
    let t = s.map_values(|x: (&u8, &ChannelConfig)| (*x.0, *x.1));
    assert forall|i: int| 0 <= i < t.len() implies #[trigger] m@.contains_key(t[i].0) && m@[t[i].0] == t[i].1 by {
        assert(m@.contains_key(*s[i].0));
    }
    assert forall|i: int, j: int| 0 <= i < t.len() && 0 <= j < t.len() && i != j implies t[i].0 != t[j].0 by {
        assert(m@.contains_key(*s[i].0) && m@.contains_key(*s[j].0));
        assert(s[i] != s[j]);
    }
}

/// Appending to a prefix that already follows `v0`.
proof fn lemma_extend<A>(v0: Seq<A>, acc: Seq<A>, x: Seq<A>)
    ensures
        v0 + acc + x == v0 + (acc + x),
{
    assert(v0 + acc + x =~= v0 + (acc + x));
}

fn join_path(prefix: &str, name: &str) -> (r: String)
    ensures
        r@ == prefix@ + "/"@ + name@,
{
    let mut s = String::from_str(prefix);
    s.append("/");
    s.append(name);
    s
}

fn push_param(params: &mut Vec<CaenParameter>, path: String, value: String)
    ensures
        params_view(final(params)@) == params_view(old(params)@).push((path@, value@)),
{
    let ghost p = CaenParameter { path, value };
    params.push(CaenParameter { path, value });
    proof {
        assert(params_view(params@) =~= params_view(old(params)@).push((p.path@, p.value@)));
    }
}

fn push_text(params: &mut Vec<CaenParameter>, path: String, v: &Option<String>)
    ensures
        params_view(final(params)@) == params_view(old(params)@) + opt_text_param(path@, *v),
{
    match v {
        Some(x) => push_param(params, path, x.clone()),
        None => {},
    }
    proof {
        assert(params_view(params@) =~= params_view(old(params)@) + opt_text_param(path@, *v));
    }
}

fn push_num(params: &mut Vec<CaenParameter>, path: String, v: Option<u32>)
    ensures
        params_view(final(params)@) == params_view(old(params)@) + opt_num_param(path@, v),
{
    match v {
        Some(x) => push_param(params, path, u64_to_decimal(x as u64)),
        None => {},
    }
    proof {
        assert(params_view(params@) =~= params_view(old(params)@) + opt_num_param(path@, v));
    }
}

fn push_extras(params: &mut Vec<CaenParameter>, prefix: &str, extra: &Vec<(String, ParamValue)>)
    ensures
        params_view(final(params)@) == params_view(old(params)@) + extra_params(prefix@, extra@),
{
    for i in 0..extra.len()
        invariant
            params_view(params@) == params_view(old(params)@) + extra_params(prefix@, extra@.take(i as int)),
    {
        let key = &extra[i].0;
        let cs = chars_of(key.as_str());
        let path = if cs.len() > 0 && cs[0] == '/' {
            key.clone()
        } else {
            join_path(prefix, key.as_str())
        };
        let value = json_value_to_string(&extra[i].1);
        push_param(params, path, value);
        proof {
            assert(extra_params(prefix@, extra@.take(i + 1)) =~= extra_params(prefix@, extra@.take(i as int)).push(
                (path@, value@),
            ));
        }
    }
    proof {
        assert(extra@.take(extra@.len() as int) == extra@);
    }
}

impl DigitizerConfig {
    /// A new configuration for the given firmware, with the firmware's
    /// channel count (8 for PSD1, 32 otherwise) and nothing else set.
    pub fn new(digitizer_id: u32, name: &str, firmware: FirmwareType) -> (r: DigitizerConfig)
        ensures
            is_fresh(r, digitizer_id, name@, firmware),
            !r.is_master,
            r.sync is None,
    {
        let num_channels: u8 = match firmware {
            FirmwareType::PSD1 => 8,
            FirmwareType::PSD2 | FirmwareType::PHA => 32,
        };
        DigitizerConfig {
            digitizer_id,
            name: String::from_str(name),
            firmware,
            num_channels,
            is_master: false,
            sync: None,
            board: BoardConfig::default(),
            channel_defaults: ChannelConfig::default(),
            channel_overrides: HashMap::new(),
        }
    }

    /// A master configuration: it raises TrgOut on Run and starts on the
    /// software command.
    pub fn new_master(digitizer_id: u32, name: &str, firmware: FirmwareType) -> (r: DigitizerConfig)
        ensures
            is_fresh(r, digitizer_id, name@, firmware),
            r.is_master,
            r.sync is Some,
            text_is(r.sync.unwrap().trgout_source, "Run"@),
            r.sync.unwrap().sin_source is None,
            text_is(r.sync.unwrap().start_source, "SWcmd"@),
    {
        let mut config = Self::new(digitizer_id, name, firmware);
        config.is_master = true;
        config.sync = Some(SyncConfig {
            trgout_source: Some(String::from_str("Run")),
            sin_source: None,
            start_source: Some(String::from_str("SWcmd")),
        });
        config
    }

    /// A slave configuration: it listens on SIN and starts on it.
    pub fn new_slave(digitizer_id: u32, name: &str, firmware: FirmwareType) -> (r: DigitizerConfig)
        ensures
            is_fresh(r, digitizer_id, name@, firmware),
            !r.is_master,
            r.sync is Some,
            r.sync.unwrap().trgout_source is None,
            text_is(r.sync.unwrap().sin_source, "SIN"@),
            text_is(r.sync.unwrap().start_source, "SIN"@),
    {
        let mut config = Self::new(digitizer_id, name, firmware);
        config.is_master = false;
        config.sync = Some(SyncConfig {
            trgout_source: None,
            sin_source: Some(String::from_str("SIN")),
            start_source: Some(String::from_str("SIN")),
        });
        config
    }

    /// The effective configuration of one channel: its override's settings
    /// where the override sets them, the defaults elsewhere.
    pub fn get_channel_config(&self, channel: u8) -> (r: ChannelConfig)
        ensures
            self.channel_overrides@.contains_key(channel) ==> overlays(
                r,
                self.channel_defaults,
                self.channel_overrides@[channel],
            ),
            !self.channel_overrides@.contains_key(channel) ==> same_settings(r, self.channel_defaults),
    {
        let d = &self.channel_defaults;
        let mut config = ChannelConfig {
            enabled: clone_text(&d.enabled),
            dc_offset: clone_text(&d.dc_offset),
            polarity: clone_text(&d.polarity),
            trigger_threshold: d.trigger_threshold,
            gate_long_ns: d.gate_long_ns,
            gate_short_ns: d.gate_short_ns,
            gate_pre_ns: d.gate_pre_ns,
            event_trigger_source: clone_text(&d.event_trigger_source),
            wave_trigger_source: clone_text(&d.wave_trigger_source),
            cfd_delay_ns: d.cfd_delay_ns,
            extra: clone_entries(&d.extra),
        };
        if let Some(o) = self.channel_overrides.get(&channel) {
            if o.enabled.is_some() {
                config.enabled = clone_text(&o.enabled);
            }
            if o.dc_offset.is_some() {
                config.dc_offset = clone_text(&o.dc_offset);
            }
            if o.polarity.is_some() {
                config.polarity = clone_text(&o.polarity);
            }
            if o.trigger_threshold.is_some() {
                config.trigger_threshold = o.trigger_threshold;
            }
            if o.gate_long_ns.is_some() {
                config.gate_long_ns = o.gate_long_ns;
            }
            if o.gate_short_ns.is_some() {
                config.gate_short_ns = o.gate_short_ns;
            }
            if o.gate_pre_ns.is_some() {
                config.gate_pre_ns = o.gate_pre_ns;
            }
            if o.event_trigger_source.is_some() {
                config.event_trigger_source = clone_text(&o.event_trigger_source);
            }
            if o.wave_trigger_source.is_some() {
                config.wave_trigger_source = clone_text(&o.wave_trigger_source);
            }
            if o.cfd_delay_ns.is_some() {
                config.cfd_delay_ns = o.cfd_delay_ns;
            }
            set_entries(&mut config.extra, &o.extra);
        }
        config
    }

    fn add_board_parameters(&self, params: &mut Vec<CaenParameter>)
        ensures
            params_view(final(params)@) == params_view(old(params)@) + board_params(*self),
    {
        let ghost v0 = params_view(params@);
        let board = &self.board;
        if let Some(sync) = &self.sync {
            push_text(params, String::from_str("/par/startsource"), &sync.start_source);
            push_text(params, String::from_str("/par/trgoutsource"), &sync.trgout_source);
            push_text(params, String::from_str("/par/sinsource"), &sync.sin_source);
        }
        proof {
            assert(params_view(params@) =~= v0 + sync_params(self.sync));
        }
        let ghost mut acc = sync_params(self.sync);
        let sync_start = match &self.sync {
            Some(sync) => sync.start_source.is_some(),
            None => false,
        };
        if !sync_start {
            push_text(params, String::from_str("/par/startsource"), &board.start_source);
        }
        proof {
            let x = if sync_sets_start(self.sync) {
                Seq::empty()
            } else {
                opt_text_param("/par/startsource"@, board.start_source)
            };
            assert(params_view(params@) =~= v0 + acc + x);
            lemma_extend(v0, acc, x);
            acc = acc + x;
        }
        push_text(params, String::from_str("/par/gpiomode"), &board.gpio_mode);
        proof {
            lemma_extend(v0, acc, opt_text_param("/par/gpiomode"@, board.gpio_mode));
            acc = acc + opt_text_param("/par/gpiomode"@, board.gpio_mode);
        }
        push_num(params, String::from_str("/par/testpulseperiod"), board.test_pulse_period);
        proof {
            lemma_extend(v0, acc, opt_num_param("/par/testpulseperiod"@, board.test_pulse_period));
            acc = acc + opt_num_param("/par/testpulseperiod"@, board.test_pulse_period);
        }
        push_num(params, String::from_str("/par/testpulsewidth"), board.test_pulse_width);
        proof {
            lemma_extend(v0, acc, opt_num_param("/par/testpulsewidth"@, board.test_pulse_width));
            acc = acc + opt_num_param("/par/testpulsewidth"@, board.test_pulse_width);
        }
        push_text(params, String::from_str("/par/globaltriggersource"), &board.global_trigger_source);
        proof {
            lemma_extend(v0, acc, opt_text_param("/par/globaltriggersource"@, board.global_trigger_source));
            acc = acc + opt_text_param("/par/globaltriggersource"@, board.global_trigger_source);
        }
        let record_path = match self.firmware {
            FirmwareType::PSD1 => String::from_str("/par/reclen"),
            _ => String::from_str("/par/chrecordlengths"),
        };
        push_num(params, record_path, board.record_length);
        proof {
            lemma_extend(v0, acc, opt_num_param(record_length_path(self.firmware), board.record_length));
            acc = acc + opt_num_param(record_length_path(self.firmware), board.record_length);
        }
        if let Some(b) = board.waveforms_enabled {
            push_param(params, String::from_str("/par/waveforms"), bool_to_string(b));
        }
        proof {
            let x = match board.waveforms_enabled {
                Some(b) => seq![("/par/waveforms"@, bool_text(b))],
                None => Seq::empty(),
            };
            assert(params_view(params@) =~= v0 + acc + x);
            lemma_extend(v0, acc, x);
            acc = acc + x;
        }
        push_extras(params, "/par", &board.extra);
        proof {
            lemma_extend(v0, acc, extra_params("/par"@, board.extra@));
        }
    }

    fn add_channel_params(&self, params: &mut Vec<CaenParameter>, ch_path: &str, config: &ChannelConfig)
        ensures
            params_view(final(params)@) == params_view(old(params)@) + channel_params(
                self.firmware,
                ch_path@,
                *config,
            ),
    {
        let ghost v0 = params_view(params@);
        let ghost ch = ch_path@;
        let ghost f = self.firmware;
        let (enable, offset, polarity, threshold) = match self.firmware {
            FirmwareType::PSD1 => ("ch_enabled", "ch_dcoffset", "ch_polarity", "ch_threshold"),
            FirmwareType::PSD2 | FirmwareType::PHA => ("ChEnable", "DCOffset", "PulsePolarity", "TriggerThr"),
        };
        let (gate_long, gate_short) = match self.firmware {
            FirmwareType::PSD1 => ("ch_gate", "ch_gateshort"),
            _ => ("GateLongLengthT", "GateShortLengthT"),
        };
        push_text(params, join_path(ch_path, enable), &config.enabled);
        let ghost mut acc = opt_text_param(ch + "/"@ + enable_name(f), config.enabled);
        proof {
            assert(params_view(params@) == v0 + acc);
        }
        push_text(params, join_path(ch_path, offset), &config.dc_offset);
        proof {
            lemma_extend(v0, acc, opt_text_param(ch + "/"@ + offset_name(f), config.dc_offset));
            acc = acc + opt_text_param(ch + "/"@ + offset_name(f), config.dc_offset);
        }
        push_text(params, join_path(ch_path, polarity), &config.polarity);
        proof {
            lemma_extend(v0, acc, opt_text_param(ch + "/"@ + polarity_name(f), config.polarity));
            acc = acc + opt_text_param(ch + "/"@ + polarity_name(f), config.polarity);
        }
        push_num(params, join_path(ch_path, threshold), config.trigger_threshold);
        proof {
            lemma_extend(v0, acc, opt_num_param(ch + "/"@ + threshold_name(f), config.trigger_threshold));
            acc = acc + opt_num_param(ch + "/"@ + threshold_name(f), config.trigger_threshold);
        }
        push_num(params, join_path(ch_path, gate_long), config.gate_long_ns);
        proof {
            lemma_extend(v0, acc, opt_num_param(ch + "/"@ + gate_long_name(f), config.gate_long_ns));
            acc = acc + opt_num_param(ch + "/"@ + gate_long_name(f), config.gate_long_ns);
        }
        push_num(params, join_path(ch_path, gate_short), config.gate_short_ns);
        proof {
            lemma_extend(v0, acc, opt_num_param(ch + "/"@ + gate_short_name(f), config.gate_short_ns));
            acc = acc + opt_num_param(ch + "/"@ + gate_short_name(f), config.gate_short_ns);
        }
        push_num(params, join_path(ch_path, "ch_gatepre"), config.gate_pre_ns);
        proof {
            lemma_extend(v0, acc, opt_num_param(ch + "/"@ + "ch_gatepre"@, config.gate_pre_ns));
            acc = acc + opt_num_param(ch + "/"@ + "ch_gatepre"@, config.gate_pre_ns);
        }
        push_text(params, join_path(ch_path, "EventTriggerSource"), &config.event_trigger_source);
        proof {
            lemma_extend(v0, acc, opt_text_param(ch + "/"@ + "EventTriggerSource"@, config.event_trigger_source));
            acc = acc + opt_text_param(ch + "/"@ + "EventTriggerSource"@, config.event_trigger_source);
        }
        push_text(params, join_path(ch_path, "WaveTriggerSource"), &config.wave_trigger_source);
        proof {
            lemma_extend(v0, acc, opt_text_param(ch + "/"@ + "WaveTriggerSource"@, config.wave_trigger_source));
            acc = acc + opt_text_param(ch + "/"@ + "WaveTriggerSource"@, config.wave_trigger_source);
        }
        push_num(params, join_path(ch_path, "ch_cfd_delay"), config.cfd_delay_ns);
        proof {
            lemma_extend(v0, acc, opt_num_param(ch + "/"@ + "ch_cfd_delay"@, config.cfd_delay_ns));
            acc = acc + opt_num_param(ch + "/"@ + "ch_cfd_delay"@, config.cfd_delay_ns);
        }
        push_extras(params, ch_path, &config.extra);
        proof {
            lemma_extend(v0, acc, extra_params(ch, config.extra@));
        }
    }

    fn add_channel_defaults(&self, params: &mut Vec<CaenParameter>)
        requires
            self.num_channels >= 1,
        ensures
            params_view(final(params)@) == params_view(old(params)@) + channel_params(
                self.firmware,
                all_channels_path(self.num_channels),
                self.channel_defaults,
            ),
    {
        let mut ch_range = String::from_str("/ch/0..");
        ch_range.append(u64_to_decimal((self.num_channels - 1) as u64).as_str());
        ch_range.append("/par");
        self.add_channel_params(params, ch_range.as_str(), &self.channel_defaults);
    }

    fn add_channel_overrides(&self, params: &mut Vec<CaenParameter>)
        ensures
            exists|e: Seq<(u8, ChannelConfig)>|
                #[trigger] lists_overrides(e, self.channel_overrides@) && params_view(final(params)@)
                    == params_view(old(params)@) + overrides_params(self.firmware, e),
    {
        let entries = self.channel_overrides.iter();
        let ghost all = entries.remaining();
        let ghost e = all.map_values(|x: (&u8, &ChannelConfig)| (*x.0, *x.1));
        proof {
            lemma_iteration_lists(&self.channel_overrides, all);
            assert(e.take(0) =~= Seq::<(u8, ChannelConfig)>::empty());
        }
        for x in it: entries
            invariant
                it.seq() == all,
                e == all.map_values(|x: (&u8, &ChannelConfig)| (*x.0, *x.1)),
                params_view(params@) == params_view(old(params)@) + overrides_params(self.firmware, e.take(it.index())),
        {
            let (ch, config) = x;
            let mut ch_path = String::from_str("/ch/");
            ch_path.append(u64_to_decimal(*ch as u64).as_str());
            ch_path.append("/par");
            proof {
                let i = it.index();
                assert(e.take(i + 1).drop_last() == e.take(i));
            }
            self.add_channel_params(params, ch_path.as_str(), config);
        }
        proof {
            assert(e.take(e.len() as int) == e);
            assert(lists_overrides(e, self.channel_overrides@));
        }
    }

    /// The CAEN parameters of this configuration, in the order they are
    /// applied: board parameters, then the channel defaults over the whole
    /// channel range, then each channel override (in the map's order).
    pub fn to_caen_parameters(&self) -> (r: Vec<CaenParameter>)
        requires
            self.num_channels >= 1,
        ensures
            exists|e: Seq<(u8, ChannelConfig)>|
                #[trigger] lists_overrides(e, self.channel_overrides@) && params_view(r@) == board_params(*self)
                    + channel_params(self.firmware, all_channels_path(self.num_channels), self.channel_defaults)
                    + overrides_params(self.firmware, e),
    {
        let mut params: Vec<CaenParameter> = Vec::new();
        proof {
            assert(params_view(params@) =~= Seq::empty());
        }
        self.add_board_parameters(&mut params);
        self.add_channel_defaults(&mut params);
        self.add_channel_overrides(&mut params);
        params
    }
}

/// Membership in a concatenation is membership in one of its parts.
proof fn lemma_concat_contains<A>(a: Seq<A>, b: Seq<A>, x: A)
    ensures
        (a + b).contains(x) <==> (a.contains(x) || b.contains(x)),
{
    if a.contains(x) {
        let i = choose|i: int| 0 <= i < a.len() && a[i] == x;
        assert((a + b)[i] == x);
    }
    if b.contains(x) {
        let i = choose|i: int| 0 <= i < b.len() && b[i] == x;
        assert((a + b)[a.len() + i] == x);
    }
    if (a + b).contains(x) {
        let i = choose|i: int| 0 <= i < (a + b).len() && (a + b)[i] == x;
        if i < a.len() {
            assert(a[i] == x);
        } else {
            assert(b[i - a.len()] == x);
        }
    }
}

/// Every channel setting that is set is sent under its own FELib name
/// (`ch_*` for PSD1, the DIG2 names otherwise), below the channel path,
/// with its own value: text as it is, numbers in decimal.
pub proof fn lemma_channel_fields_under_own_names(f: FirmwareType, ch: Seq<char>, c: ChannelConfig)
    ensures
        c.enabled matches Some(v) ==> channel_params(f, ch, c).contains(
            (ch + "/"@ + (if f is PSD1 { "ch_enabled"@ } else { "ChEnable"@ }), v@),
        ),
        c.dc_offset matches Some(v) ==> channel_params(f, ch, c).contains(
            (ch + "/"@ + (if f is PSD1 { "ch_dcoffset"@ } else { "DCOffset"@ }), v@),
        ),
        c.polarity matches Some(v) ==> channel_params(f, ch, c).contains(
            (ch + "/"@ + (if f is PSD1 { "ch_polarity"@ } else { "PulsePolarity"@ }), v@),
        ),
        c.trigger_threshold matches Some(v) ==> channel_params(f, ch, c).contains(
            (ch + "/"@ + (if f is PSD1 { "ch_threshold"@ } else { "TriggerThr"@ }), decimal(v as nat)),
        ),
        c.gate_long_ns matches Some(v) ==> channel_params(f, ch, c).contains(
            (ch + "/"@ + (if f is PSD1 { "ch_gate"@ } else { "GateLongLengthT"@ }), decimal(v as nat)),
        ),
        c.gate_short_ns matches Some(v) ==> channel_params(f, ch, c).contains(
            (ch + "/"@ + (if f is PSD1 { "ch_gateshort"@ } else { "GateShortLengthT"@ }), decimal(v as nat)),
        ),
        c.gate_pre_ns matches Some(v) ==> channel_params(f, ch, c).contains(
            (ch + "/"@ + "ch_gatepre"@, decimal(v as nat)),
        ),
        c.event_trigger_source matches Some(v) ==> channel_params(f, ch, c).contains(
            (ch + "/"@ + "EventTriggerSource"@, v@),
        ),
        c.wave_trigger_source matches Some(v) ==> channel_params(f, ch, c).contains(
            (ch + "/"@ + "WaveTriggerSource"@, v@),
        ),
        c.cfd_delay_ns matches Some(v) ==> channel_params(f, ch, c).contains(
            (ch + "/"@ + "ch_cfd_delay"@, decimal(v as nat)),
        ),
        channel_params(f, ch, c).len() == (if c.enabled is Some { 1nat } else { 0nat })
            + (if c.dc_offset is Some { 1nat } else { 0nat }) + (if c.polarity is Some { 1nat } else { 0nat })
            + (if c.trigger_threshold is Some { 1nat } else { 0nat })
            + (if c.gate_long_ns is Some { 1nat } else { 0nat })
            + (if c.gate_short_ns is Some { 1nat } else { 0nat })
            + (if c.gate_pre_ns is Some { 1nat } else { 0nat })
            + (if c.event_trigger_source is Some { 1nat } else { 0nat })
            + (if c.wave_trigger_source is Some { 1nat } else { 0nat })
            + (if c.cfd_delay_ns is Some { 1nat } else { 0nat }) + c.extra@.len(),
{
    let p1 = opt_text_param(ch + "/"@ + enable_name(f), c.enabled);
    let p2 = opt_text_param(ch + "/"@ + offset_name(f), c.dc_offset);
    let p3 = opt_text_param(ch + "/"@ + polarity_name(f), c.polarity);
    let p4 = opt_num_param(ch + "/"@ + threshold_name(f), c.trigger_threshold);
    let p5 = opt_num_param(ch + "/"@ + gate_long_name(f), c.gate_long_ns);
    let p6 = opt_num_param(ch + "/"@ + gate_short_name(f), c.gate_short_ns);
    let p7 = opt_num_param(ch + "/"@ + "ch_gatepre"@, c.gate_pre_ns);
    let p8 = opt_text_param(ch + "/"@ + "EventTriggerSource"@, c.event_trigger_source);
    let p9 = opt_text_param(ch + "/"@ + "WaveTriggerSource"@, c.wave_trigger_source);
    let p10 = opt_num_param(ch + "/"@ + "ch_cfd_delay"@, c.cfd_delay_ns);
    let p11 = extra_params(ch, c.extra@);
    let q2 = p1 + p2;
    let q3 = q2 + p3;
    let q4 = q3 + p4;
    let q5 = q4 + p5;
    let q6 = q5 + p6;
    let q7 = q6 + p7;
    let q8 = q7 + p8;
    let q9 = q8 + p9;
    let q10 = q9 + p10;
    let q11 = q10 + p11;
    assert(channel_params(f, ch, c) == q11);
    assert forall|x: (Seq<char>, Seq<char>)|
        #![trigger q11.contains(x)]
        (p1.contains(x) || p2.contains(x) || p3.contains(x) || p4.contains(x) || p5.contains(x) || p6.contains(x)
            || p7.contains(x) || p8.contains(x) || p9.contains(x) || p10.contains(x)) implies q11.contains(x) by {
        lemma_concat_contains(p1, p2, x);
        lemma_concat_contains(q2, p3, x);
        lemma_concat_contains(q3, p4, x);
        lemma_concat_contains(q4, p5, x);
        lemma_concat_contains(q5, p6, x);
        lemma_concat_contains(q6, p7, x);
        lemma_concat_contains(q7, p8, x);
        lemma_concat_contains(q8, p9, x);
        lemma_concat_contains(q9, p10, x);
        lemma_concat_contains(q10, p11, x);
    }
    if c.enabled is Some {
        assert(p1[0] == p1[0]);
        assert(p1.contains(p1[0]));
    }
    if c.dc_offset is Some {
        assert(p2.contains(p2[0]));
    }
    if c.polarity is Some {
        assert(p3.contains(p3[0]));
    }
    if c.trigger_threshold is Some {
        assert(p4.contains(p4[0]));
    }
    if c.gate_long_ns is Some {
        assert(p5.contains(p5[0]));
    }
    if c.gate_short_ns is Some {
        assert(p6.contains(p6[0]));
    }
    if c.gate_pre_ns is Some {
        assert(p7.contains(p7[0]));
    }
    if c.event_trigger_source is Some {
        assert(p8.contains(p8[0]));
    }
    if c.wave_trigger_source is Some {
        assert(p9.contains(p9[0]));
    }
    if c.cfd_delay_ns is Some {
        assert(p10.contains(p10[0]));
    }
}

/// A channel with every setting set and no extra parameters is sent as
/// exactly these ten parameters, in this order.
pub proof fn lemma_full_channel_order(f: FirmwareType, ch: Seq<char>, c: ChannelConfig)
    requires
        c.enabled is Some && c.dc_offset is Some && c.polarity is Some,
        c.trigger_threshold is Some && c.gate_long_ns is Some && c.gate_short_ns is Some,
        c.gate_pre_ns is Some && c.event_trigger_source is Some && c.wave_trigger_source is Some,
        c.cfd_delay_ns is Some,
        c.extra@.len() == 0,
    ensures
        channel_params(f, ch, c) == seq![
            (ch + "/"@ + (if f is PSD1 { "ch_enabled"@ } else { "ChEnable"@ }), c.enabled->0@),
            (ch + "/"@ + (if f is PSD1 { "ch_dcoffset"@ } else { "DCOffset"@ }), c.dc_offset->0@),
            (ch + "/"@ + (if f is PSD1 { "ch_polarity"@ } else { "PulsePolarity"@ }), c.polarity->0@),
            (ch + "/"@ + (if f is PSD1 { "ch_threshold"@ } else { "TriggerThr"@ }), decimal(c.trigger_threshold->0 as nat)),
            (ch + "/"@ + (if f is PSD1 { "ch_gate"@ } else { "GateLongLengthT"@ }), decimal(c.gate_long_ns->0 as nat)),
            (ch + "/"@ + (if f is PSD1 { "ch_gateshort"@ } else { "GateShortLengthT"@ }), decimal(c.gate_short_ns->0 as nat)),
            (ch + "/"@ + "ch_gatepre"@, decimal(c.gate_pre_ns->0 as nat)),
            (ch + "/"@ + "EventTriggerSource"@, c.event_trigger_source->0@),
            (ch + "/"@ + "WaveTriggerSource"@, c.wave_trigger_source->0@),
            (ch + "/"@ + "ch_cfd_delay"@, decimal(c.cfd_delay_ns->0 as nat)),
        ],
{
    assert(extra_params(ch, c.extra@) =~= Seq::empty());
    assert(channel_params(f, ch, c) =~= seq![
        (ch + "/"@ + (if f is PSD1 { "ch_enabled"@ } else { "ChEnable"@ }), c.enabled->0@),
        (ch + "/"@ + (if f is PSD1 { "ch_dcoffset"@ } else { "DCOffset"@ }), c.dc_offset->0@),
        (ch + "/"@ + (if f is PSD1 { "ch_polarity"@ } else { "PulsePolarity"@ }), c.polarity->0@),
        (ch + "/"@ + (if f is PSD1 { "ch_threshold"@ } else { "TriggerThr"@ }), decimal(c.trigger_threshold->0 as nat)),
        (ch + "/"@ + (if f is PSD1 { "ch_gate"@ } else { "GateLongLengthT"@ }), decimal(c.gate_long_ns->0 as nat)),
        (ch + "/"@ + (if f is PSD1 { "ch_gateshort"@ } else { "GateShortLengthT"@ }), decimal(c.gate_short_ns->0 as nat)),
        (ch + "/"@ + "ch_gatepre"@, decimal(c.gate_pre_ns->0 as nat)),
        (ch + "/"@ + "EventTriggerSource"@, c.event_trigger_source->0@),
        (ch + "/"@ + "WaveTriggerSource"@, c.wave_trigger_source->0@),
        (ch + "/"@ + "ch_cfd_delay"@, decimal(c.cfd_delay_ns->0 as nat)),
    ]);
}

/// Every board setting that is set is sent under its own FELib path with
/// its own value; the synchronization's start source takes the place of
/// the board's own, which is sent only when synchronization sets none.
#[verifier::rlimit(60)]
pub proof fn lemma_board_fields_under_own_paths(c: DigitizerConfig)
    ensures
        c.sync matches Some(sy) ==> (sy.start_source matches Some(v) ==> board_params(c).contains(
            ("/par/startsource"@, v@),
        )),
        c.sync matches Some(sy) ==> (sy.trgout_source matches Some(v) ==> board_params(c).contains(
            ("/par/trgoutsource"@, v@),
        )),
        c.sync matches Some(sy) ==> (sy.sin_source matches Some(v) ==> board_params(c).contains(
            ("/par/sinsource"@, v@),
        )),
        !(c.sync matches Some(sy) && sy.start_source is Some) ==> (c.board.start_source matches Some(v)
            ==> board_params(c).contains(("/par/startsource"@, v@))),
        c.board.gpio_mode matches Some(v) ==> board_params(c).contains(("/par/gpiomode"@, v@)),
        c.board.test_pulse_period matches Some(v) ==> board_params(c).contains(
            ("/par/testpulseperiod"@, decimal(v as nat)),
        ),
        c.board.test_pulse_width matches Some(v) ==> board_params(c).contains(
            ("/par/testpulsewidth"@, decimal(v as nat)),
        ),
        c.board.global_trigger_source matches Some(v) ==> board_params(c).contains(
            ("/par/globaltriggersource"@, v@),
        ),
        c.board.record_length matches Some(v) ==> board_params(c).contains(
            ((if c.firmware is PSD1 { "/par/reclen"@ } else { "/par/chrecordlengths"@ }), decimal(v as nat)),
        ),
        c.board.waveforms_enabled matches Some(b) ==> board_params(c).contains(
            ("/par/waveforms"@, if b { "true"@ } else { "false"@ }),
        ),
{
    let s1 = match c.sync {
        Some(sy) => opt_text_param("/par/startsource"@, sy.start_source),
        None => Seq::empty(),
    };
    let s2 = match c.sync {
        Some(sy) => opt_text_param("/par/trgoutsource"@, sy.trgout_source),
        None => Seq::empty(),
    };
    let s3 = match c.sync {
        Some(sy) => opt_text_param("/par/sinsource"@, sy.sin_source),
        None => Seq::empty(),
    };
    let p1 = sync_params(c.sync);
    let p2 = if sync_sets_start(c.sync) { Seq::empty() } else { opt_text_param("/par/startsource"@, c.board.start_source) };
    let p3 = opt_text_param("/par/gpiomode"@, c.board.gpio_mode);
    let p4 = opt_num_param("/par/testpulseperiod"@, c.board.test_pulse_period);
    let p5 = opt_num_param("/par/testpulsewidth"@, c.board.test_pulse_width);
    let p6 = opt_text_param("/par/globaltriggersource"@, c.board.global_trigger_source);
    let p7 = opt_num_param(record_length_path(c.firmware), c.board.record_length);
    let p8: Seq<(Seq<char>, Seq<char>)> = match c.board.waveforms_enabled {
        Some(b) => seq![("/par/waveforms"@, bool_text(b))],
        None => Seq::empty(),
    };
    let p9 = extra_params("/par"@, c.board.extra@);
    let q2 = p1 + p2;
    let q3 = q2 + p3;
    let q4 = q3 + p4;
    let q5 = q4 + p5;
    let q6 = q5 + p6;
    let q7 = q6 + p7;
    let q8 = q7 + p8;
    let q9 = q8 + p9;
    assert(board_params(c) == q9);
    assert(p1 =~= s1 + s2 + s3);
    assert forall|x: (Seq<char>, Seq<char>)|
        #![trigger q9.contains(x)]
        (s1.contains(x) || s2.contains(x) || s3.contains(x) || p2.contains(x) || p3.contains(x)
            || p4.contains(x) || p5.contains(x) || p6.contains(x) || p7.contains(x) || p8.contains(x))
            implies q9.contains(x) by {
        lemma_concat_contains(s1, s2, x);
        lemma_concat_contains(s1 + s2, s3, x);
        lemma_concat_contains(p1, p2, x);
        lemma_concat_contains(q2, p3, x);
        lemma_concat_contains(q3, p4, x);
        lemma_concat_contains(q4, p5, x);
        lemma_concat_contains(q5, p6, x);
        lemma_concat_contains(q6, p7, x);
        lemma_concat_contains(q7, p8, x);
        lemma_concat_contains(q8, p9, x);
    }
    if s1.len() > 0 {
        assert(s1.contains(s1[0]));
    }
    if s2.len() > 0 {
        assert(s2.contains(s2[0]));
    }
    if s3.len() > 0 {
        assert(s3.contains(s3[0]));
    }
    if p2.len() > 0 {
        assert(p2.contains(p2[0]));
    }
    if p3.len() > 0 {
        assert(p3.contains(p3[0]));
    }
    if p4.len() > 0 {
        assert(p4.contains(p4[0]));
    }
    if p5.len() > 0 {
        assert(p5.contains(p5[0]));
    }
    if p6.len() > 0 {
        assert(p6.contains(p6[0]));
    }
    if p7.len() > 0 {
        assert(p7.contains(p7[0]));
    }
    if p8.len() > 0 {
        assert(p8.contains(p8[0]));
    }
}

/// The FELib channel paths: one channel `N` is `/ch/N/par`, and the
/// defaults go to the range of all `n` channels, `/ch/0..<n-1>/par`.
pub proof fn lemma_channel_paths(ch: u8, n: u8)
    ensures
        channel_path(ch) == "/ch/"@ + decimal(ch as nat) + "/par"@,
        n >= 1 ==> all_channels_path(n) == "/ch/0.."@ + decimal((n - 1) as nat) + "/par"@,
{
}

} // verus!
