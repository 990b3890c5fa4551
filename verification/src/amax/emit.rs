//! The code emitters of the AMax register-map generator: the Rust
//! configuration structs, the Rust register address map, and the
//! TypeScript bindings of the operator UI, all built from the resolved
//! register lists.

use vstd::prelude::*;
use vstd::string::*;
use crate::amax::resolve::ResolvedReg;
use crate::amax::{header_rust, header_rust_text, spec_category_label, spec_category_rank, str_upper, to_upper};
use crate::text::{decimal, hex_upper, u64_to_decimal, u64_to_hex_padded, u64_to_hex_upper, zero_pad};

verus! {

/// The concatenation of `f` over the registers, in order.
pub open spec fn concat_lines(s: Seq<ResolvedReg>, f: spec_fn(ResolvedReg) -> Seq<char>) -> Seq<char>
    decreases s.len(),
{
    if s.len() == 0 {
        Seq::empty()
    } else {
        concat_lines(s.drop_last(), f) + f(s.last())
    }
}

/// One more register: its text follows the text of the ones before it.
pub proof fn lemma_concat_step(s: Seq<ResolvedReg>, f: spec_fn(ResolvedReg) -> Seq<char>, i: int)
    requires
        0 <= i < s.len(),
    ensures
        concat_lines(s.take(i + 1), f) == concat_lines(s.take(i), f) + f(s[i]),
{
    assert(s.take(i + 1).drop_last() == s.take(i));
}

/// `", unit: <u>"` for a unit, nothing without one.
pub open spec fn unit_part(u: Option<String>) -> Seq<char> {
    match u {
        Some(x) => ", unit: "@ + x@,
        None => Seq::empty(),
    }
}

/// One field of a generated configuration struct.
pub open spec fn struct_field(r: ResolvedReg) -> Seq<char> {
    "    /// "@ + decimal(r.bits as nat) + "-bit "@ + r.label@ + unit_part(r.unit) + " (FW reg `"@ + r.fw_name@
        + "`)\n"@ + "    #[serde(skip_serializing_if = \"Option::is_none\")]\n"@ + "    pub "@ + r.field@ + ": Option<u32>,\n"@
}

fn push_struct_field(out: &mut String, r: &ResolvedReg)
    ensures
        final(out)@ == old(out)@ + struct_field(*r),
{
    out.append("    /// ");
    out.append(u64_to_decimal(r.bits as u64).as_str());
    out.append("-bit ");
    out.append(r.label.as_str());
    match &r.unit {
        Some(u) => {
            out.append(", unit: ");
            out.append(u.as_str());
        },
        None => {},
    }
    out.append(" (FW reg `");
    out.append(r.fw_name.as_str());
    out.append("`)\n");
    out.append("    #[serde(skip_serializing_if = \"Option::is_none\")]\n");
    out.append("    pub ");
    out.append(r.field.as_str());
    out.append(": Option<u32>,\n");
}

/// The per-channel struct's introduction.
pub open spec fn channel_struct_intro() -> Seq<char> {
    "//!\n//! AMax custom-firmware per-channel writable register set.\n//! Each field maps 1:1 to one user-register write at\n//! `(PAGE_BASE + channel * PAGE_STRIDE + REG_<NAME>) * 4` byte\n//! address (see `amax_registers_generated::channel_register_byte_addr`).\n\nuse serde::{Deserialize, Serialize};\nuse utoipa::ToSchema;\n\n#[derive(Debug, Clone, Default, Serialize, Deserialize, ToSchema)]\npub struct AMaxChannelConfig {\n"@
}

/// The board struct's introduction.
pub open spec fn board_struct_intro() -> Seq<char> {
    "\n/// AMax board-level (global) writable register set. Used for\n/// firmware-wide toggles like the debug-FW `ENABLE_ACQ` switch.\n#[derive(Debug, Clone, Default, Serialize, Deserialize, ToSchema)]\npub struct AMaxBoardConfig {\n"@
}

/// The generated configuration structs: one field per per-channel
/// register in `AMaxChannelConfig`, one per board register in
/// `AMaxBoardConfig`.
pub open spec fn rust_struct_text(
    resolved: Seq<ResolvedReg>,
    board: Seq<ResolvedReg>,
    register_file: Seq<char>,
    params_file: Seq<char>,
) -> Seq<char> {
    header_rust_text(register_file, params_file) + channel_struct_intro() + concat_lines(
        resolved,
        |r: ResolvedReg| struct_field(r),
    ) + "}\n"@ + board_struct_intro() + concat_lines(board, |r: ResolvedReg| struct_field(r)) + "}\n"@
}

/// Append `struct_field` of every register.
fn push_struct_fields(out: &mut String, regs: &Vec<ResolvedReg>)
    ensures
        final(out)@ == old(out)@ + concat_lines(regs@, |r: ResolvedReg| struct_field(r)),
{
    let ghost f = |r: ResolvedReg| struct_field(r);
    let ghost start = out@;
    let mut i: usize = 0;
    while i < regs.len()
        invariant
            i <= regs@.len(),
            f == (|r: ResolvedReg| struct_field(r)),
            out@ == start + concat_lines(regs@.take(i as int), f),
        decreases regs.len() - i,
    {
        proof {
            lemma_concat_step(regs@, f, i as int);
        }
        push_struct_field(out, &regs[i]);
        i = i + 1;
    }
    assert(regs@.take(regs@.len() as int) == regs@);
}

/// The Rust configuration structs of the generated code.
pub fn emit_rust_struct(
    resolved: &Vec<ResolvedReg>,
    board_resolved: &Vec<ResolvedReg>,
    register_file: &str,
    params_file: &str,
) -> (r: String)
    ensures
        r@ == rust_struct_text(resolved@, board_resolved@, register_file@, params_file@),
{
    let mut out = header_rust(register_file, params_file);
    out.append("//!\n//! AMax custom-firmware per-channel writable register set.\n//! Each field maps 1:1 to one user-register write at\n//! `(PAGE_BASE + channel * PAGE_STRIDE + REG_<NAME>) * 4` byte\n//! address (see `amax_registers_generated::channel_register_byte_addr`).\n\nuse serde::{Deserialize, Serialize};\nuse utoipa::ToSchema;\n\n#[derive(Debug, Clone, Default, Serialize, Deserialize, ToSchema)]\npub struct AMaxChannelConfig {\n");
    push_struct_fields(&mut out, resolved);
    out.append("}\n");
    out.append("\n/// AMax board-level (global) writable register set. Used for\n/// firmware-wide toggles like the debug-FW `ENABLE_ACQ` switch.\n#[derive(Debug, Clone, Default, Serialize, Deserialize, ToSchema)]\npub struct AMaxBoardConfig {\n");
    push_struct_fields(&mut out, board_resolved);
    out.append("}\n");
    out
}

/// The upper-case form of a register's field name.
pub open spec fn upper_field(r: ResolvedReg) -> Seq<char> {
    str_upper(r.field@)
}

/// The `REG_<NAME>` constant of a per-channel register.
pub open spec fn reg_const_line(r: ResolvedReg) -> Seq<char> {
    "/// "@ + decimal(r.bits as nat) + "-bit "@ + r.label@ + "\n"@ + "pub const REG_"@ + upper_field(r) + ": u32 = 0x"@
        + hex_upper(r.word_offset as nat) + ";\n"@
}

fn push_reg_const_line(out: &mut String, r: &ResolvedReg)
    ensures
        final(out)@ == old(out)@ + reg_const_line(*r),
{
    out.append("/// ");
    out.append(u64_to_decimal(r.bits as u64).as_str());
    out.append("-bit ");
    out.append(r.label.as_str());
    out.append("\n");
    out.append("pub const REG_");
    out.append(to_upper(r.field.as_str()).as_str());
    out.append(": u32 = 0x");
    out.append(u64_to_hex_upper(r.word_offset as u64).as_str());
    out.append(";\n");
}

/// One entry of the generated `channel_writes`.
pub open spec fn channel_write_line(r: ResolvedReg) -> Seq<char> {
    "    if let Some(v) = config."@ + r.field@ + " { writes.push((REG_"@ + upper_field(r) + ", v, \""@ + r.field@
        + "\")); }\n"@
}

fn push_channel_write_line(out: &mut String, r: &ResolvedReg)
    ensures
        final(out)@ == old(out)@ + channel_write_line(*r),
{
    out.append("    if let Some(v) = config.");
    out.append(r.field.as_str());
    out.append(" { writes.push((REG_");
    out.append(to_upper(r.field.as_str()).as_str());
    out.append(", v, \"");
    out.append(r.field.as_str());
    out.append("\")); }\n");
}

/// One field of the generated `merge_amax_channel_config`.
pub open spec fn merge_line(r: ResolvedReg) -> Seq<char> {
    "        "@ + r.field@ + ": override_cfg.and_then(|c| c."@ + r.field@ + ").or_else(|| defaults.and_then(|c| c."@
        + r.field@ + ")),\n"@
}

fn push_merge_line(out: &mut String, r: &ResolvedReg)
    ensures
        final(out)@ == old(out)@ + merge_line(*r),
{
    out.append("        ");
    out.append(r.field.as_str());
    out.append(": override_cfg.and_then(|c| c.");
    out.append(r.field.as_str());
    out.append(").or_else(|| defaults.and_then(|c| c.");
    out.append(r.field.as_str());
    out.append(")),\n");
}

/// The `BOARD_REG_<NAME>` constant of a board register.
pub open spec fn board_const_line(r: ResolvedReg) -> Seq<char> {
    "/// "@ + decimal(r.bits as nat) + "-bit "@ + r.label@ + " (FW reg `"@ + r.fw_name@ + "`)\n"@
        + "pub const BOARD_REG_"@ + upper_field(r) + ": u32 = 0x"@ + hex_upper(r.word_offset as nat) + ";\n"@
}

fn push_board_const_line(out: &mut String, r: &ResolvedReg)
    ensures
        final(out)@ == old(out)@ + board_const_line(*r),
{
    out.append("/// ");
    out.append(u64_to_decimal(r.bits as u64).as_str());
    out.append("-bit ");
    out.append(r.label.as_str());
    out.append(" (FW reg `");
    out.append(r.fw_name.as_str());
    out.append("`)\n");
    out.append("pub const BOARD_REG_");
    out.append(to_upper(r.field.as_str()).as_str());
    out.append(": u32 = 0x");
    out.append(u64_to_hex_upper(r.word_offset as u64).as_str());
    out.append(";\n");
}

/// One entry of the generated `board_writes`.
pub open spec fn board_write_line(r: ResolvedReg) -> Seq<char> {
    "    if let Some(v) = _config."@ + r.field@ + " { writes.push((BOARD_REG_"@ + upper_field(r) + ", v, \""@
        + r.field@ + "\")); }\n"@
}

fn push_board_write_line(out: &mut String, r: &ResolvedReg)
    ensures
        final(out)@ == old(out)@ + board_write_line(*r),
{
    out.append("    if let Some(v) = _config.");
    out.append(r.field.as_str());
    out.append(" { writes.push((BOARD_REG_");
    out.append(to_upper(r.field.as_str()).as_str());
    out.append(", v, \"");
    out.append(r.field.as_str());
    out.append("\")); }\n");
}

/// One entry of the generated `all_board_registers`.
pub open spec fn board_pair_line(r: ResolvedReg) -> Seq<char> {
    "        (BOARD_REG_"@ + upper_field(r) + ", \""@ + r.field@ + "\"),\n"@
}

fn push_board_pair_line(out: &mut String, r: &ResolvedReg)
    ensures
        final(out)@ == old(out)@ + board_pair_line(*r),
{
    out.append("        (BOARD_REG_");
    out.append(to_upper(r.field.as_str()).as_str());
    out.append(", \"");
    out.append(r.field.as_str());
    out.append("\"),\n");
}

/// One entry of the generated offsets test.
pub open spec fn offset_test_line(r: ResolvedReg) -> Seq<char> {
    "            REG_"@ + upper_field(r) + ",\n"@
}

fn push_offset_test_line(out: &mut String, r: &ResolvedReg)
    ensures
        final(out)@ == old(out)@ + offset_test_line(*r),
{
    out.append("            REG_");
    out.append(to_upper(r.field.as_str()).as_str());
    out.append(",\n");
}

/// The kinds of line the register emitters write per register.
#[derive(Debug, Clone, Copy, PartialEq, Eq, Structural)]
pub enum RegLine {
    StructField,
    RegConst,
    ChannelWrite,
    Merge,
    BoardConst,
    BoardWrite,
    BoardPair,
    OffsetTest,
    TsIface,
    TsDefault,
    TsDotted,
    TsBoardDefault,
    TsBoardDotted,
    TsBoardParam,
}

/// The text of one line kind for a register.
pub open spec fn reg_line(k: RegLine, r: ResolvedReg) -> Seq<char> {
    match k {
        RegLine::StructField => struct_field(r),
        RegLine::RegConst => reg_const_line(r),
        RegLine::ChannelWrite => channel_write_line(r),
        RegLine::Merge => merge_line(r),
        RegLine::BoardConst => board_const_line(r),
        RegLine::BoardWrite => board_write_line(r),
        RegLine::BoardPair => board_pair_line(r),
        RegLine::OffsetTest => offset_test_line(r),
        RegLine::TsIface => ts_iface_line(r),
        RegLine::TsDefault => ts_default_line(r),
        RegLine::TsDotted => ts_dotted_line(r),
        RegLine::TsBoardDefault => ts_board_default_line(r),
        RegLine::TsBoardDotted => ts_board_dotted_line(r),
        RegLine::TsBoardParam => ts_board_param_line(r),
    }
}

fn push_reg_line(out: &mut String, k: RegLine, r: &ResolvedReg)
    ensures
        final(out)@ == old(out)@ + reg_line(k, *r),
{
    match k {
        RegLine::StructField => push_struct_field(out, r),
        RegLine::RegConst => push_reg_const_line(out, r),
        RegLine::ChannelWrite => push_channel_write_line(out, r),
        RegLine::Merge => push_merge_line(out, r),
        RegLine::BoardConst => push_board_const_line(out, r),
        RegLine::BoardWrite => push_board_write_line(out, r),
        RegLine::BoardPair => push_board_pair_line(out, r),
        RegLine::OffsetTest => push_offset_test_line(out, r),
        RegLine::TsIface => push_ts_iface_line(out, r),
        RegLine::TsDefault => push_ts_default_line(out, r),
        RegLine::TsDotted => push_ts_dotted_line(out, r),
        RegLine::TsBoardDefault => push_ts_board_default_line(out, r),
        RegLine::TsBoardDotted => push_ts_board_dotted_line(out, r),
        RegLine::TsBoardParam => push_ts_board_param_line(out, r),
    }
}

/// Append the line of kind `k` of every register, in order.
fn push_reg_lines(out: &mut String, k: RegLine, regs: &Vec<ResolvedReg>)
    ensures
        final(out)@ == old(out)@ + concat_lines(regs@, |r: ResolvedReg| reg_line(k, r)),
{
    let ghost f = |r: ResolvedReg| reg_line(k, r);
    let ghost start = out@;
    let mut i: usize = 0;
    while i < regs.len()
        invariant
            i <= regs@.len(),
            f == (|r: ResolvedReg| reg_line(k, r)),
            out@ == start + concat_lines(regs@.take(i as int), f),
        decreases regs.len() - i,
    {
        proof {
            lemma_concat_step(regs@, f, i as int);
        }
        push_reg_line(out, k, &regs[i]);
        i = i + 1;
    }
    assert(regs@.take(regs@.len() as int) == regs@);
}

/// The register address map's fixed parts.
pub open spec fn regs_intro() -> Seq<char> {
    "//!\n//! AMax custom-firmware register address map. Byte address =\n//! `(PAGE_BASE + channel * PAGE_STRIDE + word_offset) * 4` per the\n//! FELib `SetUserRegister` ABI used by `tools/amax_viewer/`.\n\n"@
}

/// The layout constants of the address map.
pub open spec fn layout_consts(page_base: u32, page_stride: u32, broadcast_base: u32, channel_pages: u32) -> Seq<char> {
    "/// Channel-page base in word units (channel 0).\npub const PAGE_BASE: u32 = 0x"@ + hex_upper(page_base as nat) + ";\n\n/// Word stride between consecutive channel pages.\npub const PAGE_STRIDE: u32 = 0x"@ + hex_upper(page_stride as nat) + ";\n\n/// Broadcast-page base in word units. A single write here fans out to\n/// every channel in hardware. Auto-derived from RegisterFile.json;\n/// `apply_amax_channel_config` mirrors the per-channel writes here.\npub const BROADCAST_BASE: u32 = 0x"@ + hex_upper(
        broadcast_base as nat,
    ) + ";\n\n/// Number of per-channel pages this firmware defines (`ch0`..=\n/// `CHANNEL_PAGES - 1`); `0` when the FW has no per-channel pages.\n///\n/// Auto-derived from the same RegisterFile.json as the bases above, so\n/// it cannot drift from them. `apply_amax_channel_config` clamps its\n/// write loop to this: the digitizer JSON's `num_channels` is\n/// hand-maintained and does NOT track FW rebuilds, and writing outside\n/// the FW's own address map is how the AMax firmware gets corrupted.\npub const CHANNEL_PAGES: u32 = "@ + decimal(channel_pages as nat) + ";\n\n"@
}

/// The address-computing functions and the head of `channel_writes`.
pub open spec fn regs_functions() -> Seq<char> {
    "\n/// Compute the FELib byte address for a per-channel register.\n#[inline]\npub fn channel_register_byte_addr(channel: u8, word_offset: u32) -> u32 {\n    let word_addr = PAGE_BASE + (channel as u32) * PAGE_STRIDE + word_offset;\n    word_addr * 4\n}\n\n/// Compute the FELib byte address for a broadcast-page register. A\n/// single write here fans out to all channels in hardware.\n#[inline]\npub fn broadcast_register_byte_addr(word_offset: u32) -> u32 {\n    (BROADCAST_BASE + word_offset) * 4\n}\n"@ + "\n/// All writable per-channel register fields, in stable order.\n"@ + "/// Used by `apply_amax_channel_config` to drive `set_user_register` calls.\n"@ + "#[allow(dead_code)]\n"@ + "pub fn channel_writes(\n"@ + "    config: &crate::config::digitizer::AMaxChannelConfig,\n"@ + ") -> Vec<(u32, u32, &'static str)> {\n"@ + "    let mut writes = Vec::new();\n"@
}

/// The tail of `channel_writes` and the head of the merge function.
pub open spec fn regs_merge_head() -> Seq<char> {
    "    writes\n"@ + "}\n"@ + "\n/// Merge a per-channel `override` config over `defaults`, field by field.\n"@ + "/// Codegen-driven so adding/removing an AMax register needs no handle.rs edit.\n"@ + "#[allow(dead_code)]\n"@ + "pub fn merge_amax_channel_config(\n"@ + "    override_cfg: Option<&crate::config::digitizer::AMaxChannelConfig>,\n"@ + "    defaults: Option<&crate::config::digitizer::AMaxChannelConfig>,\n"@ + ") -> crate::config::digitizer::AMaxChannelConfig {\n"@ + "    crate::config::digitizer::AMaxChannelConfig {\n"@
}

/// The board-level constants, present only when there are board registers.
pub open spec fn board_consts(board: Seq<ResolvedReg>) -> Seq<char> {
    if board.len() > 0 {
        "\n// ---- Board-level (global) register byte addresses ----\n//\n"@ + "// These registers live outside the per-channel `page_amax_energy_*`\n// family — they're firmware-wide toggles. Byte addresses are taken\n// verbatim from RegisterFile.json (no PAGE_BASE math).\n\n"@ + concat_lines(board, |r: ResolvedReg| reg_line(RegLine::BoardConst, r))
    } else {
        Seq::empty()
    }
}

/// The generated register address map.
pub open spec fn rust_registers_text(
    resolved: Seq<ResolvedReg>,
    board: Seq<ResolvedReg>,
    page_base: u32,
    page_stride: u32,
    broadcast_base: u32,
    channel_pages: u32,
    register_file: Seq<char>,
) -> Seq<char> {
    header_rust_text(register_file, "(addresses only)"@) + regs_intro() + layout_consts(
        page_base,
        page_stride,
        broadcast_base,
        channel_pages,
    ) + "// ---- Per-channel register offsets (word, relative to the channel page base) ----\n\n"@ + concat_lines(resolved, |r: ResolvedReg| reg_line(RegLine::RegConst, r)) + regs_functions()
        + concat_lines(resolved, |r: ResolvedReg| reg_line(RegLine::ChannelWrite, r)) + regs_merge_head()
        + concat_lines(resolved, |r: ResolvedReg| reg_line(RegLine::Merge, r)) + "    }\n"@ + "}\n"@
        + board_consts(board) + "\n/// All writable board-level register fields, in stable order.\n/// Mirror of `channel_writes` for `AMaxBoardConfig`. Each tuple is\n/// (BOARD_REG byte address, value, field_name). Empty when no\n/// board-level (global) registers are declared in fw_params.json.\n#[allow(dead_code)]\npub fn board_writes(\n    _config: &crate::config::digitizer::AMaxBoardConfig,\n) -> Vec<(u32, u32, &'static str)> {\n    #[allow(unused_mut)]\n    let mut writes = Vec::new();\n"@ + concat_lines(board, |r: ResolvedReg| reg_line(RegLine::BoardWrite, r))
        + "    writes\n}\n"@ + "\n/// All board-level register (byte_addr, name) pairs, in stable order.\n/// Used by the operator UI's Tune Up debug view to read live\n/// values back from the digitizer (see\n/// `ReadLoopRequest::ReadAmaxBoardRegisters` in `reader/mod.rs`).\n/// Empty when no board-level registers are declared.\n#[allow(dead_code)]\npub fn all_board_registers() -> Vec<(u32, &'static str)> {\n    vec![\n"@ + concat_lines(board, |r: ResolvedReg| reg_line(RegLine::BoardPair, r))
        + "    ]\n}\n"@ + "\n#[cfg(test)]\nmod tests {\n    use super::*;\n\n    #[test]\n    fn register_offsets_are_distinct() {\n        let offsets = [\n"@ + concat_lines(resolved, |r: ResolvedReg| reg_line(RegLine::OffsetTest, r))
        + "        ];\n        let mut sorted = offsets.to_vec();\n        sorted.sort_unstable();\n        sorted.dedup();\n        assert_eq!(sorted.len(), offsets.len());\n    }\n\n    #[test]\n    fn channel_addr_math() {\n        // ch0 base byte addr = PAGE_BASE * 4 (word→byte).\n        assert_eq!(channel_register_byte_addr(0, 0), PAGE_BASE * 4);\n        // Each channel index advances by PAGE_STRIDE words (=4× bytes).\n        assert_eq!(\n            channel_register_byte_addr(1, 0),\n            channel_register_byte_addr(0, 0) + PAGE_STRIDE * 4\n        );\n    }\n}\n"@
}

fn push_layout_consts(out: &mut String, page_base: u32, page_stride: u32, broadcast_base: u32, channel_pages: u32)
    ensures
        final(out)@ == old(out)@ + layout_consts(page_base, page_stride, broadcast_base, channel_pages),
{
    out.append("/// Channel-page base in word units (channel 0).\npub const PAGE_BASE: u32 = 0x");
    out.append(u64_to_hex_upper(page_base as u64).as_str());
    out.append(";\n\n/// Word stride between consecutive channel pages.\npub const PAGE_STRIDE: u32 = 0x");
    out.append(u64_to_hex_upper(page_stride as u64).as_str());
    out.append(";\n\n/// Broadcast-page base in word units. A single write here fans out to\n/// every channel in hardware. Auto-derived from RegisterFile.json;\n/// `apply_amax_channel_config` mirrors the per-channel writes here.\npub const BROADCAST_BASE: u32 = 0x");
    out.append(u64_to_hex_upper(broadcast_base as u64).as_str());
    out.append(";\n\n/// Number of per-channel pages this firmware defines (`ch0`..=\n/// `CHANNEL_PAGES - 1`); `0` when the FW has no per-channel pages.\n///\n/// Auto-derived from the same RegisterFile.json as the bases above, so\n/// it cannot drift from them. `apply_amax_channel_config` clamps its\n/// write loop to this: the digitizer JSON's `num_channels` is\n/// hand-maintained and does NOT track FW rebuilds, and writing outside\n/// the FW's own address map is how the AMax firmware gets corrupted.\npub const CHANNEL_PAGES: u32 = ");
    out.append(u64_to_decimal(channel_pages as u64).as_str());
    out.append(";\n\n");
}

fn push_regs_functions(out: &mut String)
    ensures
        final(out)@ == old(out)@ + regs_functions(),
{
    out.append("\n/// Compute the FELib byte address for a per-channel register.\n#[inline]\npub fn channel_register_byte_addr(channel: u8, word_offset: u32) -> u32 {\n    let word_addr = PAGE_BASE + (channel as u32) * PAGE_STRIDE + word_offset;\n    word_addr * 4\n}\n\n/// Compute the FELib byte address for a broadcast-page register. A\n/// single write here fans out to all channels in hardware.\n#[inline]\npub fn broadcast_register_byte_addr(word_offset: u32) -> u32 {\n    (BROADCAST_BASE + word_offset) * 4\n}\n");
    out.append("\n/// All writable per-channel register fields, in stable order.\n");
    out.append("/// Used by `apply_amax_channel_config` to drive `set_user_register` calls.\n");
    out.append("#[allow(dead_code)]\n");
    out.append("pub fn channel_writes(\n");
    out.append("    config: &crate::config::digitizer::AMaxChannelConfig,\n");
    out.append(") -> Vec<(u32, u32, &'static str)> {\n");
    out.append("    let mut writes = Vec::new();\n");
}

fn push_regs_merge_head(out: &mut String)
    ensures
        final(out)@ == old(out)@ + regs_merge_head(),
{
    out.append("    writes\n");
    out.append("}\n");
    out.append("\n/// Merge a per-channel `override` config over `defaults`, field by field.\n");
    out.append("/// Codegen-driven so adding/removing an AMax register needs no handle.rs edit.\n");
    out.append("#[allow(dead_code)]\n");
    out.append("pub fn merge_amax_channel_config(\n");
    out.append("    override_cfg: Option<&crate::config::digitizer::AMaxChannelConfig>,\n");
    out.append("    defaults: Option<&crate::config::digitizer::AMaxChannelConfig>,\n");
    out.append(") -> crate::config::digitizer::AMaxChannelConfig {\n");
    out.append("    crate::config::digitizer::AMaxChannelConfig {\n");
}

fn push_board_consts(out: &mut String, board: &Vec<ResolvedReg>)
    ensures
        final(out)@ == old(out)@ + board_consts(board@),
{
    if board.len() > 0 {
        out.append("\n// ---- Board-level (global) register byte addresses ----\n//\n");
        out.append("// These registers live outside the per-channel `page_amax_energy_*`\n// family — they're firmware-wide toggles. Byte addresses are taken\n// verbatim from RegisterFile.json (no PAGE_BASE math).\n\n");
        push_reg_lines(out, RegLine::BoardConst, board);
    }
}

/// The Rust register address map of the generated code: the layout
/// constants, one `REG_*` offset per per-channel register, the write and
/// merge helpers, the board-level constants and helpers, and a test.
pub fn emit_rust_registers(
    resolved: &Vec<ResolvedReg>,
    board_resolved: &Vec<ResolvedReg>,
    page_base: u32,
    page_stride: u32,
    broadcast_base: u32,
    channel_pages: u32,
    register_file: &str,
) -> (r: String)
    ensures
        r@ == rust_registers_text(
            resolved@,
            board_resolved@,
            page_base,
            page_stride,
            broadcast_base,
            channel_pages,
            register_file@,
        ),
{
    let mut out = header_rust(register_file, "(addresses only)");
    out.append("//!\n//! AMax custom-firmware register address map. Byte address =\n//! `(PAGE_BASE + channel * PAGE_STRIDE + word_offset) * 4` per the\n//! FELib `SetUserRegister` ABI used by `tools/amax_viewer/`.\n\n");
    push_layout_consts(&mut out, page_base, page_stride, broadcast_base, channel_pages);
    out.append("// ---- Per-channel register offsets (word, relative to the channel page base) ----\n\n");
    push_reg_lines(&mut out, RegLine::RegConst, resolved);
    push_regs_functions(&mut out);
    push_reg_lines(&mut out, RegLine::ChannelWrite, resolved);
    push_regs_merge_head(&mut out);
    push_reg_lines(&mut out, RegLine::Merge, resolved);
    out.append("    }\n");
    out.append("}\n");
    push_board_consts(&mut out, board_resolved);
    out.append("\n/// All writable board-level register fields, in stable order.\n/// Mirror of `channel_writes` for `AMaxBoardConfig`. Each tuple is\n/// (BOARD_REG byte address, value, field_name). Empty when no\n/// board-level (global) registers are declared in fw_params.json.\n#[allow(dead_code)]\npub fn board_writes(\n    _config: &crate::config::digitizer::AMaxBoardConfig,\n) -> Vec<(u32, u32, &'static str)> {\n    #[allow(unused_mut)]\n    let mut writes = Vec::new();\n");
    push_reg_lines(&mut out, RegLine::BoardWrite, board_resolved);
    out.append("    writes\n}\n");
    out.append("\n/// All board-level register (byte_addr, name) pairs, in stable order.\n/// Used by the operator UI's Tune Up debug view to read live\n/// values back from the digitizer (see\n/// `ReadLoopRequest::ReadAmaxBoardRegisters` in `reader/mod.rs`).\n/// Empty when no board-level registers are declared.\n#[allow(dead_code)]\npub fn all_board_registers() -> Vec<(u32, &'static str)> {\n    vec![\n");
    push_reg_lines(&mut out, RegLine::BoardPair, board_resolved);
    out.append("    ]\n}\n");
    out.append("\n#[cfg(test)]\nmod tests {\n    use super::*;\n\n    #[test]\n    fn register_offsets_are_distinct() {\n        let offsets = [\n");
    push_reg_lines(&mut out, RegLine::OffsetTest, resolved);
    out.append("        ];\n        let mut sorted = offsets.to_vec();\n        sorted.sort_unstable();\n        sorted.dedup();\n        assert_eq!(sorted.len(), offsets.len());\n    }\n\n    #[test]\n    fn channel_addr_math() {\n        // ch0 base byte addr = PAGE_BASE * 4 (word→byte).\n        assert_eq!(channel_register_byte_addr(0, 0), PAGE_BASE * 4);\n        // Each channel index advances by PAGE_STRIDE words (=4× bytes).\n        assert_eq!(\n            channel_register_byte_addr(1, 0),\n            channel_register_byte_addr(0, 0) + PAGE_STRIDE * 4\n        );\n    }\n}\n");
    out
}

/// What `format!("{:?}", s)` writes for a string: the string quoted, with
/// Rust's debug escapes.
pub uninterp spec fn debug_text(s: Seq<char>) -> Seq<char>;

/// Printable ASCII with no quote or backslash: nothing to escape.
pub open spec fn plain_ascii(s: Seq<char>) -> bool {
    forall|i: int| 0 <= i < s.len() ==> 0x20 <= (#[trigger] s[i] as u32) <= 0x7e && s[i] != '"' && s[i] != '\\'
}

/// `format!("{:?}", s)`: the string in double quotes with Rust's debug
/// escapes (quotes, backslashes, control and non-printable characters).
/// A string of printable ASCII without quote or backslash is only quoted.
#[verifier::external_body]
fn debug_str(s: &str) -> (r: String)
    ensures
        r@ == debug_text(s@),
        plain_ascii(s@) ==> r@ == seq!['"'] + s@ + seq!['"'],
{
    format!("{:?}", s)
}

/// A field of a TypeScript interface.
pub open spec fn ts_iface_line(r: ResolvedReg) -> Seq<char> {
    "  /** "@ + decimal(r.bits as nat) + "-bit "@ + r.label@ + " */\n"@ + "  "@ + r.field@ + "?: number;\n"@
}

fn push_ts_iface_line(out: &mut String, r: &ResolvedReg)
    ensures
        final(out)@ == old(out)@ + ts_iface_line(*r),
{
    out.append("  /** ");
    out.append(u64_to_decimal(r.bits as u64).as_str());
    out.append("-bit ");
    out.append(r.label.as_str());
    out.append(" */\n");
    out.append("  ");
    out.append(r.field.as_str());
    out.append("?: number;\n");
}

/// An entry of `AMAX_DEFAULTS`.
pub open spec fn ts_default_line(r: ResolvedReg) -> Seq<char> {
    "  'amax."@ + r.field@ + "': "@ + decimal(r.default as nat) + ",\n"@
}

fn push_ts_default_line(out: &mut String, r: &ResolvedReg)
    ensures
        final(out)@ == old(out)@ + ts_default_line(*r),
{
    out.append("  'amax.");
    out.append(r.field.as_str());
    out.append("': ");
    out.append(u64_to_decimal(r.default as u64).as_str());
    out.append(",\n");
}

/// An entry of `AMAX_DOTTED_KEYS`.
pub open spec fn ts_dotted_line(r: ResolvedReg) -> Seq<char> {
    "  'amax."@ + r.field@ + "',\n"@
}

fn push_ts_dotted_line(out: &mut String, r: &ResolvedReg)
    ensures
        final(out)@ == old(out)@ + ts_dotted_line(*r),
{
    out.append("  'amax.");
    out.append(r.field.as_str());
    out.append("',\n");
}

/// An entry of `AMAX_BOARD_DEFAULTS`.
pub open spec fn ts_board_default_line(r: ResolvedReg) -> Seq<char> {
    "  '"@ + r.field@ + "': "@ + decimal(r.default as nat) + ",\n"@
}

fn push_ts_board_default_line(out: &mut String, r: &ResolvedReg)
    ensures
        final(out)@ == old(out)@ + ts_board_default_line(*r),
{
    out.append("  '");
    out.append(r.field.as_str());
    out.append("': ");
    out.append(u64_to_decimal(r.default as u64).as_str());
    out.append(",\n");
}

/// An entry of `AMAX_BOARD_DOTTED_KEYS`.
pub open spec fn ts_board_dotted_line(r: ResolvedReg) -> Seq<char> {
    "  'amax.board."@ + r.field@ + "',\n"@
}

fn push_ts_board_dotted_line(out: &mut String, r: &ResolvedReg)
    ensures
        final(out)@ == old(out)@ + ts_board_dotted_line(*r),
{
    out.append("  'amax.board.");
    out.append(r.field.as_str());
    out.append("',\n");
}

/// The quoted options of an enum parameter, comma-separated.
pub open spec fn join_debug(opts: Seq<String>) -> Seq<char>
    decreases opts.len(),
{
    if opts.len() == 0 {
        Seq::empty()
    } else if opts.len() == 1 {
        debug_text(opts[0]@)
    } else {
        join_debug(opts.drop_last()) + ", "@ + debug_text(opts.last()@)
    }
}

fn push_join_debug(out: &mut String, opts: &Vec<String>)
    ensures
        final(out)@ == old(out)@ + join_debug(opts@),
{
    let ghost start = out@;
    let mut i: usize = 0;
    while i < opts.len()
        invariant
            i <= opts@.len(),
            out@ == start + join_debug(opts@.take(i as int)),
        decreases opts.len() - i,
    {
        proof {
            assert(opts@.take(i + 1).drop_last() == opts@.take(i as int));
            assert(opts@.take(i + 1).last() == opts@[i as int]);
            if i == 0 {
                assert(opts@.take(1)[0] == opts@[0]);
            }
        }
        if i > 0 {
            out.append(", ");
        }
        out.append(debug_str(opts[i].as_str()).as_str());
        i = i + 1;
    }
    assert(opts@.take(opts@.len() as int) == opts@);
}

/// The type part of a parameter definition: the options of an enum, or
/// the unit and range of a number.
pub open spec fn kind_part(r: ResolvedReg) -> Seq<char> {
    if r.ty@ == "enum"@ {
        ", type: 'enum', options: ["@ + join_debug(r.options@) + "], numeric: true"@
    } else {
        ", type: 'number'"@ + (match r.unit {
            Some(u) => ", unit: "@ + debug_text(u@),
            None => Seq::empty(),
        }) + ", min: 0, max: "@ + decimal(r.ui_max as nat) + ", step: 1"@
    }
}

fn push_kind_part(out: &mut String, r: &ResolvedReg)
    ensures
        final(out)@ == old(out)@ + kind_part(*r),
{
    if crate::chars::str_is(r.ty.as_str(), "enum") {
        out.append(", type: 'enum', options: [");
        push_join_debug(out, &r.options);
        out.append("], numeric: true");
    } else {
        out.append(", type: 'number'");
        match &r.unit {
            Some(u) => {
                out.append(", unit: ");
                out.append(debug_str(u.as_str()).as_str());
            },
            None => {},
        }
        out.append(", min: 0, max: ");
        out.append(u64_to_decimal(r.ui_max).as_str());
        out.append(", step: 1");
    }
}

/// The tooltip of a board parameter.
pub open spec fn board_tooltip(r: ResolvedReg) -> Seq<char> {
    "FW reg "@ + r.fw_name@ + " \u{2022} addr 0x"@ + hex_upper(r.word_offset as nat)
}

/// A definition of `AMAX_BOARD_PARAMS`.
pub open spec fn ts_board_param_line(r: ResolvedReg) -> Seq<char> {
    "  { key: 'amax.board."@ + r.field@ + "', label: "@ + debug_text(r.label@) + kind_part(r) + ", tooltip: "@
        + debug_text(board_tooltip(r)) + " },\n"@
}

fn push_ts_board_param_line(out: &mut String, r: &ResolvedReg)
    ensures
        final(out)@ == old(out)@ + ts_board_param_line(*r),
{
    let mut tip = String::from_str("FW reg ");
    tip.append(r.fw_name.as_str());
    tip.append(" \u{2022} addr 0x");
    tip.append(u64_to_hex_upper(r.word_offset as u64).as_str());
    out.append("  { key: 'amax.board.");
    out.append(r.field.as_str());
    out.append("', label: ");
    out.append(debug_str(r.label.as_str()).as_str());
    push_kind_part(out, r);
    out.append(", tooltip: ");
    out.append(debug_str(tip.as_str()).as_str());
    out.append(" },\n");
}

/// The word address of a register on the canonical ch0 page of the
/// viewer (base 0x800000).
pub open spec fn viewer_word(r: ResolvedReg) -> nat {
    (0x800000 + r.word_offset) as nat
}

/// The tooltip of a channel parameter.
pub open spec fn ts_tooltip(r: ResolvedReg) -> Seq<char> {
    "FW reg "@ + r.fw_name@ + " \u{2022} word 0x"@ + zero_pad(hex_upper(r.word_offset as nat), 2) + " (ch0 @ 0x"@
        + zero_pad(hex_upper(viewer_word(r)), 6) + ")"@
}

/// A definition of a category's `AMAX_<CAT>_PARAMS`.
pub open spec fn ts_param_line(r: ResolvedReg) -> Seq<char> {
    "  { key: 'amax."@ + r.field@ + "', label: "@ + debug_text(r.label@) + kind_part(r) + ", tooltip: "@
        + debug_text(ts_tooltip(r)) + " },\n"@
}

fn push_ts_param_line(out: &mut String, r: &ResolvedReg)
    requires
        r.word_offset <= 0xff7f_ffff,
    ensures
        final(out)@ == old(out)@ + ts_param_line(*r),
{
    let word: u32 = 0x800000 + r.word_offset;
    let mut tip = String::from_str("FW reg ");
    tip.append(r.fw_name.as_str());
    tip.append(" \u{2022} word 0x");
    tip.append(u64_to_hex_padded(r.word_offset as u64, 2).as_str());
    tip.append(" (ch0 @ 0x");
    tip.append(u64_to_hex_padded(word as u64, 6).as_str());
    tip.append(")");
    out.append("  { key: 'amax.");
    out.append(r.field.as_str());
    out.append("', label: ");
    out.append(debug_str(r.label.as_str()).as_str());
    push_kind_part(out, r);
    out.append(", tooltip: ");
    out.append(debug_str(tip.as_str()).as_str());
    out.append(" },\n");
}

/// The categories of the registers, each once, in first-seen order.
pub open spec fn distinct_categories(s: Seq<ResolvedReg>) -> Seq<Seq<char>>
    decreases s.len(),
{
    if s.len() == 0 {
        Seq::empty()
    } else {
        let p = distinct_categories(s.drop_last());
        let c = s.last().category@;
        if p.contains(c) { p } else { p.push(c) }
    }
}

/// `a` comes before `b` in string order.
pub open spec fn lex_lt(a: Seq<char>, b: Seq<char>) -> bool
    decreases a.len(),
{
    if a.len() == 0 {
        b.len() > 0
    } else if b.len() == 0 {
        false
    } else if a[0] != b[0] {
        (a[0] as u32) < (b[0] as u32)
    } else {
        lex_lt(a.skip(1), b.skip(1))
    }
}

/// Category `a` is emitted before `b`: by rank, then by name.
pub open spec fn cat_before(a: Seq<char>, b: Seq<char>) -> bool {
    spec_category_rank(a) < spec_category_rank(b) || (spec_category_rank(a) == spec_category_rank(b) && lex_lt(a, b))
}

/// `x` inserted into `s` after every category not emitted after it.
pub open spec fn insert_cat(s: Seq<Seq<char>>, x: Seq<char>) -> Seq<Seq<char>>
    decreases s.len(),
{
    if s.len() == 0 {
        seq![x]
    } else if !cat_before(x, s.last()) {
        s.push(x)
    } else {
        insert_cat(s.drop_last(), x).push(s.last())
    }
}

/// Categories sorted into emission order.
pub open spec fn sort_cats(s: Seq<Seq<char>>) -> Seq<Seq<char>>
    decreases s.len(),
{
    if s.len() == 0 {
        s
    } else {
        insert_cat(sort_cats(s.drop_last()), s.last())
    }
}

/// The categories of the registers, each once, in emission order.
pub open spec fn categories(s: Seq<ResolvedReg>) -> Seq<Seq<char>> {
    sort_cats(distinct_categories(s))
}

/// Whether `a` comes before `b` in string order.
fn lex_less(a: &Vec<char>, b: &Vec<char>) -> (r: bool)
    ensures
        r == lex_lt(a@, b@),
{
    let mut i: usize = 0;
    proof {
        assert(a@.skip(0) == a@);
        assert(b@.skip(0) == b@);
    }
    while i < a.len() && i < b.len() && a[i] == b[i]
        invariant
            i <= a@.len(),
            i <= b@.len(),
            lex_lt(a@.skip(i as int), b@.skip(i as int)) == lex_lt(a@, b@),
        decreases a.len() - i,
    {
        proof {
            assert(a@.skip(i as int).skip(1) == a@.skip(i + 1));
            assert(b@.skip(i as int).skip(1) == b@.skip(i + 1));
        }
        i = i + 1;
    }
    if i == a.len() {
        i < b.len()
    } else if i == b.len() {
        false
    } else {
        (a[i] as u32) < (b[i] as u32)
    }
}

/// Whether category `a` is emitted before `b`.
fn cat_before_exec(a: &String, b: &String) -> (r: bool)
    ensures
        r == cat_before(a@, b@),
{
    let ra = crate::amax::category_rank(a.as_str());
    let rb = crate::amax::category_rank(b.as_str());
    if ra != rb {
        ra < rb
    } else {
        let x = crate::chars::chars_of(a.as_str());
        let y = crate::chars::chars_of(b.as_str());
        lex_less(&x, &y)
    }
}

/// Inserting at the position after the last category not emitted after
/// `x` is `insert_cat`.
proof fn lemma_insert_cat_at(s: Seq<Seq<char>>, x: Seq<char>, pos: int)
    requires
        0 <= pos <= s.len(),
        forall|j: int| pos <= j < s.len() ==> cat_before(x, #[trigger] s[j]),
        pos > 0 ==> !cat_before(x, s[pos - 1]),
    ensures
        insert_cat(s, x) == s.insert(pos, x),
    decreases s.len(),
{
    if s.len() == 0 {
        assert(s.insert(pos, x) =~= seq![x]);
    } else if !cat_before(x, s.last()) {
        if pos < s.len() {
            assert(cat_before(x, s[s.len() - 1]));
        }
        assert(s.insert(pos, x) =~= s.push(x));
    } else {
        lemma_insert_cat_at(s.drop_last(), x, pos);
        assert(s.insert(pos, x) =~= s.drop_last().insert(pos, x).push(s.last()));
    }
}

/// The views of a list of strings.
pub open spec fn string_views(v: Seq<String>) -> Seq<Seq<char>> {
    v.map_values(|x: String| x@)
}

/// The categories of the registers, each once, in emission order.
fn collect_categories(resolved: &Vec<ResolvedReg>) -> (r: Vec<String>)
    ensures
        string_views(r@) == categories(resolved@),
{
    let mut distinct: Vec<String> = Vec::new();
    let mut i: usize = 0;
    while i < resolved.len()
        invariant
            i <= resolved@.len(),
            string_views(distinct@) == distinct_categories(resolved@.take(i as int)),
        decreases resolved.len() - i,
    {
        proof {
            assert(resolved@.take(i + 1).drop_last() == resolved@.take(i as int));
            assert(resolved@.take(i + 1).last() == resolved@[i as int]);
        }
        let c = &resolved[i].category;
        let mut found = false;
        let mut j: usize = 0;
        while j < distinct.len()
            invariant
                j <= distinct@.len(),
                !found ==> forall|m: int| 0 <= m < j ==> distinct@[m]@ != c@,
                found ==> string_views(distinct@).contains(c@),
            decreases distinct.len() - j,
        {
            if distinct[j] == *c {
                found = true;
                assert(string_views(distinct@)[j as int] == c@);
            }
            j = j + 1;
        }
        proof {
            if !found {
                assert forall|m: int| 0 <= m < string_views(distinct@).len() implies string_views(distinct@)[m] != c@ by {
                    assert(distinct@[m]@ != c@);
                }
            }
        }
        if !found {
            let ghost before = distinct@;
            distinct.push(c.clone());
            assert(string_views(distinct@) =~= string_views(before).push(c@));
        }
        i = i + 1;
    }
    assert(resolved@.take(resolved@.len() as int) == resolved@);
    let ghost src = string_views(distinct@);
    let mut out: Vec<String> = Vec::new();
    let mut k: usize = 0;
    while k < distinct.len()
        invariant
            k <= distinct@.len(),
            src == string_views(distinct@),
            string_views(out@) == sort_cats(src.take(k as int)),
        decreases distinct.len() - k,
    {
        let x = &distinct[k];
        let mut pos: usize = out.len();
        while pos > 0 && cat_before_exec(x, &out[pos - 1])
            invariant
                pos <= out@.len(),
                forall|j: int| pos <= j < out@.len() ==> cat_before(x@, #[trigger] out@[j]@),
            decreases pos,
        {
            pos = pos - 1;
        }
        let ghost before = string_views(out@);
        proof {
            assert forall|j: int| pos <= j < before.len() implies cat_before(x@, #[trigger] before[j]) by {
                assert(before[j] == out@[j]@);
            }
            if pos > 0 {
                assert(before[pos - 1] == out@[pos - 1]@);
            }
            lemma_insert_cat_at(before, x@, pos as int);
            assert(src.take(k + 1).drop_last() == src.take(k as int));
            assert(src.take(k + 1).last() == x@);
        }
        out.insert(pos, x.clone());
        proof {
            assert(string_views(out@) =~= before.insert(pos as int, x@));
        }
        k = k + 1;
    }
    assert(src.take(src.len() as int) == src);
    out
}

/// The display-order key of a parameter: its `ui_order`, else its word
/// offset.
pub open spec fn ui_key(r: ResolvedReg) -> int {
    match r.ui_order {
        Some(o) => o as int,
        None => r.word_offset as int,
    }
}

/// `x` inserted into `s` after every register whose key is not larger.
pub open spec fn insert_by_ui(s: Seq<ResolvedReg>, x: ResolvedReg) -> Seq<ResolvedReg>
    decreases s.len(),
{
    if s.len() == 0 {
        seq![x]
    } else if ui_key(s.last()) <= ui_key(x) {
        s.push(x)
    } else {
        insert_by_ui(s.drop_last(), x).push(s.last())
    }
}

/// `s` stably sorted by display-order key.
pub open spec fn sort_by_ui(s: Seq<ResolvedReg>) -> Seq<ResolvedReg>
    decreases s.len(),
{
    if s.len() == 0 {
        s
    } else {
        insert_by_ui(sort_by_ui(s.drop_last()), s.last())
    }
}

/// The parameters of a category, in display order.
pub open spec fn category_params(s: Seq<ResolvedReg>, cat: Seq<char>) -> Seq<ResolvedReg> {
    sort_by_ui(s.filter(category_pred(cat)))
}

/// A register is of category `cat`.
pub open spec fn category_pred(cat: Seq<char>) -> spec_fn(ResolvedReg) -> bool {
    |r: ResolvedReg| r.category@ == cat
}

proof fn lemma_insert_ui_at(s: Seq<ResolvedReg>, x: ResolvedReg, pos: int)
    requires
        0 <= pos <= s.len(),
        forall|j: int| pos <= j < s.len() ==> ui_key(#[trigger] s[j]) > ui_key(x),
        pos > 0 ==> ui_key(s[pos - 1]) <= ui_key(x),
    ensures
        insert_by_ui(s, x) == s.insert(pos, x),
    decreases s.len(),
{
    if s.len() == 0 {
        assert(s.insert(pos, x) =~= seq![x]);
    } else if ui_key(s.last()) <= ui_key(x) {
        if pos < s.len() {
            assert(ui_key(s[s.len() - 1]) > ui_key(x));
        }
        assert(s.insert(pos, x) =~= s.push(x));
    } else {
        lemma_insert_ui_at(s.drop_last(), x, pos);
        assert(s.insert(pos, x) =~= s.drop_last().insert(pos, x).push(s.last()));
    }
}

/// The registers behind a list of references.
pub open spec fn deref_regs(v: Seq<&ResolvedReg>) -> Seq<ResolvedReg> {
    v.map_values(|x: &ResolvedReg| *x)
}

fn ui_key_exec(r: &ResolvedReg) -> (k: i64)
    ensures
        k == ui_key(*r),
{
    match r.ui_order {
        Some(o) => o,
        None => r.word_offset as i64,
    }
}

/// The parameters of a category, in display order.
fn select_category<'a>(resolved: &'a Vec<ResolvedReg>, cat: &String) -> (r: Vec<&'a ResolvedReg>)
    ensures
        deref_regs(r@) == category_params(resolved@, cat@),
{
    let ghost pred = category_pred(cat@);
    let mut picked: Vec<&'a ResolvedReg> = Vec::new();
    let mut i: usize = 0;
    while i < resolved.len()
        invariant
            i <= resolved@.len(),
            pred == category_pred(cat@),
            deref_regs(picked@) == resolved@.take(i as int).filter(pred),
        decreases resolved.len() - i,
    {
        let r = &resolved[i];
        proof {
            reveal(Seq::filter);
            assert(resolved@.take(i + 1).drop_last() == resolved@.take(i as int));
            assert(resolved@.take(i + 1).last() == resolved@[i as int]);
        }
        if r.category == *cat {
            picked.push(r);
            assert(deref_regs(picked@) =~= resolved@.take(i + 1).filter(pred));
        } else {
            assert(deref_regs(picked@) =~= resolved@.take(i + 1).filter(pred));
        }
        i = i + 1;
    }
    assert(resolved@.take(resolved@.len() as int) == resolved@);
    let ghost src = deref_regs(picked@);
    let mut out: Vec<&'a ResolvedReg> = Vec::new();
    let mut k: usize = 0;
    while k < picked.len()
        invariant
            k <= picked@.len(),
            src == deref_regs(picked@),
            deref_regs(out@) == sort_by_ui(src.take(k as int)),
        decreases picked.len() - k,
    {
        let x = picked[k];
        let kx = ui_key_exec(x);
        let mut pos: usize = out.len();
        while pos > 0 && ui_key_exec(out[pos - 1]) > kx
            invariant
                pos <= out@.len(),
                kx == ui_key(*x),
                forall|j: int| pos <= j < out@.len() ==> ui_key(*#[trigger] out@[j]) > ui_key(*x),
            decreases pos,
        {
            pos = pos - 1;
        }
        let ghost before = deref_regs(out@);
        proof {
            assert forall|j: int| pos <= j < before.len() implies ui_key(#[trigger] before[j]) > ui_key(*x) by {
                assert(before[j] == *out@[j]);
            }
            if pos > 0 {
                assert(before[pos - 1] == *out@[pos - 1]);
            }
            lemma_insert_ui_at(before, *x, pos as int);
            assert(src.take(k + 1).drop_last() == src.take(k as int));
            assert(src.take(k + 1).last() == *x);
        }
        out.insert(pos, x);
        proof {
            assert(deref_regs(out@) =~= before.insert(pos as int, *x));
        }
        k = k + 1;
    }
    assert(src.take(src.len() as int) == src);
    out
}

/// Every register's page offset leaves room for the viewer's ch0 base.
pub open spec fn offsets_fit_viewer(s: Seq<ResolvedReg>) -> bool {
    forall|i: int| 0 <= i < s.len() ==> (#[trigger] s[i]).word_offset <= 0xff7f_ffff
}

/// The constant name of a category's parameter array.
pub open spec fn category_const(cat: Seq<char>) -> Seq<char> {
    "AMAX_"@ + str_upper(spec_category_label(cat)) + "_PARAMS"@
}

fn push_category_const(out: &mut String, cat: &String)
    ensures
        final(out)@ == old(out)@ + category_const(cat@),
{
    out.append("AMAX_");
    let label = crate::amax::category_label(cat.as_str());
    out.append(to_upper(label.as_str()).as_str());
    out.append("_PARAMS");
}

/// The concatenation of `f` over the categories, in order.
pub open spec fn concat_cats(s: Seq<Seq<char>>, f: spec_fn(Seq<char>) -> Seq<char>) -> Seq<char>
    decreases s.len(),
{
    if s.len() == 0 {
        Seq::empty()
    } else {
        concat_cats(s.drop_last(), f) + f(s.last())
    }
}

/// The entry of a category in `AMAX_PARAM_CATEGORIES`.
pub open spec fn cat_list_line(cat: Seq<char>) -> Seq<char> {
    "  '"@ + cat + "',\n"@
}

/// The entry of a category in `AMAX_PARAMS_BY_CATEGORY`.
pub open spec fn cat_map_line(cat: Seq<char>) -> Seq<char> {
    "  '"@ + cat + "': "@ + category_const(cat) + ",\n"@
}

/// The parameter array of a category.
pub open spec fn cat_block(resolved: Seq<ResolvedReg>, cat: Seq<char>) -> Seq<char> {
    "export const "@ + category_const(cat) + ": ChannelParamDef[] = [\n"@ + concat_lines(
        category_params(resolved, cat),
        |r: ResolvedReg| ts_param_line(r),
    ) + "];\n\n"@
}

/// Which per-category text a loop over the categories writes.
#[derive(Debug, Clone, Copy, PartialEq, Eq, Structural)]
pub enum CatLine {
    List,
    Block,
    ConstMap,
}

/// The text of one kind for a category.
pub open spec fn cat_line(k: CatLine, resolved: Seq<ResolvedReg>, cat: Seq<char>) -> Seq<char> {
    match k {
        CatLine::List => cat_list_line(cat),
        CatLine::Block => cat_block(resolved, cat),
        CatLine::ConstMap => cat_map_line(cat),
    }
}

fn push_cat_block(out: &mut String, resolved: &Vec<ResolvedReg>, cat: &String)
    requires
        offsets_fit_viewer(resolved@),
    ensures
        final(out)@ == old(out)@ + cat_block(resolved@, cat@),
{
    out.append("export const ");
    push_category_const(out, cat);
    out.append(": ChannelParamDef[] = [\n");
    let regs = select_category(resolved, cat);
    let ghost src = deref_regs(regs@);
    let ghost f = |r: ResolvedReg| ts_param_line(r);
    let ghost start = out@;
    let mut i: usize = 0;
    while i < regs.len()
        invariant
            i <= regs@.len(),
            src == deref_regs(regs@),
            src == category_params(resolved@, cat@),
            offsets_fit_viewer(resolved@),
            f == (|r: ResolvedReg| ts_param_line(r)),
            out@ == start + concat_lines(src.take(i as int), f),
        decreases regs.len() - i,
    {
        proof {
            lemma_concat_step(src, f, i as int);
            lemma_category_params_fit(resolved@, cat@);
            assert(src[i as int] == *regs@[i as int]);
        }
        push_ts_param_line(out, regs[i]);
        i = i + 1;
    }
    assert(src.take(src.len() as int) == src);
    out.append("];\n\n");
}

/// The parameters of a category come from the register list.
proof fn lemma_category_params_fit(s: Seq<ResolvedReg>, cat: Seq<char>)
    requires
        offsets_fit_viewer(s),
    ensures
        offsets_fit_viewer(category_params(s, cat)),
{
    let pred = category_pred(cat);
    let f = s.filter(pred);
    assert forall|i: int| 0 <= i < f.len() implies (#[trigger] f[i]).word_offset <= 0xff7f_ffff by {
        assert(f.contains(f[i]));
        s.lemma_filter_contains_rev(pred, f[i]);
        let j = choose|j: int| 0 <= j < s.len() && s[j] == f[i];
        assert(s[j].word_offset <= 0xff7f_ffff);
    }
    lemma_sort_by_ui_fit(f);
}

/// Sorting keeps the registers.
proof fn lemma_sort_by_ui_fit(s: Seq<ResolvedReg>)
    requires
        offsets_fit_viewer(s),
    ensures
        offsets_fit_viewer(sort_by_ui(s)),
    decreases s.len(),
{
    if s.len() > 0 {
        lemma_sort_by_ui_fit(s.drop_last());
        lemma_insert_ui_fit(sort_by_ui(s.drop_last()), s.last());
    }
}

proof fn lemma_insert_ui_fit(s: Seq<ResolvedReg>, x: ResolvedReg)
    requires
        offsets_fit_viewer(s),
        x.word_offset <= 0xff7f_ffff,
    ensures
        offsets_fit_viewer(insert_by_ui(s, x)),
    decreases s.len(),
{
    if s.len() > 0 && !(ui_key(s.last()) <= ui_key(x)) {
        lemma_insert_ui_fit(s.drop_last(), x);
    }
}

/// Append the text of kind `k` of every category, in order.
fn push_cat_lines(out: &mut String, k: CatLine, resolved: &Vec<ResolvedReg>, cats: &Vec<String>)
    requires
        offsets_fit_viewer(resolved@),
    ensures
        final(out)@ == old(out)@ + concat_cats(string_views(cats@), |c: Seq<char>| cat_line(k, resolved@, c)),
{
    let ghost f = |c: Seq<char>| cat_line(k, resolved@, c);
    let ghost cs = string_views(cats@);
    let ghost start = out@;
    let mut i: usize = 0;
    while i < cats.len()
        invariant
            i <= cats@.len(),
            cs == string_views(cats@),
            offsets_fit_viewer(resolved@),
            f == (|c: Seq<char>| cat_line(k, resolved@, c)),
            out@ == start + concat_cats(cs.take(i as int), f),
        decreases cats.len() - i,
    {
        proof {
            assert(cs.take(i + 1).drop_last() == cs.take(i as int));
            assert(cs.take(i + 1).last() == cats@[i as int]@);
        }
        let cat = &cats[i];
        match k {
            CatLine::List => {
                out.append("  '");
                out.append(cat.as_str());
                out.append("',\n");
            },
            CatLine::Block => {
                push_cat_block(out, resolved, cat);
            },
            CatLine::ConstMap => {
                out.append("  '");
                out.append(cat.as_str());
                out.append("': ");
                push_category_const(out, cat);
                out.append(",\n");
            },
        }
        i = i + 1;
    }
    assert(cs.take(cs.len() as int) == cs);
}

/// The TypeScript bindings of the operator UI.
pub open spec fn typescript_text(
    resolved: Seq<ResolvedReg>,
    board: Seq<ResolvedReg>,
    register_file: Seq<char>,
    params_file: Seq<char>,
) -> Seq<char> {
    let cats = categories(resolved);
    "// AUTO-GENERATED by `cargo run --bin amax_codegen`. Do not edit by hand.\n//\n// Sources:\n// - "@ + register_file + "\n// - "@ + params_file + "\n\nimport type { ChannelParamDef } from '../components/channel-table/channel-table.component';\n\nexport interface AMaxChannelConfig {\n"@ + concat_lines(
        resolved,
        |r: ResolvedReg| reg_line(RegLine::TsIface, r),
    ) + "}\n\n"@ + "/** Per-key default values from `fw_params.json` (FW developer defaults). */\n"@ + "export const AMAX_DEFAULTS: Record<string, number> = {\n"@ + concat_lines(resolved, |r: ResolvedReg| reg_line(RegLine::TsDefault, r))
        + "};\n\n"@ + "/** All AMax dotted-path keys (`amax.<field>`). Used by the\n"@ + " *  Settings expand/compress logic in `digitizer.service.ts`. */\n"@ + "export const AMAX_DOTTED_KEYS: readonly string[] = [\n"@ + concat_lines(
        resolved,
        |r: ResolvedReg| reg_line(RegLine::TsDotted, r),
    ) + "];\n\n"@ + "/** Channel-param categories declared by `fw_params.json`.\n"@ + " *  Mirrors the `AMAX_<CATEGORY>_PARAMS` arrays below; UI can\n"@ + " *  iterate this list to render any future debug / housekeeping\n"@ + " *  tabs without an additional codegen edit. */\n"@ + "export const AMAX_PARAM_CATEGORIES: readonly string[] = [\n"@ + concat_cats(
        cats,
        |c: Seq<char>| cat_line(CatLine::List, resolved, c),
    ) + "];\n\n"@ + concat_cats(cats, |c: Seq<char>| cat_line(CatLine::Block, resolved, c)) + "/** Maps each AMax category name to its params array. The UI\n"@
        + " *  iterates `AMAX_PARAM_CATEGORIES` over this map to render tabs,\n"@ + " *  so a new firmware category auto-appears with no hand-edit. */\n"@ + "export const AMAX_PARAMS_BY_CATEGORY: Record<string, ChannelParamDef[]> = {\n"@ + concat_cats(cats, |c: Seq<char>| cat_line(CatLine::ConstMap, resolved, c))
        + "};\n\n"@ + "/** AMax board-level (global) writable register set —\n"@ + " *  firmware-wide toggles like the debug-FW `ENABLE_ACQ`. */\n"@ + "export interface AMaxBoardConfig {\n"@ + concat_lines(board, |r: ResolvedReg| reg_line(RegLine::TsIface, r))
        + "}\n\n"@ + "/** Per-key default values for board-level registers. */\n"@ + "export const AMAX_BOARD_DEFAULTS: Record<string, number> = {\n"@ + concat_lines(
        board,
        |r: ResolvedReg| reg_line(RegLine::TsBoardDefault, r),
    ) + "};\n\n"@ + "/** Board-level dotted-path keys (`amax.board.<field>`). */\n"@ + "export const AMAX_BOARD_DOTTED_KEYS: readonly string[] = [\n"@ + concat_lines(
        board,
        |r: ResolvedReg| reg_line(RegLine::TsBoardDotted, r),
    ) + "];\n\n"@ + "/** Board-level parameter UI definitions. */\n"@ + "export const AMAX_BOARD_PARAMS: ChannelParamDef[] = [\n"@ + concat_lines(board, |r: ResolvedReg| reg_line(RegLine::TsBoardParam, r))
        + "];\n"@
}

fn push_ts_head(out: &mut String, resolved: &Vec<ResolvedReg>, register_file: &str, params_file: &str)
    ensures
        final(out)@ == old(out)@ + "// AUTO-GENERATED by `cargo run --bin amax_codegen`. Do not edit by hand.\n//\n// Sources:\n// - "@ + register_file@ + "\n// - "@ + params_file@ + "\n\nimport type { ChannelParamDef } from '../components/channel-table/channel-table.component';\n\nexport interface AMaxChannelConfig {\n"@ + concat_lines(
            resolved@,
            |r: ResolvedReg| reg_line(RegLine::TsIface, r),
        ) + "}\n\n"@ + "/** Per-key default values from `fw_params.json` (FW developer defaults). */\n"@ + "export const AMAX_DEFAULTS: Record<string, number> = {\n"@ + concat_lines(resolved@, |r: ResolvedReg| reg_line(RegLine::TsDefault, r))
            + "};\n\n"@ + "/** All AMax dotted-path keys (`amax.<field>`). Used by the\n"@ + " *  Settings expand/compress logic in `digitizer.service.ts`. */\n"@ + "export const AMAX_DOTTED_KEYS: readonly string[] = [\n"@ + concat_lines(
            resolved@,
            |r: ResolvedReg| reg_line(RegLine::TsDotted, r),
        ) + "];\n\n"@,
{
    out.append("// AUTO-GENERATED by `cargo run --bin amax_codegen`. Do not edit by hand.\n//\n// Sources:\n// - ");
    out.append(register_file);
    out.append("\n// - ");
    out.append(params_file);
    out.append("\n\nimport type { ChannelParamDef } from '../components/channel-table/channel-table.component';\n\nexport interface AMaxChannelConfig {\n");
    push_reg_lines(out, RegLine::TsIface, resolved);
    out.append("}\n\n");
    out.append("/** Per-key default values from `fw_params.json` (FW developer defaults). */\n");
    out.append("export const AMAX_DEFAULTS: Record<string, number> = {\n");
    push_reg_lines(out, RegLine::TsDefault, resolved);
    out.append("};\n\n");
    out.append("/** All AMax dotted-path keys (`amax.<field>`). Used by the\n");
    out.append(" *  Settings expand/compress logic in `digitizer.service.ts`. */\n");
    out.append("export const AMAX_DOTTED_KEYS: readonly string[] = [\n");
    push_reg_lines(out, RegLine::TsDotted, resolved);
    out.append("];\n\n");
}

fn push_ts_categories(out: &mut String, resolved: &Vec<ResolvedReg>)
    requires
        offsets_fit_viewer(resolved@),
    ensures
        final(out)@ == old(out)@ + "/** Channel-param categories declared by `fw_params.json`.\n"@ + " *  Mirrors the `AMAX_<CATEGORY>_PARAMS` arrays below; UI can\n"@ + " *  iterate this list to render any future debug / housekeeping\n"@ + " *  tabs without an additional codegen edit. */\n"@ + "export const AMAX_PARAM_CATEGORIES: readonly string[] = [\n"@ + concat_cats(
            categories(resolved@),
            |c: Seq<char>| cat_line(CatLine::List, resolved@, c),
        ) + "];\n\n"@ + concat_cats(categories(resolved@), |c: Seq<char>| cat_line(CatLine::Block, resolved@, c))
            + "/** Maps each AMax category name to its params array. The UI\n"@ + " *  iterates `AMAX_PARAM_CATEGORIES` over this map to render tabs,\n"@ + " *  so a new firmware category auto-appears with no hand-edit. */\n"@ + "export const AMAX_PARAMS_BY_CATEGORY: Record<string, ChannelParamDef[]> = {\n"@ + concat_cats(
            categories(resolved@),
            |c: Seq<char>| cat_line(CatLine::ConstMap, resolved@, c),
        ) + "};\n\n"@,
{
    let cats = collect_categories(resolved);
    out.append("/** Channel-param categories declared by `fw_params.json`.\n");
    out.append(" *  Mirrors the `AMAX_<CATEGORY>_PARAMS` arrays below; UI can\n");
    out.append(" *  iterate this list to render any future debug / housekeeping\n");
    out.append(" *  tabs without an additional codegen edit. */\n");
    out.append("export const AMAX_PARAM_CATEGORIES: readonly string[] = [\n");
    push_cat_lines(out, CatLine::List, resolved, &cats);
    out.append("];\n\n");
    push_cat_lines(out, CatLine::Block, resolved, &cats);
    out.append("/** Maps each AMax category name to its params array. The UI\n");
    out.append(" *  iterates `AMAX_PARAM_CATEGORIES` over this map to render tabs,\n");
    out.append(" *  so a new firmware category auto-appears with no hand-edit. */\n");
    out.append("export const AMAX_PARAMS_BY_CATEGORY: Record<string, ChannelParamDef[]> = {\n");
    push_cat_lines(out, CatLine::ConstMap, resolved, &cats);
    out.append("};\n\n");
}

fn push_ts_board(out: &mut String, board: &Vec<ResolvedReg>)
    ensures
        final(out)@ == old(out)@ + "/** AMax board-level (global) writable register set —\n"@ + " *  firmware-wide toggles like the debug-FW `ENABLE_ACQ`. */\n"@ + "export interface AMaxBoardConfig {\n"@ + concat_lines(
            board@,
            |r: ResolvedReg| reg_line(RegLine::TsIface, r),
        ) + "}\n\n"@ + "/** Per-key default values for board-level registers. */\n"@ + "export const AMAX_BOARD_DEFAULTS: Record<string, number> = {\n"@ + concat_lines(board@, |r: ResolvedReg| reg_line(RegLine::TsBoardDefault, r))
            + "};\n\n"@ + "/** Board-level dotted-path keys (`amax.board.<field>`). */\n"@ + "export const AMAX_BOARD_DOTTED_KEYS: readonly string[] = [\n"@ + concat_lines(
            board@,
            |r: ResolvedReg| reg_line(RegLine::TsBoardDotted, r),
        ) + "];\n\n"@ + "/** Board-level parameter UI definitions. */\n"@ + "export const AMAX_BOARD_PARAMS: ChannelParamDef[] = [\n"@ + concat_lines(board@, |r: ResolvedReg| reg_line(RegLine::TsBoardParam, r))
            + "];\n"@,
{
    out.append("/** AMax board-level (global) writable register set —\n");
    out.append(" *  firmware-wide toggles like the debug-FW `ENABLE_ACQ`. */\n");
    out.append("export interface AMaxBoardConfig {\n");
    push_reg_lines(out, RegLine::TsIface, board);
    out.append("}\n\n");
    out.append("/** Per-key default values for board-level registers. */\n");
    out.append("export const AMAX_BOARD_DEFAULTS: Record<string, number> = {\n");
    push_reg_lines(out, RegLine::TsBoardDefault, board);
    out.append("};\n\n");
    out.append("/** Board-level dotted-path keys (`amax.board.<field>`). */\n");
    out.append("export const AMAX_BOARD_DOTTED_KEYS: readonly string[] = [\n");
    push_reg_lines(out, RegLine::TsBoardDotted, board);
    out.append("];\n\n");
    out.append("/** Board-level parameter UI definitions. */\n");
    out.append("export const AMAX_BOARD_PARAMS: ChannelParamDef[] = [\n");
    push_reg_lines(out, RegLine::TsBoardParam, board);
    out.append("];\n");
}

/// The TypeScript bindings: the channel and board config interfaces, their
/// defaults and dotted keys, one parameter array per category (categories
/// in rank-then-name order, parameters in display order) and the board
/// parameter definitions. Each page offset must leave room for the
/// viewer's ch0 base (`0x800000 + offset` fits a `u32`).
pub fn emit_typescript(
    resolved: &Vec<ResolvedReg>,
    board_resolved: &Vec<ResolvedReg>,
    register_file: &str,
    params_file: &str,
) -> (r: String)
    requires
        offsets_fit_viewer(resolved@),
    ensures
        r@ == typescript_text(resolved@, board_resolved@, register_file@, params_file@),
{
    let mut out = String::new();
    push_ts_head(&mut out, resolved, register_file, params_file);
    push_ts_categories(&mut out, resolved);
    push_ts_board(&mut out, board_resolved);
    out
}

/// The value a register field takes from the configuration `source`:
/// `<source>.and_then(|c| c.<field>)`.
pub open spec fn field_from(source: Seq<char>, field: Seq<char>) -> Seq<char> {
    source + ".and_then(|c| c."@ + field + ")"@
}

/// In the generated `merge_amax_channel_config`, every field takes the
/// channel's override first and falls back to the defaults only where the
/// override leaves it unset: its line is
/// `<field>: <override's value>.or_else(|| <defaults' value>),`.
pub proof fn lemma_merge_prefers_override(r: ResolvedReg)
    ensures
        merge_line(r) == "        "@ + r.field@ + ": "@ + field_from("override_cfg"@, r.field@) + ".or_else(|| "@
            + field_from("defaults"@, r.field@) + "),\n"@,
{
    reveal_strlit("        ");
    reveal_strlit(": override_cfg.and_then(|c| c.");
    reveal_strlit(").or_else(|| defaults.and_then(|c| c.");
    reveal_strlit(")),\n");
    reveal_strlit(": ");
    reveal_strlit("override_cfg");
    reveal_strlit(".and_then(|c| c.");
    reveal_strlit(")");
    reveal_strlit(".or_else(|| ");
    reveal_strlit("defaults");
    reveal_strlit("),\n");
    assert(merge_line(r) =~= "        "@ + r.field@ + ": "@ + field_from("override_cfg"@, r.field@) + ".or_else(|| "@
        + field_from("defaults"@, r.field@) + "),\n"@);
}

/// The per-register lines of the generated Rust module, word for word: the
/// `REG_<NAME>` and `BOARD_REG_<NAME>` constants at the register's word
/// offset in upper-case hexadecimal, the writes that send a set field to
/// its own register under its own name, and the board register pairs.
pub proof fn lemma_rust_register_lines(r: ResolvedReg)
    ensures
        reg_const_line(r) == "/// "@ + decimal(r.bits as nat) + "-bit "@ + r.label@ + "\n"@ + "pub const REG_"@
            + str_upper(r.field@) + ": u32 = 0x"@ + hex_upper(r.word_offset as nat) + ";\n"@,
        channel_write_line(r) == "    if let Some(v) = config."@ + r.field@ + " { writes.push((REG_"@
            + str_upper(r.field@) + ", v, \""@ + r.field@ + "\")); }\n"@,
        board_const_line(r) == "/// "@ + decimal(r.bits as nat) + "-bit "@ + r.label@ + " (FW reg `"@ + r.fw_name@
            + "`)\n"@ + "pub const BOARD_REG_"@ + str_upper(r.field@) + ": u32 = 0x"@ + hex_upper(r.word_offset as nat)
            + ";\n"@,
        board_write_line(r) == "    if let Some(v) = _config."@ + r.field@ + " { writes.push((BOARD_REG_"@
            + str_upper(r.field@) + ", v, \""@ + r.field@ + "\")); }\n"@,
        board_pair_line(r) == "        (BOARD_REG_"@ + str_upper(r.field@) + ", \""@ + r.field@ + "\"),\n"@,
        offset_test_line(r) == "            REG_"@ + str_upper(r.field@) + ",\n"@,
{
}

/// The per-register lines of the generated TypeScript module, word for
/// word: interface fields, per-channel and board defaults, and the dotted
/// keys, each under the register's own field name.
pub proof fn lemma_ts_register_lines(r: ResolvedReg)
    ensures
        ts_iface_line(r) == "  /** "@ + decimal(r.bits as nat) + "-bit "@ + r.label@ + " */\n"@ + "  "@ + r.field@
            + "?: number;\n"@,
        ts_default_line(r) == "  'amax."@ + r.field@ + "': "@ + decimal(r.default as nat) + ",\n"@,
        ts_dotted_line(r) == "  'amax."@ + r.field@ + "',\n"@,
        ts_board_default_line(r) == "  '"@ + r.field@ + "': "@ + decimal(r.default as nat) + ",\n"@,
        ts_board_dotted_line(r) == "  'amax.board."@ + r.field@ + "',\n"@,
{
}

} // verus!
