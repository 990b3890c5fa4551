use delila_rs::amax::emit::{emit_rust_registers, emit_rust_struct, emit_typescript};
use delila_rs::amax::resolve::{
    bits_max_exec, resolve_board_registers, resolve_channel_registers, sort_by_address_exec, FwParam,
    FwParams, ResolvedReg,
};
use delila_rs::amax::{select_canonical_per_channel_with, Register};

fn reg_at(addr: u32, p: &str) -> Register {
    Register { address: addr, path: Some(p.to_string()), name: None }
}

fn param(bits: u32, category: Option<&str>) -> FwParam {
    FwParam {
        bits,
        default: 1,
        label: None,
        category: category.map(|c| c.to_string()),
        ty: None,
        options: None,
        ui_max: None,
        unit: None,
        ui_order: None,
    }
}

fn params() -> FwParams {
    let mut thrs = param(16, Some("trigger"));
    thrs.label = Some("Threshold".to_string());
    thrs.unit = Some("ADC".to_string());
    let mut pol = param(1, Some("input"));
    pol.ty = Some("enum".to_string());
    pol.options = Some(vec!["Positive".to_string(), "Negative".to_string()]);
    let mut win = param(8, None);
    win.ui_order = Some(-1);
    FwParams {
        params: vec![
            ("THRS".to_string(), thrs),
            ("POLARITY".to_string(), pol),
            ("AMAX_window".to_string(), win),
        ],
        board_params: vec![("ENABLE_ACQ".to_string(), param(1, None))],
        readonly_patterns: vec!["STATUS".to_string()],
    }
}

fn registers() -> Vec<Register> {
    vec![
        reg_at(0x8003, "page_amax_energy_4_0/THRS"),
        reg_at(0x8000, "page_amax_energy_4_0/POLARITY"),
        reg_at(0x8005, "page_amax_energy_4_0/AMAX_window"),
        reg_at(0x8007, "page_amax_energy_4_0/STATUS_WORD"),
        reg_at(0x8009, "page_amax_energy_4_0/UNKNOWN"),
        reg_at(0x8200, "page_amax_energy_4_1/THRS"),
        reg_at(0x80, "/ENABLE_ACQ"),
    ]
}

fn resolved() -> (Vec<ResolvedReg>, Vec<String>, Vec<String>, Vec<ResolvedReg>) {
    let regs = registers();
    let fw = params();
    let canonical = select_canonical_per_channel_with(&regs, true);
    let sorted = sort_by_address_exec(&canonical);
    let (res, ro, nm) = resolve_channel_registers(&sorted, &fw, 0x8000);
    let board = resolve_board_registers(&regs, &fw);
    (res, ro, nm, board)
}

#[test]
fn resolution_skips_readonly_and_unknown() {
    let (res, ro, nm, board) = resolved();
    let names: Vec<&str> = res.iter().map(|r| r.fw_name.as_str()).collect();
    assert_eq!(names, vec!["POLARITY", "THRS", "AMAX_window"]);
    assert_eq!(ro, vec!["STATUS_WORD".to_string()]);
    assert_eq!(nm, vec!["UNKNOWN".to_string()]);
    assert_eq!(res[1].word_offset, 3);
    assert_eq!(res[1].label, "Threshold");
    assert_eq!(res[1].ui_max, 0xffff);
    assert_eq!(res[2].field, "amax_window");
    assert_eq!(res[2].category, "other");
    assert_eq!(res[2].label, "AMAX_window");
    assert_eq!(res[0].ty, "enum");
    assert_eq!(res[1].ty, "number");
    assert_eq!(board.len(), 1);
    assert_eq!(board[0].fw_name, "ENABLE_ACQ");
    assert_eq!(board[0].word_offset, 0x80);
    assert_eq!(board[0].category, "debug");
}

#[test]
fn bits_max_caps_at_32() {
    assert_eq!(bits_max_exec(0), 0);
    assert_eq!(bits_max_exec(1), 1);
    assert_eq!(bits_max_exec(16), 0xffff);
    assert_eq!(bits_max_exec(32), 0xffff_ffff);
    assert_eq!(bits_max_exec(40), 0xffff_ffff);
}

#[test]
fn rust_struct_lists_every_field() {
    let (res, _, _, board) = resolved();
    let text = emit_rust_struct(&res, &board, "rf.json", "fp.json");
    assert!(text.contains("    /// 16-bit Threshold, unit: ADC (FW reg `THRS`)\n"));
    assert!(text.contains("    pub thrs: Option<u32>,\n"));
    assert!(text.contains("    pub amax_window: Option<u32>,\n"));
    assert!(text.contains("pub struct AMaxBoardConfig {\n"));
    assert!(text.contains("    pub enable_acq: Option<u32>,\n}\n"));
    assert!(text.starts_with("//! AUTO-GENERATED"));
}

#[test]
fn rust_registers_layout_and_offsets() {
    let (res, _, _, board) = resolved();
    let text = emit_rust_registers(&res, &board, 0x8000, 0x200, 0x200, 32, "rf.json");
    assert!(text.contains("pub const PAGE_BASE: u32 = 0x8000;\n"));
    assert!(text.contains("pub const PAGE_STRIDE: u32 = 0x200;\n"));
    assert!(text.contains("pub const CHANNEL_PAGES: u32 = 32;\n"));
    assert!(text.contains("pub const REG_THRS: u32 = 0x3;\n"));
    assert!(text.contains("pub const REG_AMAX_WINDOW: u32 = 0x5;\n"));
    assert!(text.contains("    if let Some(v) = config.thrs { writes.push((REG_THRS, v, \"thrs\")); }\n"));
    assert!(text.contains("pub const BOARD_REG_ENABLE_ACQ: u32 = 0x80;\n"));
    assert!(text.contains("        (BOARD_REG_ENABLE_ACQ, \"enable_acq\"),\n"));
    assert!(text.contains("            REG_POLARITY,\n"));
    let empty_board = emit_rust_registers(&res, &Vec::new(), 0, 0, 0, 0, "rf.json");
    assert!(!empty_board.contains("BOARD_REG_"));
}

#[test]
fn typescript_categories_and_params() {
    let (res, _, _, board) = resolved();
    let text = emit_typescript(&res, &board, "rf.json", "fp.json");
    let cats = "export const AMAX_PARAM_CATEGORIES: readonly string[] = [\n  'input',\n  'trigger',\n  'other',\n];\n";
    assert!(text.contains(cats));
    assert!(text.contains("export const AMAX_OTHER_PARAMS: ChannelParamDef[] = [\n"));
    assert!(text.contains(
        "  { key: 'amax.polarity', label: \"POLARITY\", type: 'enum', options: [\"Positive\", \"Negative\"], numeric: true, tooltip: \"FW reg POLARITY \u{2022} word 0x00 (ch0 @ 0x800000)\" },\n"
    ));
    assert!(text.contains(
        "  { key: 'amax.thrs', label: \"Threshold\", type: 'number', unit: \"ADC\", min: 0, max: 65535, step: 1, tooltip: \"FW reg THRS \u{2022} word 0x03 (ch0 @ 0x800003)\" },\n"
    ));
    assert!(text.contains("  'amax.thrs': 1,\n"));
    assert!(text.contains("  'trigger': AMAX_TRIGGER_PARAMS,\n"));
    assert!(text.contains("  { key: 'amax.board.enable_acq', label: \"ENABLE_ACQ\", type: 'number', min: 0, max: 1, step: 1, tooltip: \"FW reg ENABLE_ACQ \u{2022} addr 0x80\" },\n"));
    assert!(text.ends_with("];\n"));
}
