use delila_rs::amax::{
    assert_broadcast_layout_matches, category_label, category_rank, derive_layout, header_rust,
    parse_u32_auto, select_canonical_per_channel, select_canonical_per_channel_with, snake_case,
    split_underscore_body, Register,
};

fn reg(name_or_path: &str) -> Register {
    Register { address: 0, path: Some(name_or_path.to_string()), name: Some(name_or_path.to_string()) }
}

fn reg_at(addr: u32, name_or_path: &str) -> Register {
    Register { address: addr, path: Some(name_or_path.to_string()), name: Some(name_or_path.to_string()) }
}

fn picked(regs: &[&Register]) -> Vec<(u32, String)> {
    let mut out: Vec<(u32, String)> = regs
        .iter()
        .map(|r| (r.address, r.path.clone().or(r.name.clone()).unwrap_or_default()))
        .collect();
    out.sort();
    out
}

fn thirteen_may_shape(bc_base: u32, pc_base: u32, stride: u32, nch: u32) -> Vec<Register> {
    let mut regs = vec![reg_at(bc_base, "page_amax_energy/POLARITY"), reg_at(bc_base + 3, "page_amax_energy/THRS")];
    for ch in 0..nch {
        regs.push(reg_at(pc_base + ch * stride, &format!("page_amax_energy_4_{ch}/POLARITY")));
        regs.push(reg_at(pc_base + ch * stride + 3, &format!("page_amax_energy_4_{ch}/THRS")));
    }
    regs
}

fn custom_width_shape(nch: u32) -> Vec<Register> {
    let mut regs = Vec::new();
    for ch in 0..nch {
        let base = 0x100000 + ch * 0x40000;
        regs.push(reg_at(base, &format!("page_amax_energy_1_{ch}_PRETRIGGER_INPUT")));
        regs.push(reg_at(base + 1, &format!("page_amax_energy_1_{ch}_POLARITY")));
        regs.push(reg_at(base + 3, &format!("page_amax_energy_1_{ch}_THRS")));
    }
    regs
}

#[test]
fn fw_key_handles_thirteen_may_era() {
    assert_eq!(reg("page_amax_energy/POLARITY").fw_key().as_deref(), Some("POLARITY"));
    assert_eq!(reg("page_amax_energy/baseline_delay").fw_key().as_deref(), Some("baseline_delay"));
    assert_eq!(reg("page_amax_energy_4_0/POLARITY").fw_key().as_deref(), Some("POLARITY"));
    assert_eq!(reg("page_amax_energy_4_31/THRS").fw_key().as_deref(), Some("THRS"));
    assert_eq!(reg("page_amax_energy_4_15/baseline_delay").fw_key().as_deref(), Some("baseline_delay"));
}

#[test]
fn fw_key_handles_three_eras() {
    assert_eq!(reg("page_amax_energy_0/THRS").fw_key().as_deref(), Some("THRS"));
    assert_eq!(reg("page_amax_energy_1/POLARITY").fw_key().as_deref(), Some("POLARITY"));
    assert_eq!(reg("page_amax_energy_THRS").fw_key().as_deref(), Some("THRS"));
    assert_eq!(reg("page_amax_energy_baseline_delay").fw_key().as_deref(), Some("baseline_delay"));
    assert_eq!(reg("page_amax_energy_15_THRS").fw_key().as_deref(), Some("THRS"));
    assert_eq!(reg("page_amax_energy_0_POLARITY").fw_key().as_deref(), Some("POLARITY"));
    assert_eq!(reg("page_amax_energy_7_baseline_delay").fw_key().as_deref(), Some("baseline_delay"));
}

#[test]
fn fw_key_preserves_unprefixed_names() {
    assert_eq!(reg("ENABLE_ACQ").fw_key().as_deref(), Some("ENABLE_ACQ"));
    assert_eq!(reg("AMAX_gol").fw_key().as_deref(), Some("AMAX_gol"));
}

#[test]
fn fw_key_does_not_misclassify_underscore_names() {
    assert_eq!(reg("page_amax_energy_baseline_delay").fw_key().as_deref(), Some("baseline_delay"));
}

#[test]
fn channel_index_handles_thirteen_may_era() {
    assert_eq!(reg("page_amax_energy/POLARITY").channel_index(), None);
    assert_eq!(reg("page_amax_energy/baseline_delay").channel_index(), None);
    assert_eq!(reg("page_amax_energy_4_0/POLARITY").channel_index(), Some(0));
    assert_eq!(reg("page_amax_energy_4_15/THRS").channel_index(), Some(15));
    assert_eq!(reg("page_amax_energy_4_31/THRS").channel_index(), Some(31));
}

#[test]
fn is_per_channel_recognises_broadcast_slash_form() {
    assert!(reg("page_amax_energy/POLARITY").is_per_channel());
    assert!(reg("page_amax_energy/baseline_delay").is_per_channel());
    assert!(reg("page_amax_energy_4_0/POLARITY").is_per_channel());
}

#[test]
fn channel_index_distinguishes_broadcast_from_per_channel() {
    assert_eq!(reg("page_amax_energy_0/THRS").channel_index(), Some(0));
    assert_eq!(reg("page_amax_energy_15/THRS").channel_index(), Some(15));
    assert_eq!(reg("page_amax_energy_0_THRS").channel_index(), Some(0));
    assert_eq!(reg("page_amax_energy_15_THRS").channel_index(), Some(15));
    assert_eq!(reg("page_amax_energy_THRS").channel_index(), None);
    assert_eq!(reg("page_amax_energy_baseline_delay").channel_index(), None);
    assert_eq!(reg("ENABLE_ACQ").channel_index(), None);
    assert_eq!(reg("AMAX_gol").channel_index(), None);
}

#[test]
fn is_per_channel_matches_page_amax_energy_prefix() {
    assert!(reg("page_amax_energy_THRS").is_per_channel());
    assert!(reg("page_amax_energy_0_THRS").is_per_channel());
    assert!(reg("page_amax_energy_15_baseline_delay").is_per_channel());
    assert!(reg("page_amax_energy_0/THRS").is_per_channel());
    assert!(!reg("ENABLE_ACQ").is_per_channel());
    assert!(!reg("AMAX_gol").is_per_channel());
    assert!(!reg("/ENABLE_ACQ").is_per_channel());
}

#[test]
fn canonical_filter_2026_03_era_keeps_ch0_only() {
    let regs = vec![
        reg_at(0x800002, "page_amax_energy_0/POLARITY"),
        reg_at(0x800004, "page_amax_energy_0/THRS"),
        reg_at(0x840002, "page_amax_energy_1/POLARITY"),
        reg_at(0x840004, "page_amax_energy_1/THRS"),
        reg_at(0x880002, "page_amax_energy_2/POLARITY"),
        reg_at(0x880004, "page_amax_energy_2/THRS"),
        reg_at(0x80008, "ENABLE_ACQ"),
        reg_at(0x80007, "AMAX_gol"),
    ];
    let picked = picked(&select_canonical_per_channel(&regs));
    assert_eq!(
        picked,
        vec![
            (0x800002, "page_amax_energy_0/POLARITY".to_string()),
            (0x800004, "page_amax_energy_0/THRS".to_string()),
        ],
        "2026-03 era: ch0 wins, ch1+ + globals dropped"
    );
}

#[test]
fn canonical_filter_2026_04_era_keeps_bare_names() {
    let regs = vec![
        reg_at(0x100002, "page_amax_energy_POLARITY"),
        reg_at(0x100004, "page_amax_energy_THRS"),
        reg_at(0x100006, "page_amax_energy_baseline_delay"),
        reg_at(0x80008, "ENABLE_ACQ"),
    ];
    let picked = picked(&select_canonical_per_channel(&regs));
    assert_eq!(
        picked,
        vec![
            (0x100002, "page_amax_energy_POLARITY".to_string()),
            (0x100004, "page_amax_energy_THRS".to_string()),
            (0x100006, "page_amax_energy_baseline_delay".to_string()),
        ],
        "2026-04 era: all bare-name broadcast entries kept"
    );
}

#[test]
fn canonical_filter_2026_05_caenlist_13may_picks_broadcast_drops_per_channel() {
    let mut regs = vec![
        reg_at(0x200, "page_amax_energy/POLARITY"),
        reg_at(0x203, "page_amax_energy/THRS"),
        reg_at(0x211, "page_amax_energy/baseline_delay"),
    ];
    for ch in 0..32u32 {
        regs.push(reg_at(0x4001 + ch * 0x200, &format!("page_amax_energy_4_{ch}/POLARITY")));
        regs.push(reg_at(0x4003 + ch * 0x200, &format!("page_amax_energy_4_{ch}/THRS")));
    }
    let picked = picked(&select_canonical_per_channel(&regs));
    assert_eq!(
        picked,
        vec![
            (0x200, "page_amax_energy/POLARITY".to_string()),
            (0x203, "page_amax_energy/THRS".to_string()),
            (0x211, "page_amax_energy/baseline_delay".to_string()),
        ]
    );
}

#[test]
fn canonical_filter_2026_05_era_prefers_broadcast_drops_per_channel() {
    let mut regs = vec![
        reg_at(0x100002, "page_amax_energy_POLARITY"),
        reg_at(0x100004, "page_amax_energy_THRS"),
        reg_at(0x80008, "ENABLE_ACQ"),
    ];
    for ch in 0..16u32 {
        regs.push(reg_at(0x200000 + ch * 0x40000, &format!("page_amax_energy_{ch}_POLARITY")));
        regs.push(reg_at(0x200004 + ch * 0x40000, &format!("page_amax_energy_{ch}_THRS")));
    }
    let picked = picked(&select_canonical_per_channel(&regs));
    assert_eq!(
        picked,
        vec![
            (0x100002, "page_amax_energy_POLARITY".to_string()),
            (0x100004, "page_amax_energy_THRS".to_string()),
        ]
    );
}

#[test]
fn canonical_filter_does_not_double_count_register_names() {
    let regs = vec![
        reg_at(0x100002, "page_amax_energy_POLARITY"),
        reg_at(0x200002, "page_amax_energy_0_POLARITY"),
        reg_at(0x300002, "page_amax_energy_1_POLARITY"),
        reg_at(0x100004, "page_amax_energy_THRS"),
        reg_at(0x200004, "page_amax_energy_0_THRS"),
    ];
    let canonical = select_canonical_per_channel(&regs);
    let mut keys: Vec<String> = canonical.iter().filter_map(|r| r.fw_key()).collect();
    keys.sort();
    let unique = {
        let mut v = keys.clone();
        v.dedup();
        v
    };
    assert_eq!(keys, unique, "every fw_key must appear exactly once");
    assert_eq!(keys, vec!["POLARITY", "THRS"]);
}

#[test]
fn canonical_filter_handles_empty_input() {
    let picked = picked(&select_canonical_per_channel(&Vec::new()));
    assert!(picked.is_empty());
}

#[test]
fn canonical_filter_handles_globals_only() {
    let regs = vec![reg_at(0x80008, "ENABLE_ACQ"), reg_at(0x80007, "AMAX_gol")];
    assert!(select_canonical_per_channel(&regs).is_empty());
}

#[test]
fn canonical_filter_prefer_per_channel_picks_ch0() {
    let regs = thirteen_may_shape(0x200, 0x8000, 0x200, 3);
    let p = picked(&select_canonical_per_channel_with(&regs, true));
    assert_eq!(
        p,
        vec![
            (0x8000, "page_amax_energy_4_0/POLARITY".to_string()),
            (0x8003, "page_amax_energy_4_0/THRS".to_string()),
        ]
    );
}

#[test]
fn derive_layout_default_prefers_ch0_when_present() {
    let regs = thirteen_may_shape(0x200, 0x8000, 0x200, 32);
    let l = derive_layout(&regs, None);
    assert_eq!(l.page_base, 0x8000, "ch0 page is canonical");
    assert_eq!(l.page_stride, 0x200);
    assert_eq!(l.broadcast_base, 0x200);
    assert_eq!(l.channel_pages, 32);
    assert!(l.prefer_per_channel);
}

#[test]
fn fw_key_handles_custom_width_era() {
    assert_eq!(reg("page_amax_energy_1_0_POLARITY").fw_key().as_deref(), Some("POLARITY"));
    assert_eq!(reg("page_amax_energy_1_3_THRS").fw_key().as_deref(), Some("THRS"));
    assert_eq!(reg("page_amax_energy_1_2_baseline_delay").fw_key().as_deref(), Some("baseline_delay"));
    assert_eq!(reg("page_amax_energy_1_0_select_width").fw_key().as_deref(), Some("select_width"));
}

#[test]
fn channel_index_handles_custom_width_era() {
    assert_eq!(reg("page_amax_energy_1_0_POLARITY").channel_index(), Some(0));
    assert_eq!(reg("page_amax_energy_1_1_POLARITY").channel_index(), Some(1));
    assert_eq!(reg("page_amax_energy_1_3_THRS").channel_index(), Some(3));
    assert_eq!(reg("page_amax_energy_1_2_baseline_delay").channel_index(), Some(2));
}

#[test]
fn derive_layout_custom_width_era() {
    let regs = custom_width_shape(4);
    let l = derive_layout(&regs, None);
    assert!(l.prefer_per_channel, "ch0 page present → per-channel canonical");
    assert_eq!(l.page_base, 0x100000, "ch0 base");
    assert_eq!(l.page_stride, 0x40000, "ch1 - ch0");
    assert_eq!(l.broadcast_base, 0x100000, "no broadcast page → falls back to page_base");
    assert_eq!(l.channel_pages, 4);
}

#[test]
fn derive_layout_channel_pages_tracks_the_fw_channel_count() {
    assert_eq!(derive_layout(&custom_width_shape(2), None).channel_pages, 2);
    assert_eq!(derive_layout(&custom_width_shape(32), None).channel_pages, 32);
}

#[test]
fn derive_layout_channel_pages_reports_the_span_not_the_count() {
    let mut regs = custom_width_shape(2);
    regs.push(reg_at(0x100000 + 4 * 0x40000, "page_amax_energy_1_4_POLARITY"));
    assert_eq!(derive_layout(&regs, None).channel_pages, 5);
}

#[test]
fn canonical_filter_custom_width_keeps_ch0_only() {
    let regs = custom_width_shape(4);
    let canonical = select_canonical_per_channel(&regs);
    let mut keys: Vec<String> = canonical.iter().filter_map(|r| r.fw_key()).collect();
    keys.sort();
    assert_eq!(keys, vec!["POLARITY", "PRETRIGGER_INPUT", "THRS"]);
}

#[test]
fn derive_layout_override_forces_broadcast() {
    let regs = thirteen_may_shape(0x200, 0x8000, 0x200, 4);
    let l = derive_layout(&regs, Some(false));
    assert!(!l.prefer_per_channel);
    assert_eq!(l.page_base, 0x200, "broadcast page is canonical under override");
    assert_eq!(l.page_stride, 0x200);
    assert_eq!(l.broadcast_base, 0x200);
}

#[test]
fn derive_layout_broadcast_only_era() {
    let regs = vec![reg_at(0x100002, "page_amax_energy_POLARITY"), reg_at(0x100004, "page_amax_energy_THRS")];
    let l = derive_layout(&regs, None);
    assert_eq!(l.channel_pages, 0);
    assert!(!l.prefer_per_channel, "no ch0 page → broadcast canonical");
    assert_eq!(l.page_base, 0x100002);
    assert_eq!(l.page_stride, 0, "no per-channel pages → stride 0");
    assert_eq!(l.broadcast_base, 0x100002);
}

#[test]
fn derive_layout_sparse_stride_divides_by_index() {
    let regs = vec![
        reg_at(0x1000, "page_amax_energy_1_0_THRS"),
        reg_at(0x1800, "page_amax_energy_1_4_THRS"),
    ];
    let l = derive_layout(&regs, None);
    assert_eq!(l.page_stride, 0x200);
    assert_eq!(l.channel_pages, 5);
    let regs = vec![
        reg_at(0x1000, "page_amax_energy_1_0_THRS"),
        reg_at(0x1003, "page_amax_energy_1_2_THRS"),
    ];
    assert_eq!(derive_layout(&regs, None).page_stride, 3, "non-uniform spacing keeps the raw step");
}

#[test]
fn safety_guard_passes_on_aligned_layout() {
    let regs = thirteen_may_shape(0x200, 0x8000, 0x200, 32);
    assert!(assert_broadcast_layout_matches(&regs, 0x8000, 0x200).is_ok());
}

#[test]
fn safety_guard_rejects_divergent_offsets() {
    let regs = vec![
        reg_at(0x200, "page_amax_energy/POLARITY"),
        reg_at(0x8000, "page_amax_energy_4_0/POLARITY"),
        reg_at(0x205, "page_amax_energy/THRS"),
        reg_at(0x8003, "page_amax_energy_4_0/THRS"),
    ];
    let err = assert_broadcast_layout_matches(&regs, 0x8000, 0x200);
    assert!(err.is_err());
    assert!(err.unwrap_err().contains("THRS"));
}

#[test]
fn safety_guard_message_is_exact() {
    let regs = vec![reg_at(0x205, "page_amax_energy/THRS"), reg_at(0x8003, "page_amax_energy_4_0/THRS")];
    let err = assert_broadcast_layout_matches(&regs, 0x8000, 0x200).unwrap_err();
    assert_eq!(
        err,
        "broadcast/per-channel layout mismatch for `THRS`: broadcast offset 0x5 (addr 0x205 - base 0x200) != ch0 offset 0x3 (addr 0x8003 - base 0x8000). Writing this FW would corrupt registers \u{2014} codegen aborted."
    );
    let regs = vec![reg_at(0x1FF, "page_amax_energy/THRS"), reg_at(0x8003, "page_amax_energy_4_0/THRS")];
    let err = assert_broadcast_layout_matches(&regs, 0x8000, 0x200).unwrap_err();
    assert!(err.contains("broadcast offset 0xFFFFFFFFFFFFFFFF"));
}

#[test]
fn split_underscore_body_eras() {
    assert_eq!(split_underscore_body("POLARITY"), (None, "POLARITY"));
    assert_eq!(split_underscore_body("15_THRS"), (Some(15), "THRS"));
    assert_eq!(split_underscore_body("1_0_POLARITY"), (Some(0), "POLARITY"));
    assert_eq!(split_underscore_body("7_baseline_delay"), (Some(7), "baseline_delay"));
    assert_eq!(split_underscore_body("_X"), (None, "_X"));
    assert_eq!(split_underscore_body("99999999999_X"), (None, "X"));
}

#[test]
fn board_level_registers() {
    let keys = vec!["ENABLE_ACQ".to_string()];
    assert!(reg("/ENABLE_ACQ").is_board_level(&keys));
    assert!(reg("X_ENABLE_ACQ_Y").is_board_level(&keys));
    assert!(!reg("page_amax_energy_ENABLE_ACQ").is_board_level(&keys));
    assert!(!reg("OTHER").is_board_level(&keys));
}

#[test]
fn parse_u32_auto_decimal_and_hex() {
    assert_eq!(parse_u32_auto("0x8000"), Ok(0x8000));
    assert_eq!(parse_u32_auto("0X1F"), Ok(31));
    assert_eq!(parse_u32_auto(" 512 "), Ok(512));
    assert_eq!(parse_u32_auto("+7"), Ok(7));
    assert_eq!(parse_u32_auto(""), Err("cannot parse integer from empty string".to_string()));
    assert_eq!(parse_u32_auto("0x"), Err("cannot parse integer from empty string".to_string()));
    assert_eq!(parse_u32_auto("12a"), Err("invalid digit found in string".to_string()));
    assert_eq!(parse_u32_auto("4294967296"), Err("number too large to fit in target type".to_string()));
    assert_eq!(parse_u32_auto("4294967295"), Ok(u32::MAX));
    assert_eq!(parse_u32_auto("-1"), Err("invalid digit found in string".to_string()));
}

#[test]
fn parse_u32_auto_matches_std() {
    for s in ["0", "10", "+", "-", "00012", "1_0", " 0x10", "0xfFfF", "0x100000000", "abc", "\t42\n"] {
        let t = s.trim();
        let expected = match t.strip_prefix("0x").or_else(|| t.strip_prefix("0X")) {
            Some(hex) => u32::from_str_radix(hex, 16).map_err(|e| e.to_string()),
            None => t.parse::<u32>().map_err(|e| e.to_string()),
        };
        assert_eq!(parse_u32_auto(s), expected, "input {s:?}");
    }
}

#[test]
fn category_helpers() {
    assert_eq!(category_rank("input"), 0);
    assert_eq!(category_rank("amax"), 3);
    assert_eq!(category_rank("debug"), 6);
    assert_eq!(category_rank("housekeeping"), 1000);
    assert_eq!(category_label("amax"), "AMax");
    assert_eq!(category_label("housekeeping"), "Housekeeping");
    assert_eq!(category_label(""), "");
    assert_eq!(snake_case("AMAX_window"), "amax_window");
}

#[test]
fn header_names_sources() {
    assert_eq!(
        header_rust("a.json", "b.json"),
        "//! AUTO-GENERATED by `cargo run --bin amax_codegen`. Do not edit by hand.\n//!\n//! Sources:\n//! - a.json\n//! - b.json\n"
    );
}
