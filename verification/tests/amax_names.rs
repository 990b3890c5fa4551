use delila_rs::amax::names::{names_not_in, present_channel_pages, sorted_names};
use delila_rs::amax::Register;

fn s(v: &[&str]) -> Vec<String> {
    v.iter().map(|x| x.to_string()).collect()
}

fn reg(address: u32, path: &str) -> Register {
    Register { address, path: Some(path.to_string()), name: None }
}

#[test]
fn sorted_names_orders_and_deduplicates() {
    let names = s(&["THRS", "POLARITY", "AMAX_WINDOW", "THRS", "Baseline", "POL"]);
    assert_eq!(sorted_names(&names), s(&["AMAX_WINDOW", "Baseline", "POL", "POLARITY", "THRS"]));
    assert!(sorted_names(&vec![]).is_empty());
}

#[test]
fn names_not_in_gives_added_and_removed() {
    let new = sorted_names(&s(&["A", "B", "C"]));
    let prev = sorted_names(&s(&["B", "D"]));
    assert_eq!(names_not_in(&new, &prev), s(&["A", "C"]));
    assert_eq!(names_not_in(&prev, &new), s(&["D"]));
    assert!(names_not_in(&new, &new).is_empty());
}

#[test]
fn present_pages_counts_each_channel_once() {
    let regs = vec![
        reg(0x100, "page_amax_energy_0/THRS"),
        reg(0x104, "page_amax_energy_0/POLARITY"),
        reg(0x200, "page_amax_energy_2/THRS"),
        reg(0x300, "page_amax_energy/THRS"),
        reg(0x400, "ENABLE_ACQ"),
        reg(0x500, "page_amax_energy_5_THRS"),
    ];
    assert_eq!(present_channel_pages(&regs), vec![0, 2, 5]);
}
