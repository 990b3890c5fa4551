use delila_rs::queue_accounting::{backlog_level, QueueAccounting};

#[test]
fn depth_tracks_enqueue_dequeue() {
    let mut q = QueueAccounting::new();
    q.on_enqueue(100);
    q.on_enqueue(50);
    assert_eq!(q.depth_bytes(), 150);
    assert_eq!(q.depth_items(), 2);
    q.on_dequeue(100);
    assert_eq!(q.depth_bytes(), 50);
    assert_eq!(q.depth_items(), 1);
    q.on_dequeue(50);
    assert_eq!(q.depth_bytes(), 0);
    assert_eq!(q.depth_items(), 0);
}

#[test]
fn depth_never_negative_under_racing_read_order() {
    let mut q = QueueAccounting::new();
    q.on_dequeue(500);
    assert_eq!(q.depth_bytes(), 0);
    assert_eq!(q.depth_items(), 0);
}

#[test]
fn peak_is_monotonic_within_a_window() {
    let mut q = QueueAccounting::new();
    q.on_enqueue(100);
    q.on_enqueue(100);
    q.on_dequeue(100);
    q.on_enqueue(10);
    assert_eq!(q.peak_bytes(), 200);
    assert_eq!(q.depth_bytes(), 110);
}

#[test]
fn reset_peak_rebases_at_current_depth_not_zero() {
    let mut q = QueueAccounting::new();
    q.on_enqueue(300);
    q.on_enqueue(300);
    q.on_dequeue(300);
    assert_eq!(q.peak_bytes(), 600);
    q.reset_peak();
    assert_eq!(q.peak_bytes(), 300, "peak re-bases at live depth");
    q.on_enqueue(50);
    assert_eq!(q.peak_bytes(), 350);
}

#[test]
fn backlog_level_boundaries() {
    let soft = 100;
    let hard = 200;
    assert_eq!(backlog_level(0, soft, hard), 0);
    assert_eq!(backlog_level(99, soft, hard), 0);
    assert_eq!(backlog_level(100, soft, hard), 1, "at soft = exceeded");
    assert_eq!(backlog_level(199, soft, hard), 1);
    assert_eq!(backlog_level(200, soft, hard), 2, "at hard = exceeded");
    assert_eq!(backlog_level(u64::MAX, soft, hard), 2);
}

#[test]
fn backlog_level_zero_disables_a_threshold() {
    assert_eq!(backlog_level(u64::MAX, 0, 0), 0, "both disabled");
    assert_eq!(backlog_level(500, 0, 200), 2, "soft disabled, hard live");
    assert_eq!(backlog_level(150, 0, 200), 0, "soft disabled below hard");
    assert_eq!(backlog_level(u64::MAX, 100, 0), 1, "hard disabled caps at 1");
}

#[test]
fn backlog_level_hard_below_soft_still_reports_hard() {
    assert_eq!(backlog_level(150, 200, 100), 2);
    assert_eq!(backlog_level(50, 200, 100), 0);
}

#[test]
fn enqueue_then_dequeue_restores_depth() {
    let mut q = QueueAccounting::new();
    q.on_enqueue(40);
    let before = q.depth_bytes();
    q.on_enqueue(25);
    q.on_dequeue(25);
    assert_eq!(q.depth_bytes(), before);
    assert!(q.peak_bytes() >= q.depth_bytes());
}

#[test]
fn backlog_level_is_monotonic_in_depth() {
    let mut last = 0;
    for d in [0u64, 50, 100, 150, 200, 250] {
        let l = backlog_level(d, 100, 200);
        assert!(l >= last);
        last = l;
    }
}

#[test]
fn peak_after_reset_covers_every_later_enqueue_depth() {
    let mut q = QueueAccounting::new();
    q.on_enqueue(400);
    q.on_dequeue(100);
    q.reset_peak();
    assert_eq!(q.peak_bytes(), 300);
    q.on_dequeue(200);
    q.on_enqueue(50);
    assert_eq!(q.depth_bytes(), 150);
    assert_eq!(q.peak_bytes(), 300);
    q.on_enqueue(250);
    assert_eq!(q.depth_bytes(), 400);
    assert_eq!(q.peak_bytes(), 400);
    assert!(q.peak_bytes() >= q.depth_bytes());
}
