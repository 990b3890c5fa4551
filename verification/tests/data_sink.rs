use delila_rs::data_sink::{DataSinkCommandExt, DataSinkStats, AtomicStats, SourceStats};
use delila_rs::merger::SeqEvent;
use delila_rs::state::CommandHandlerExt;

#[test]
fn source_stats_tracking() {
    let mut stats = SourceStats::default();
    stats.update(0, 2);
    assert_eq!(stats.total_batches, 1);
    assert_eq!(stats.total_events, 2);
    assert_eq!(stats.last_sequence, Some(0));
}

#[test]
fn gap_detection() {
    let mut stats = DataSinkStats::default();
    stats.update(0, 0, 0);
    stats.update(0, 5, 0);
    assert_eq!(stats.total_gaps(), 1);
    assert_eq!(stats.total_missing(), 4);
}

#[test]
fn multi_source_tracking() {
    let mut stats = DataSinkStats::default();
    stats.update(0, 0, 0);
    stats.update(0, 1, 0);
    stats.update(0, 5, 0);
    stats.update(1, 0, 0);
    stats.update(1, 10, 0);
    assert_eq!(stats.sources.len(), 2);
    assert_eq!(stats.total_gaps(), 2);
    assert_eq!(stats.total_missing(), 12);
}

#[test]
fn sink_counts_events_and_reports_interval() {
    let mut stats = DataSinkStats::default();
    assert_eq!(stats.update(3, 7, 10), SeqEvent::InOrder);
    assert_eq!(stats.update(3, 8, 5), SeqEvent::InOrder);
    assert_eq!(stats.total_events, 15);
    assert_eq!(stats.total_batches, 2);
    assert_eq!(stats.take_interval_events(), 15);
    assert_eq!(stats.take_interval_events(), 0);
    stats.record_eos();
    assert_eq!(stats.eos_received, 1);
    assert!(stats.can_update(3, 9, 1));
}

#[test]
fn sink_status_details() {
    let mut a = AtomicStats::new();
    a.record_received();
    a.record_eos();
    let ext = DataSinkCommandExt { atomic_stats: &a };
    assert_eq!(ext.component_name(), "DataSink");
    assert_eq!(ext.status_details().unwrap(), "Received: 1, Processed: 0, Dropped: 0, EOS: 1");
}
