use delila_rs::merger::{MergerError, 
    frame_bytes, frame_is_eos, AtomicStats, BacklogReport, MergerCommandExt, MergerConfig,
    MergerExtState, MergerStats, ReceiveOutcome, SendDecision, SeqEvent, SourceStats,
};
use delila_rs::header::MessageHeader;
use delila_rs::state::CommandHandlerExt;

fn eos_frame(source_id: u8) -> Vec<u8> {
    let mut v = vec![0x81, 0xab];
    v.extend_from_slice(b"EndOfStream");
    v.extend_from_slice(&[0x92, source_id, 42]);
    v
}

fn heartbeat_frame(source_id: u8) -> Vec<u8> {
    let mut v = vec![0x81, 0xa9];
    v.extend_from_slice(b"Heartbeat");
    v.extend_from_slice(&[0x93, source_id, 0x00, 0x07]);
    v
}

fn data_frame(source_id: u8, seq: u8) -> Vec<u8> {
    let mut v = vec![0x81, 0xa4];
    v.extend_from_slice(b"Data");
    v.extend_from_slice(&[0x94, source_id, seq, 0x00, 0x90]);
    v
}

#[test]
fn source_stats_update() {
    let mut stats = SourceStats::default();

    assert_eq!(stats.update(0), SeqEvent::InOrder);
    assert_eq!(stats.total_batches, 1);

    assert_eq!(stats.update(1), SeqEvent::InOrder);
    assert_eq!(stats.total_batches, 2);

    assert_eq!(stats.update(200), SeqEvent::Gap(198));
    assert_eq!(stats.total_batches, 3);
    assert_eq!(stats.gaps_detected, 1);
    assert_eq!(stats.total_gap_size, 198);

    assert_eq!(stats.update(0), SeqEvent::Restart);
    assert_eq!(stats.restart_count, 1);
}

#[test]
fn source_stats_no_gap_sequential() {
    let mut stats = SourceStats::default();
    for i in 0..100 {
        stats.update(i);
    }
    assert_eq!(stats.total_batches, 100);
    assert_eq!(stats.gaps_detected, 0);
    assert_eq!(stats.total_gap_size, 0);
    assert_eq!(stats.restart_count, 0);
}

#[test]
fn source_stats_multiple_gaps() {
    let mut stats = SourceStats::default();
    stats.update(0);
    stats.update(5);
    stats.update(10);
    stats.update(100);
    assert_eq!(stats.gaps_detected, 3);
    assert_eq!(stats.total_gap_size, 4 + 4 + 89);
}

#[test]
fn atomic_stats_eos() {
    let mut stats = AtomicStats::new();
    stats.record_eos();
    stats.record_eos();
    stats.record_eos();

    let (_, _, _, eos) = stats.snapshot();
    assert_eq!(eos, 3);
}

#[test]
fn merger_stats_total_gaps() {
    let mut stats = MergerStats::default();
    let mut a = SourceStats::default();
    a.gaps_detected = 5;
    a.total_gap_size = 10;
    stats.sources.insert(0, a);
    let mut b = SourceStats::default();
    b.gaps_detected = 3;
    b.total_gap_size = 7;
    stats.sources.insert(1, b);

    assert_eq!(stats.total_gaps(), 8);
    assert_eq!(stats.total_missing(), 17);
}

#[test]
fn custom_config() {
    let config = MergerConfig {
        sub_addresses: vec!["tcp://localhost:7000".to_string()],
        pub_address: "tcp://*:7001".to_string(),
        command_address: "tcp://*:7002".to_string(),
        backlog_soft_limit_bytes: 0,
        backlog_hard_limit_bytes: 0,
    };
    assert_eq!(config.sub_addresses.len(), 1);
}

#[test]
fn eos_frame_exempt_from_stop_tail_discard() {
    assert!(frame_is_eos(&eos_frame(3)));
    assert!(!frame_is_eos(&heartbeat_frame(3)));
    assert!(!frame_is_eos(&data_frame(3, 1)));
    assert!(!frame_is_eos(&[]));
    assert!(!frame_is_eos(&[0xC0]));
}

#[test]
fn source_stats_small_backward_jump_is_not_a_restart() {
    let mut stats = SourceStats::default();
    stats.update(500);
    assert_eq!(stats.update(450), SeqEvent::InOrder);
    assert_eq!(stats.restart_count, 0);
    assert_eq!(stats.update(300), SeqEvent::Restart);
    assert_eq!(stats.last_sequence, Some(300));
}

#[test]
fn merger_ext_state_new() {
    let state = MergerExtState::new(0, 0);
    let stats = state.get_stats();
    assert_eq!(stats.received_batches, 0);
    assert_eq!(stats.sent_batches, 0);
    assert!(stats.sources.is_empty());
}

#[test]
fn receiver_discards_data_while_stopped_but_forwards_eos() {
    let mut st = MergerExtState::new(0, 0);
    let d = data_frame(1, 5);
    let r = st.on_frame(false, Some(&d), 10);
    assert_eq!(r, ReceiveOutcome::Discarded { total: 1, log: true });
    assert_eq!(st.queue.depth_items(), 0);
    let e = eos_frame(1);
    let r = st.on_frame(false, Some(&e), 7);
    assert_eq!(
        r,
        ReceiveOutcome::Forwarded { header: MessageHeader::EndOfStream { source_id: 1 }, event: None }
    );
    assert_eq!(st.atomic_stats.eos_received, 1);
    assert_eq!(st.atomic_stats.dropped_batches, 1);
    assert_eq!(st.queue.depth_bytes(), 7);
}

#[test]
fn receiver_tracks_sequences_while_running() {
    let mut st = MergerExtState::new(0, 0);
    let a = data_frame(2, 0);
    let b = data_frame(2, 5);
    assert_eq!(
        st.on_frame(true, Some(&a), 100),
        ReceiveOutcome::Forwarded {
            header: MessageHeader::Data { source_id: 2, sequence_number: 0 },
            event: Some(SeqEvent::InOrder)
        }
    );
    assert_eq!(
        st.on_frame(true, Some(&b), 100),
        ReceiveOutcome::Forwarded {
            header: MessageHeader::Data { source_id: 2, sequence_number: 5 },
            event: Some(SeqEvent::Gap(4))
        }
    );
    assert_eq!(st.on_frame(true, Some(&[0xC0]), 1), ReceiveOutcome::Unparseable);
    assert_eq!(st.on_frame(true, None, 0), ReceiveOutcome::Empty);
    let stats = st.get_stats();
    assert_eq!(stats.received_batches, 2);
    assert_eq!(stats.total_gaps(), 1);
    assert_eq!(stats.total_missing(), 4);
    assert_eq!(st.queue.depth_bytes(), 200);
}

#[test]
fn sender_publishes_eos_and_discards_data_while_stopped() {
    let mut st = MergerExtState::new(0, 0);
    let d = data_frame(1, 1);
    let e = eos_frame(1);
    assert_eq!(st.on_channel_item(true, Some(&d), 5), SendDecision::Publish { eos_while_stopped: false });
    assert_eq!(st.on_channel_item(false, Some(&e), 5), SendDecision::Publish { eos_while_stopped: true });
    assert_eq!(st.on_channel_item(false, Some(&d), 5), SendDecision::Discarded { total: 1, log: true });
    assert_eq!(st.queue.depth_items(), 0);
    st.on_publish_result(true);
    st.on_publish_result(false);
    assert_eq!(st.atomic_stats.sent_batches, 1);
    assert_eq!(st.atomic_stats.dropped_batches, 2);
}

#[test]
fn discard_log_every_thousandth() {
    let mut st = MergerExtState::new(0, 0);
    let d = data_frame(1, 1);
    let mut logged = Vec::new();
    for _ in 0..2000 {
        if let ReceiveOutcome::Discarded { total, log } = st.on_frame(false, Some(&d), 1) {
            if log {
                logged.push(total);
            }
        }
    }
    assert_eq!(logged, vec![1, 1000, 2000]);
}

#[test]
fn backlog_tick_reports_transitions_once() {
    let mut st = MergerExtState::new(100, 200);
    assert_eq!(st.backlog_tick(), BacklogReport::Quiet);
    st.queue.on_enqueue(150);
    assert_eq!(st.backlog_tick(), BacklogReport::Raised(1));
    assert_eq!(st.backlog_tick(), BacklogReport::Quiet);
    st.queue.on_enqueue(100);
    assert_eq!(st.backlog_tick(), BacklogReport::Raised(2));
    st.queue.on_dequeue(100);
    assert_eq!(st.backlog_tick(), BacklogReport::Quiet);
    st.queue.on_dequeue(150);
    assert_eq!(st.backlog_tick(), BacklogReport::Cleared);
}

#[test]
fn merger_command_ext_component_name_and_reset() {
    let mut st = MergerExtState::new(0, 0);
    let d = data_frame(1, 1);
    st.on_frame(true, Some(&d), 10);
    {
        let mut ext = MergerCommandExt { ext_state: &mut st };
        assert_eq!(ext.component_name(), "Merger");
        assert!(ext.on_reset().is_ok());
    }
    assert!(st.get_stats().sources.is_empty());
    assert_eq!(st.atomic_stats.received_batches, 0);
    assert_eq!(st.queue.peak_bytes(), 10);
}

#[test]
fn merger_command_ext_status_details() {
    let mut st = MergerExtState::new(0, 0);
    st.atomic_stats.record_received();
    st.atomic_stats.record_sent();
    let ext = MergerCommandExt { ext_state: &mut st };
    let details = ext.status_details();
    assert!(details.is_some());
    let s = details.unwrap();
    assert!(s.contains("Received: 1"));
    assert!(s.contains("Sent: 1"));
    assert_eq!(s, "Received: 1, Sent: 1, Dropped: 0, Gaps: 0, Missing: 0");
}

#[test]
fn frame_bytes_sums_frames() {
    assert_eq!(frame_bytes(&[10, 20, 30]), 60);
    assert_eq!(frame_bytes(&[]), 0);
}

#[test]
fn merger_ext_state_clear() {
    let mut state = MergerExtState::new(0, 0);
    state.source_stats.insert(0, SourceStats::default());
    state.source_stats.insert(1, SourceStats::default());
    assert_eq!(state.get_stats().sources.len(), 2);

    state.clear();
    assert_eq!(state.get_stats().sources.len(), 0);
}

#[test]
fn merger_command_ext_component_name() {
    let mut ext_state = MergerExtState::new(0, 0);
    let ext = MergerCommandExt { ext_state: &mut ext_state };
    assert_eq!(ext.component_name(), "Merger");
}

#[test]
fn merger_command_ext_on_reset() {
    let mut ext_state = MergerExtState::new(0, 0);
    ext_state.source_stats.insert(0, SourceStats::default());
    {
        let mut ext = MergerCommandExt { ext_state: &mut ext_state };
        assert!(ext.on_reset().is_ok());
    }
    assert_eq!(ext_state.get_stats().sources.len(), 0);
}

#[test]
fn merger_error_display() {
    let err = MergerError::NoUpstreamAddresses;
    let msg = err.to_string();
    assert!(msg.contains("No upstream"));

    let err = MergerError::ChannelSend;
    let msg = err.to_string();
    assert!(msg.contains("Channel"));
}

#[test]
fn merger_error_messages_carry_the_cause() {
    assert_eq!(MergerError::Zmq("closed".to_string()).to_string(), "ZMQ error: closed");
    assert_eq!(MergerError::Deserialization("eof".to_string()).to_string(), "Deserialization error: eof");
    assert_eq!(MergerError::NoUpstreamAddresses.to_string(), "No upstream addresses configured");
}
