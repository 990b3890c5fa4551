use delila_rs::common::Heartbeat;
use delila_rs::header::MessageHeader;

#[test]
fn parse_data_header() {
    let mut v = vec![0x81, 0xa4];
    v.extend_from_slice(b"Data");
    // [source_id = 300 (uint16), sequence_number = 70000 (uint32), ...]
    v.extend_from_slice(&[0x94, 0xcd, 0x01, 0x2c, 0xce, 0x00, 0x01, 0x11, 0x70, 0x00, 0x90]);
    assert_eq!(
        MessageHeader::parse(&v),
        Some(MessageHeader::Data { source_id: 300, sequence_number: 70000 })
    );
}

#[test]
fn parse_eos_and_heartbeat() {
    let mut v = vec![0x81, 0xab];
    v.extend_from_slice(b"EndOfStream");
    v.extend_from_slice(&[0x92, 0x05, 0x2a]);
    assert_eq!(MessageHeader::parse(&v), Some(MessageHeader::EndOfStream { source_id: 5 }));
    let mut h = vec![0x81, 0xa9];
    h.extend_from_slice(b"Heartbeat");
    h.extend_from_slice(&[0x93, 0x07, 0x00, 0x01]);
    assert_eq!(MessageHeader::parse(&h), Some(MessageHeader::Heartbeat { source_id: 7 }));
}

#[test]
fn parse_rejects_other_bytes() {
    assert_eq!(MessageHeader::parse(&[]), None);
    assert_eq!(MessageHeader::parse(&[0xC0]), None);
    let mut v = vec![0x81, 0xa5];
    v.extend_from_slice(b"Other");
    v.extend_from_slice(&[0x91, 0x01]);
    assert_eq!(MessageHeader::parse(&v), None);
    // truncated Data header
    let mut d = vec![0x81, 0xa4];
    d.extend_from_slice(b"Data");
    d.extend_from_slice(&[0x94, 0x01]);
    assert_eq!(MessageHeader::parse(&d), None);
}

#[test]
fn heartbeat_keeps_ids() {
    let hb = Heartbeat::new(4, 99);
    assert_eq!(hb.source_id, 4);
    assert_eq!(hb.counter, 99);
    assert!(hb.timestamp > 0);
}
