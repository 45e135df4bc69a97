use copter_link::codec::{encode_message, WireFormat};
use copter_link::message::Message;
use copter_link::worker::{LinkWorker, OutboundAction, OutboundPoll, WorkerEvent};

#[test]
fn worker_keeps_its_configured_format() {
    let w = LinkWorker::new(WireFormat::LengthPrefixed);
    assert_eq!(w.format(), WireFormat::LengthPrefixed);
    let w = LinkWorker::new(WireFormat::EscapedDelimiter);
    assert_eq!(w.format(), WireFormat::EscapedDelimiter);
}

#[test]
fn outbound_message_is_encoded_for_the_wire() {
    for fmt in [WireFormat::LengthPrefixed, WireFormat::EscapedDelimiter] {
        let w = LinkWorker::new(fmt);
        let m = Message::Ping(7);
        match w.handle_outbound(OutboundPoll::Deliver(m)) {
            OutboundAction::Write(bytes) => assert_eq!(bytes, encode_message(fmt, &m)),
            other => panic!("expected a write, got {other:?}"),
        }
    }
}

#[test]
fn closed_queue_stops_the_worker_cleanly() {
    let w = LinkWorker::new(WireFormat::LengthPrefixed);
    assert!(matches!(w.handle_outbound(OutboundPoll::Closed), OutboundAction::Stop));
}

#[test]
fn outbound_timeout_is_idle() {
    let w = LinkWorker::new(WireFormat::LengthPrefixed);
    assert!(matches!(w.handle_outbound(OutboundPoll::Timeout), OutboundAction::Idle));
}

#[test]
fn write_failure_emits_one_connection_error() {
    let w = LinkWorker::new(WireFormat::LengthPrefixed);
    assert_eq!(w.handle_write_result(true), None);
    assert_eq!(w.handle_write_result(false), Some(WorkerEvent::ConnectionError));
}

#[test]
fn inbound_wire_bytes_become_received_events() {
    for fmt in [WireFormat::LengthPrefixed, WireFormat::EscapedDelimiter] {
        let mut w = LinkWorker::new(fmt);
        let m1 = Message::Motion { roll: 100, pitch: -100, yaw: 42, armed: true };
        let m2 = Message::Ping(3);
        let mut wire = encode_message(fmt, &m1);
        wire.extend(encode_message(fmt, &m2));
        let events = w.handle_inbound(&wire);
        assert_eq!(events, vec![WorkerEvent::Received(m1), WorkerEvent::Received(m2)]);
    }
}

#[test]
fn inbound_bytes_split_anywhere_give_the_same_events() {
    let m = Message::SetPoint { front_left: 9, front_right: 8, rear_left: 7, rear_right: 6 };
    let wire = encode_message(WireFormat::LengthPrefixed, &m);
    for cut in 1..wire.len() {
        let mut w = LinkWorker::new(WireFormat::LengthPrefixed);
        let mut events = w.handle_inbound(&wire[..cut]);
        events.extend(w.handle_inbound(&wire[cut..]));
        assert_eq!(events, vec![WorkerEvent::Received(m)], "split at {cut}");
    }
}

#[test]
fn undecodable_frame_is_a_malformed_event() {
    // a structurally complete frame whose payload has an unknown opcode:
    // one MalformedFrame event, and framing keeps running.
    let mut w = LinkWorker::new(WireFormat::LengthPrefixed);
    let events = w.handle_inbound(&[0x7E, 0x01, 0xAA]);
    assert_eq!(events, vec![WorkerEvent::MalformedFrame]);
    let wire = encode_message(WireFormat::LengthPrefixed, &Message::ToggleLed);
    let events = w.handle_inbound(&wire);
    assert_eq!(events, vec![WorkerEvent::Received(Message::ToggleLed)]);
}

#[test]
fn no_bytes_no_events() {
    let mut w = LinkWorker::new(WireFormat::LengthPrefixed);
    let events = w.handle_inbound(&[]);
    assert!(events.is_empty());
}
