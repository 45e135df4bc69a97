use copter_link::codec::{decode_frame, encode_message, WireFormat};
use copter_link::message::{decode_payload, encode_payload, MalformedFrame, Message};
use copter_link::slip::unescape;

fn all_messages() -> Vec<Message> {
    vec![
        Message::Ping(0),
        Message::Ping(0x0102),
        Message::Ping(0xFFFF),
        Message::EnableMotor,
        Message::DisableMotor,
        Message::ToggleLed,
        Message::QueryMotion,
        Message::Motion { roll: -1, pitch: 2, yaw: -30000, armed: true },
        Message::Motion { roll: 0, pitch: 0, yaw: 0, armed: false },
        Message::SetPoint { front_left: 0, front_right: 50, rear_left: 100, rear_right: 255 },
        // setpoints that collide with the reserved escaped-delimiter bytes
        Message::SetPoint { front_left: 0xC0, front_right: 0xDB, rear_left: 0xDC, rear_right: 0xDD },
    ]
}

#[test]
fn payload_round_trip_every_message() {
    for m in all_messages() {
        let p = encode_payload(&m);
        assert_eq!(decode_payload(&p), Ok(m), "payload round trip of {m:?}");
    }
}

#[test]
fn frame_round_trip_every_message_both_formats() {
    for m in all_messages() {
        for fmt in [WireFormat::LengthPrefixed, WireFormat::EscapedDelimiter] {
            let wire = encode_message(fmt, &m);
            // the demultiplexer hands the decoder the frame without the
            // escaped-delimiter terminator; the length-prefixed frame whole.
            let frame: Vec<u8> = match fmt {
                WireFormat::LengthPrefixed => wire.clone(),
                WireFormat::EscapedDelimiter => wire[..wire.len() - 1].to_vec(),
            };
            assert_eq!(decode_frame(fmt, &frame), Ok(m), "frame round trip of {m:?} ({fmt:?})");
        }
    }
}

#[test]
fn ping_wire_bytes_are_exact() {
    let wire = encode_message(WireFormat::LengthPrefixed, &Message::Ping(0x0102));
    assert_eq!(wire, vec![0x7E, 0x03, 0x01, 0x01, 0x02]);
}

#[test]
fn motion_payload_bytes_are_exact() {
    let m = Message::Motion { roll: -1, pitch: 2, yaw: -300, armed: true };
    let p = encode_payload(&m);
    // -1 -> 0xFFFF, 2 -> 0x0002, -300 -> 0xFED4, big-endian.
    assert_eq!(p, vec![0x06, 0xFF, 0xFF, 0x00, 0x02, 0xFE, 0xD4, 0x01]);
}

#[test]
fn slip_wire_bytes_escape_reserved_bytes() {
    let m = Message::SetPoint { front_left: 0xC0, front_right: 0xDB, rear_left: 1, rear_right: 2 };
    let wire = encode_message(WireFormat::EscapedDelimiter, &m);
    assert_eq!(wire, vec![0x07, 0xDB, 0xDC, 0xDB, 0xDD, 0x01, 0x02, 0xC0]);
}

#[test]
fn empty_payload_is_malformed() {
    assert_eq!(decode_payload(&vec![]), Err(MalformedFrame));
}

#[test]
fn unknown_opcode_is_malformed() {
    assert_eq!(decode_payload(&vec![0x09]), Err(MalformedFrame));
    assert_eq!(decode_payload(&vec![0xAA]), Err(MalformedFrame));
}

#[test]
fn wrong_payload_size_is_malformed() {
    assert_eq!(decode_payload(&vec![0x01, 0x00]), Err(MalformedFrame));
    assert_eq!(decode_payload(&vec![0x02, 0x00]), Err(MalformedFrame));
    assert_eq!(decode_payload(&vec![0x06, 0, 0, 0, 0, 0, 0]), Err(MalformedFrame));
    assert_eq!(decode_payload(&vec![0x07, 1, 2, 3]), Err(MalformedFrame));
}

#[test]
fn bad_armed_flag_is_malformed() {
    assert_eq!(decode_payload(&vec![0x06, 0, 0, 0, 0, 0, 0, 2]), Err(MalformedFrame));
}

#[test]
fn bad_length_frame_is_malformed() {
    // structure checked before the payload: wrong marker, bad length byte,
    // size not matching the length byte.
    let fmt = WireFormat::LengthPrefixed;
    assert_eq!(decode_frame(fmt, &vec![0x00, 0x01, 0x02]), Err(MalformedFrame));
    assert_eq!(decode_frame(fmt, &vec![0x7E, 0x1F, 0x02]), Err(MalformedFrame));
    assert_eq!(decode_frame(fmt, &vec![0x7E, 0x02, 0x02]), Err(MalformedFrame));
    assert_eq!(decode_frame(fmt, &vec![0x7E]), Err(MalformedFrame));
}

#[test]
fn bad_escapes_are_malformed() {
    assert_eq!(unescape(&vec![0xDB]), Err(MalformedFrame));
    assert_eq!(unescape(&vec![0xDB, 0x00]), Err(MalformedFrame));
    assert_eq!(unescape(&vec![0x01, 0xC0]), Err(MalformedFrame));
    assert_eq!(unescape(&vec![0x01, 0x02]), Ok(vec![0x01, 0x02]));
    assert_eq!(unescape(&vec![0xDB, 0xDC, 0xDB, 0xDD]), Ok(vec![0xC0, 0xDB]));
}
