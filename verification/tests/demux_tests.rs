use copter_link::codec::WireFormat;
use copter_link::demux::StreamDemuxer;
use copter_link::frame::split_frame;
use copter_link::message::Message;
use copter_link::slip::encode_slip_frame;

fn feed(d: &mut StreamDemuxer, bytes: &[u8]) -> Vec<Vec<u8>> {
    d.push_chunk(bytes)
}

#[test]
fn single_frame_is_emitted_once() {
    // marker 0x7E, length 3, payload 01 02 03: exactly one frame.
    let mut d = StreamDemuxer::new(WireFormat::LengthPrefixed);
    let frames = feed(&mut d, &[0x7E, 0x03, 0x01, 0x02, 0x03]);
    assert_eq!(frames, vec![vec![0x7E, 0x03, 0x01, 0x02, 0x03]]);
    let payload = split_frame(&frames[0]);
    assert_eq!(payload, vec![0x01, 0x02, 0x03]);
}

#[test]
fn out_of_range_length_drops_candidate_then_resyncs() {
    // length byte 31 is out of range: no frame from the first candidate,
    // one frame with payload [0xAA] from the second.
    let mut d = StreamDemuxer::new(WireFormat::LengthPrefixed);
    let frames = feed(&mut d, &[0x7E, 0x1F, 0x00, 0x00]);
    assert!(frames.is_empty());
    let frames = feed(&mut d, &[0x7E, 0x01, 0xAA]);
    assert_eq!(frames, vec![vec![0x7E, 0x01, 0xAA]]);
}

#[test]
fn noise_around_frame_is_dropped() {
    // arbitrary marker-free noise on both sides: exactly the one frame.
    let mut d = StreamDemuxer::new(WireFormat::LengthPrefixed);
    let frames = feed(&mut d, &[0x00, 0x12, 0x55, 0x7E, 0x01, 0x02, 0x10, 0x33]);
    assert_eq!(frames, vec![vec![0x7E, 0x01, 0x02]]);
}

#[test]
fn fragmentation_does_not_change_the_frames() {
    // two frames in one stream, split at every possible boundary: always
    // the same two frames in the same order as feeding it whole.
    let stream: Vec<u8> = vec![0x7E, 0x02, 0xAB, 0xCD, 0x01, 0x7E, 0x01, 0xEE];
    let mut whole = StreamDemuxer::new(WireFormat::LengthPrefixed);
    let expected = feed(&mut whole, &stream);
    assert_eq!(expected.len(), 2);
    assert_eq!(expected[0], vec![0x7E, 0x02, 0xAB, 0xCD]);
    assert_eq!(expected[1], vec![0x7E, 0x01, 0xEE]);
    for cut in 1..stream.len() {
        let mut d = StreamDemuxer::new(WireFormat::LengthPrefixed);
        let mut frames = feed(&mut d, &stream[..cut]);
        frames.extend(feed(&mut d, &stream[cut..]));
        assert_eq!(frames, expected, "split at {cut}");
    }
}

#[test]
fn one_byte_at_a_time_works() {
    let stream: Vec<u8> = vec![0x11, 0x7E, 0x02, 0x7E, 0x7E, 0x99];
    let mut d = StreamDemuxer::new(WireFormat::LengthPrefixed);
    let mut frames: Vec<Vec<u8>> = Vec::new();
    for &b in &stream {
        frames.extend(feed(&mut d, &[b]));
    }
    // the marker byte inside the payload does not restart the frame.
    assert_eq!(frames, vec![vec![0x7E, 0x02, 0x7E, 0x7E]]);
}

#[test]
fn zero_length_frame_is_complete_at_two_bytes() {
    let mut d = StreamDemuxer::new(WireFormat::LengthPrefixed);
    let frames = feed(&mut d, &[0x7E, 0x00, 0x00]);
    assert_eq!(frames, vec![vec![0x7E, 0x00]]);
    // the trailing 0x00 is noise in idle and must not re-emit anything.
    let frames = feed(&mut d, &[0x00, 0x00]);
    assert!(frames.is_empty());
}

#[test]
fn stalled_candidate_completes_when_its_bytes_arrive() {
    // a candidate waiting for its promised payload emits nothing yet,
    // and completes once the missing bytes arrive in a later chunk.
    let mut d = StreamDemuxer::new(WireFormat::LengthPrefixed);
    let frames = feed(&mut d, &[0x7E, 0x05, 0x01, 0x02]);
    assert!(frames.is_empty());
    let frames = feed(&mut d, &[0x03, 0x04, 0x05, 0x7E, 0x01, 0xBB]);
    assert_eq!(
        frames,
        vec![vec![0x7E, 0x05, 0x01, 0x02, 0x03, 0x04, 0x05], vec![0x7E, 0x01, 0xBB]]
    );
}

#[test]
fn slip_frame_split_mid_escape() {
    // a payload holding both reserved bytes, split in the middle of an
    // escape pair: still exactly one body, unharmed.
    let m = Message::SetPoint { front_left: 0xC0, front_right: 0xDB, rear_left: 1, rear_right: 2 };
    let payload = copter_link::message::encode_payload(&m);
    let wire = encode_slip_frame(&payload);
    let mut d = StreamDemuxer::new(WireFormat::EscapedDelimiter);
    let mut frames = feed(&mut d, &wire[..3]);
    frames.extend(feed(&mut d, &wire[3..]));
    assert_eq!(frames.len(), 1);
    assert_eq!(copter_link::codec::decode_frame(WireFormat::EscapedDelimiter, &frames[0]), Ok(m));
}

#[test]
fn slip_leading_delimiters_are_dropped() {
    let mut d = StreamDemuxer::new(WireFormat::EscapedDelimiter);
    let frames = feed(&mut d, &[0xC0, 0xC0, 0x02, 0xC0]);
    assert_eq!(frames, vec![vec![0x02]]);
}

#[test]
fn slip_overlong_body_is_dropped() {
    let mut d = StreamDemuxer::new(WireFormat::EscapedDelimiter);
    // 61 body bytes without a terminator exceed the cap: candidate dropped.
    let frames = feed(&mut d, &[0x01; 61]);
    assert!(frames.is_empty());
    let frames = feed(&mut d, &[0xC0]);
    assert!(frames.is_empty());
    // framing recovers: the next frame comes through.
    let frames = feed(&mut d, &[0x05, 0x06, 0xC0]);
    assert_eq!(frames, vec![vec![0x05, 0x06]]);
}

#[test]
fn slip_body_at_cap_is_still_emitted() {
    let mut d = StreamDemuxer::new(WireFormat::EscapedDelimiter);
    let mut wire = vec![0x01u8; 60];
    wire.push(0xC0);
    let frames = feed(&mut d, &wire);
    assert_eq!(frames, vec![vec![0x01; 60]]);
}
