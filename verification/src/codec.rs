//! The frame codec, per wire format.
//!
//! A connection is configured with exactly one [`WireFormat`] for its
//! lifetime.  Encoding turns a message into the bytes written to the wire;
//! decoding is applied to exactly one complete frame as delimited by the
//! stream demultiplexer and never scans for delimiters itself.

use crate::frame::{frame_bytes, frame_payload, is_well_formed_frame, split_frame, MAX_PAYLOAD_LEN};
use crate::message::{
    decode_payload, decoded_payload, encode_payload, payload_bytes, MalformedFrame, Message,
};
use crate::slip::{encode_slip_frame, escaped_bytes, slip_frame_bytes, unescape, unescaped_bytes};
use vstd::prelude::*;

verus! {

/// The two wire layouts a connection can be configured with.
#[derive(Clone, Copy, Debug, PartialEq, Eq, Structural)]
pub enum WireFormat {
    /// `START_MARKER, LENGTH, PAYLOAD[LENGTH]`.
    LengthPrefixed,
    /// Escaped payload terminated by `END_MARKER`.
    EscapedDelimiter,
}

/// The bytes that carry `m` on the wire, terminator included.
pub open spec fn wire_bytes(fmt: WireFormat, m: Message) -> Seq<u8> {
    match fmt {
        WireFormat::LengthPrefixed => frame_bytes(payload_bytes(m)),
        WireFormat::EscapedDelimiter => slip_frame_bytes(payload_bytes(m)),
    }
}

/// The frame for `m` as the demultiplexer hands it to the decoder: the
/// whole frame for the length-prefixed layout, the escaped body without
/// its terminator for the escaped-delimiter layout.
pub open spec fn demuxed_frame(fmt: WireFormat, m: Message) -> Seq<u8> {
    match fmt {
        WireFormat::LengthPrefixed => frame_bytes(payload_bytes(m)),
        WireFormat::EscapedDelimiter => escaped_bytes(payload_bytes(m)),
    }
}

/// The message encoded by one complete frame, or `MalformedFrame` if the
/// frame's structure or its payload does not decode.
pub open spec fn decoded_frame(fmt: WireFormat, f: Seq<u8>) -> Result<Message, MalformedFrame> {
    match fmt {
        WireFormat::LengthPrefixed => {
            if is_well_formed_frame(f) {
                decoded_payload(frame_payload(f))
            } else {
                Err(MalformedFrame)
            }
        },
        WireFormat::EscapedDelimiter => {
            match unescaped_bytes(f) {
                Ok(p) => decoded_payload(p),
                Err(e) => Err(e),
            }
        },
    }
}

/// Round trip: decoding the frame that encodes a message gives that
/// message back, for every message and either wire format.
pub proof fn lemma_codec_round_trip(fmt: WireFormat, m: Message)
    ensures
        decoded_frame(fmt, demuxed_frame(fmt, m)) == Ok::<Message, MalformedFrame>(m),
{
    crate::message::lemma_payload_fits(m);
    crate::message::lemma_payload_round_trip(m);
    match fmt {
        WireFormat::LengthPrefixed => {
            let f = frame_bytes(payload_bytes(m));
            assert(is_well_formed_frame(f));
            assert(frame_payload(f) =~= payload_bytes(m));
        },
        WireFormat::EscapedDelimiter => {
            crate::slip::lemma_escape_round_trip(payload_bytes(m));
        },
    }
}

/// Encodes a message into the bytes to write to the wire.
pub fn encode_message(fmt: WireFormat, m: &Message) -> (w: Vec<u8>)
    ensures
        w@ == wire_bytes(fmt, *m),
{
    let p = encode_payload(m);
    match fmt {
        WireFormat::LengthPrefixed => crate::frame::encode_frame(&p),
        WireFormat::EscapedDelimiter => encode_slip_frame(&p),
    }
}

/// Decodes one complete frame as emitted by the demultiplexer.
pub fn decode_frame(fmt: WireFormat, f: &Vec<u8>) -> (r: Result<Message, MalformedFrame>)
    ensures
        r == decoded_frame(fmt, f@),
{
    match fmt {
        WireFormat::LengthPrefixed => {
            if f.len() >= 2 && f[0] == crate::frame::START_MARKER && f[1] <= MAX_PAYLOAD_LEN
                && f.len() == (f[1] as usize) + 2 {
                let p = split_frame(f);
                decode_payload(&p)
            } else {
                assert(!is_well_formed_frame(f@));
                Err(MalformedFrame)
            }
        },
        WireFormat::EscapedDelimiter => {
            match unescape(f) {
                Ok(p) => decode_payload(&p),
                Err(e) => Err(e),
            }
        },
    }
}

} // verus!
