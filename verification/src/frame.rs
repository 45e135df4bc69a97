//! The length-prefixed wire layout.
//!
//! One frame is `START_MARKER, LENGTH, PAYLOAD[LENGTH]` with
//! `LENGTH <= MAX_PAYLOAD_LEN`; the total frame size is `LENGTH + 2`.
//! There is no checksum: integrity is inferred from a successful structured
//! decode of the payload only.

use vstd::prelude::*;

verus! {

/// First byte of every length-prefixed frame.
pub const START_MARKER: u8 = 0x7E;

/// Largest legal value of the length byte.
pub const MAX_PAYLOAD_LEN: u8 = 30;

/// The frame that carries `payload`: marker, length byte, then the payload.
pub open spec fn frame_bytes(payload: Seq<u8>) -> Seq<u8> {
    seq![START_MARKER, payload.len() as u8] + payload
}

/// A complete, structurally valid length-prefixed frame: it starts with the
/// marker, its length byte is in range, and its size matches that byte.
pub open spec fn is_well_formed_frame(f: Seq<u8>) -> bool {
    &&& f.len() >= 2
    &&& f[0] == START_MARKER
    &&& f[1] <= MAX_PAYLOAD_LEN
    &&& f.len() == f[1] + 2
}

/// Wraps a payload in a length-prefixed frame.
pub fn encode_frame(payload: &Vec<u8>) -> (f: Vec<u8>)
    requires
        payload@.len() <= MAX_PAYLOAD_LEN,
    ensures
        f@ == frame_bytes(payload@),
        is_well_formed_frame(f@),
{
    let mut f: Vec<u8> = Vec::new();
    f.push(START_MARKER);
    f.push(payload.len() as u8);
    let mut i: usize = 0;
    while i < payload.len()
        invariant
            i <= payload@.len(),
            payload@.len() <= MAX_PAYLOAD_LEN,
            f@ == seq![START_MARKER, payload@.len() as u8] + payload@.take(i as int),
        decreases payload@.len() - i,
    {
        f.push(payload[i]);
        assert(payload@.take(i as int).push(payload@[i as int]) =~= payload@.take(i + 1));
        i = i + 1;
    }
    assert(payload@.take(payload@.len() as int) =~= payload@);
    f
}

/// The payload carried by a well-formed frame: everything after the
/// marker and the length byte.
pub open spec fn frame_payload(f: Seq<u8>) -> Seq<u8> {
    f.skip(2)
}

/// A well-formed frame is exactly the encoding of its own payload.
pub proof fn lemma_frame_payload_inverse(f: Seq<u8>)
    requires
        is_well_formed_frame(f),
    ensures
        frame_bytes(frame_payload(f)) == f,
{
    assert(frame_bytes(frame_payload(f)) =~= f);
}

/// Splits a complete frame back into its payload.
pub fn split_frame(f: &Vec<u8>) -> (p: Vec<u8>)
    requires
        is_well_formed_frame(f@),
    ensures
        p@ == frame_payload(f@),
        f@ == frame_bytes(p@),
{
    let mut p: Vec<u8> = Vec::new();
    let mut i: usize = 2;
    while i < f.len()
        invariant
            2 <= i <= f@.len(),
            is_well_formed_frame(f@),
            p@ == f@.subrange(2, i as int),
        decreases f@.len() - i,
    {
        p.push(f[i]);
        assert(f@.subrange(2, i as int).push(f@[i as int]) =~= f@.subrange(2, i + 1));
        i = i + 1;
    }
    assert(p@ =~= frame_payload(f@));
    proof {
        lemma_frame_payload_inverse(f@);
    }
    p
}

} // verus!
