//! The incremental stream demultiplexer.
//!
//! The demultiplexer consumes an unbounded stream of raw bytes, delivered
//! in chunks of arbitrary size, and emits the complete frames it finds.
//! It tolerates truncated or corrupted input by discarding the candidate
//! frame and re-synchronizing on the next marker; dropped bytes are never
//! reprocessed.
//!
//! For the length-prefixed layout the states are: idle (waiting for the
//! start marker), accumulating (marker seen, length byte pending), and
//! length known (collecting the payload).  A length byte out of range
//! aborts back to idle.  For the escaped-delimiter layout the state is the
//! accumulated body; an `END` byte emits it, and an `ESC` byte makes the
//! following byte a literal so that an escaped `END` never terminates a
//! frame.
//!
//! The per-byte transition functions [`length_step`] and [`slip_step`] are
//! the specification; the executable types are proved to follow them, and
//! the resynchronization, fragmentation-invariance and corrupt-length
//! properties are proved of [`demux_run`], the fold of the transition over
//! a byte sequence.

use crate::codec::WireFormat;
use crate::frame::{is_well_formed_frame, MAX_PAYLOAD_LEN, START_MARKER};
use crate::slip::{escaped_byte, escaped_bytes, slip_frame_bytes, END_MARKER, ESC_END, ESC_ESC, ESC_MARKER};
use vstd::prelude::*;

verus! {

/// Cap on the escaped-delimiter working buffer: the escaped body of a
/// maximum-size payload, every byte escaped.
pub const MAX_SLIP_ACCUM: usize = 60;

/// Model of the length-prefixed demultiplexer.
pub ghost struct LengthState {
    /// A start marker has been seen and not yet resolved.
    pub receiving: bool,
    /// The declared payload length, once the length byte is in.
    pub expected: Option<u8>,
    /// The candidate frame collected so far, marker included.
    pub buf: Seq<u8>,
}

/// Model of the escaped-delimiter demultiplexer.
pub ghost struct SlipState {
    /// The last byte was an unresolved escape marker.
    pub esc: bool,
    /// The escaped frame body collected so far.
    pub buf: Seq<u8>,
}

/// Model of a demultiplexer configured with either wire format.
pub ghost enum DemuxState {
    Length(LengthState),
    Slip(SlipState),
}

/// The idle length-prefixed state: waiting for a start marker.
pub open spec fn length_init() -> LengthState {
    LengthState { receiving: false, expected: None, buf: Seq::empty() }
}

/// The idle escaped-delimiter state: empty body, no pending escape.
pub open spec fn slip_init() -> SlipState {
    SlipState { esc: false, buf: Seq::empty() }
}

/// The idle state for a format.
pub open spec fn demux_init(fmt: WireFormat) -> DemuxState {
    match fmt {
        WireFormat::LengthPrefixed => DemuxState::Length(length_init()),
        WireFormat::EscapedDelimiter => DemuxState::Slip(slip_init()),
    }
}

/// The format a demultiplexer state belongs to.
pub open spec fn demux_format(s: DemuxState) -> WireFormat {
    match s {
        DemuxState::Length(_) => WireFormat::LengthPrefixed,
        DemuxState::Slip(_) => WireFormat::EscapedDelimiter,
    }
}

/// Well-formedness of the length-prefixed state: the buffer is empty when
/// idle, starts with the marker while receiving, agrees with the declared
/// length once that is known, and never reaches the declared total (the
/// frame is emitted the moment it would).
pub open spec fn length_wf(s: LengthState) -> bool {
    &&& (!s.receiving ==> s.buf.len() == 0 && s.expected is None)
    &&& (s.receiving ==> 1 <= s.buf.len() && s.buf[0] == START_MARKER)
    &&& match s.expected {
        Some(l) => {
            &&& s.receiving
            &&& l <= MAX_PAYLOAD_LEN
            &&& 2 <= s.buf.len() < l + 2
            &&& s.buf[1] == l
        },
        None => s.receiving ==> s.buf.len() == 1,
    }
}

/// Well-formedness of the escaped-delimiter state: the buffer is bounded,
/// and a pending escape means the buffer ends in the escape marker.
pub open spec fn slip_wf(s: SlipState) -> bool {
    &&& s.buf.len() <= MAX_SLIP_ACCUM
    &&& (s.esc ==> 1 <= s.buf.len() && s.buf.last() == ESC_MARKER)
}

/// Well-formedness of either state.
pub open spec fn demux_wf(s: DemuxState) -> bool {
    match s {
        DemuxState::Length(ls) => length_wf(ls),
        DemuxState::Slip(ss) => slip_wf(ss),
    }
}

/// One byte of the length-prefixed stream.  In idle, everything before a
/// start marker is dropped.  The second buffered byte is the length: out
/// of range, it aborts the candidate back to idle, buffer discarded.  The
/// frame is emitted when the buffer reaches the declared total.
pub open spec fn length_step(s: LengthState, b: u8) -> (LengthState, Option<Seq<u8>>) {
    if !s.receiving {
        if b == START_MARKER {
            (LengthState { receiving: true, expected: None, buf: seq![b] }, None)
        } else {
            (s, None)
        }
    } else {
        match s.expected {
            None => {
                if b <= MAX_PAYLOAD_LEN {
                    let buf2 = s.buf.push(b);
                    if buf2.len() == b + 2 {
                        (length_init(), Some(buf2))
                    } else {
                        (LengthState { receiving: true, expected: Some(b), buf: buf2 }, None)
                    }
                } else {
                    (length_init(), None)
                }
            },
            Some(l) => {
                let buf2 = s.buf.push(b);
                if buf2.len() == l + 2 {
                    (length_init(), Some(buf2))
                } else {
                    (LengthState { receiving: true, expected: Some(l), buf: buf2 }, None)
                }
            },
        }
    }
}

/// One byte of the escaped-delimiter stream.  After an escape marker the
/// byte is a literal; an unescaped `END` emits the body (an empty body is
/// just a delimiter and emits nothing).  A body that would outgrow the
/// buffer cap without a terminator is discarded, candidate and byte both.
pub open spec fn slip_step(s: SlipState, b: u8) -> (SlipState, Option<Seq<u8>>) {
    if s.esc {
        if s.buf.len() >= MAX_SLIP_ACCUM {
            (slip_init(), None)
        } else {
            (SlipState { esc: false, buf: s.buf.push(b) }, None)
        }
    } else if b == END_MARKER {
        if s.buf.len() == 0 {
            (s, None)
        } else {
            (slip_init(), Some(s.buf))
        }
    } else if s.buf.len() >= MAX_SLIP_ACCUM {
        (slip_init(), None)
    } else if b == ESC_MARKER {
        (SlipState { esc: true, buf: s.buf.push(b) }, None)
    } else {
        (SlipState { esc: false, buf: s.buf.push(b) }, None)
    }
}

/// One byte, either format.
pub open spec fn demux_step(s: DemuxState, b: u8) -> (DemuxState, Option<Seq<u8>>) {
    match s {
        DemuxState::Length(ls) => {
            let r = length_step(ls, b);
            (DemuxState::Length(r.0), r.1)
        },
        DemuxState::Slip(ss) => {
            let r = slip_step(ss, b);
            (DemuxState::Slip(r.0), r.1)
        },
    }
}

/// A possibly emitted frame, as a sequence of zero or one frames.
pub open spec fn emitted(o: Option<Seq<u8>>) -> Seq<Seq<u8>> {
    match o {
        Some(f) => seq![f],
        None => Seq::empty(),
    }
}

/// The fold of [`demux_step`] over a whole byte sequence: the state after
/// consuming it, and every frame emitted on the way, in order.
pub open spec fn demux_run(s: DemuxState, input: Seq<u8>) -> (DemuxState, Seq<Seq<u8>>)
    decreases input.len(),
{
    if input.len() == 0 {
        (s, Seq::empty())
    } else {
        let first = demux_step(s, input[0]);
        let rest = demux_run(first.0, input.drop_first());
        (rest.0, emitted(first.1) + rest.1)
    }
}

/// A step preserves well-formedness, keeps the format, and only emits
/// well-formed frames (for the length-prefixed format).
pub proof fn lemma_step_wf(s: DemuxState, b: u8)
    requires
        demux_wf(s),
    ensures
        demux_wf(demux_step(s, b).0),
        demux_format(demux_step(s, b).0) == demux_format(s),
        demux_format(s) == WireFormat::LengthPrefixed ==> match demux_step(s, b).1 {
            Some(f) => is_well_formed_frame(f),
            None => true,
        },
{
}

/// A run preserves well-formedness and the format, and, for the
/// length-prefixed format, every emitted frame is well-formed.
pub proof fn lemma_run_wf(s: DemuxState, input: Seq<u8>)
    requires
        demux_wf(s),
    ensures
        demux_wf(demux_run(s, input).0),
        demux_format(demux_run(s, input).0) == demux_format(s),
        demux_format(s) == WireFormat::LengthPrefixed ==> forall|i: int|
            0 <= i < demux_run(s, input).1.len() ==> is_well_formed_frame(
                #[trigger] demux_run(s, input).1[i],
            ),
    decreases input.len(),
{
    if input.len() > 0 {
        lemma_step_wf(s, input[0]);
        lemma_run_wf(demux_step(s, input[0]).0, input.drop_first());
    }
}

/// Fragmentation invariance, two chunks: consuming `a + b` is consuming
/// `a`, then `b` from the state `a` left behind, and the frames are the
/// frames of `a` followed by the frames of `b`.
pub proof fn lemma_run_append(s: DemuxState, a: Seq<u8>, b: Seq<u8>)
    ensures
        demux_run(s, a + b).0 == demux_run(demux_run(s, a).0, b).0,
        demux_run(s, a + b).1 == demux_run(s, a).1 + demux_run(demux_run(s, a).0, b).1,
    decreases a.len(),
{
    if a.len() == 0 {
        assert(a + b =~= b);
        assert(demux_run(s, a).1 + demux_run(demux_run(s, a).0, b).1 =~= demux_run(s, b).1);
    } else {
        let first = demux_step(s, a[0]);
        assert((a + b)[0] == a[0]);
        assert((a + b).drop_first() =~= a.drop_first() + b);
        lemma_run_append(first.0, a.drop_first(), b);
        assert(emitted(first.1) + (demux_run(first.0, a.drop_first()).1 + demux_run(
            demux_run(first.0, a.drop_first()).0,
            b,
        ).1) =~= (emitted(first.1) + demux_run(first.0, a.drop_first()).1) + demux_run(
            demux_run(first.0, a.drop_first()).0,
            b,
        ).1);
    }
}

/// The frames of a run, and the state it ends in, chunk by chunk.
pub open spec fn demux_run_chunks(s: DemuxState, chunks: Seq<Seq<u8>>) -> (
    DemuxState,
    Seq<Seq<u8>>,
)
    decreases chunks.len(),
{
    if chunks.len() == 0 {
        (s, Seq::empty())
    } else {
        let first = demux_run(s, chunks[0]);
        let rest = demux_run_chunks(first.0, chunks.drop_first());
        (rest.0, first.1 + rest.1)
    }
}

/// Fragmentation invariance: splitting a stream into any sequence of
/// chunks and feeding them one at a time yields exactly the frames of
/// feeding the whole stream at once, in the same order, and ends in the
/// same state.
pub proof fn lemma_fragmentation_invariance(s: DemuxState, chunks: Seq<Seq<u8>>)
    ensures
        demux_run_chunks(s, chunks).0 == demux_run(s, chunks.flatten()).0,
        demux_run_chunks(s, chunks).1 == demux_run(s, chunks.flatten()).1,
    decreases chunks.len(),
{
    if chunks.len() == 0 {
        assert(chunks.flatten() =~= Seq::<u8>::empty());
    } else {
        let first = demux_run(s, chunks[0]);
        lemma_fragmentation_invariance(first.0, chunks.drop_first());
        assert(chunks.flatten() == chunks[0] + chunks.drop_first().flatten());
        lemma_run_append(s, chunks[0], chunks.drop_first().flatten());
    }
}

/// Bytes that contain no start marker leave the idle length-prefixed
/// demultiplexer idle and emit nothing: pre-frame noise is dropped.
pub proof fn lemma_noise_dropped(noise: Seq<u8>)
    requires
        forall|i: int| 0 <= i < noise.len() ==> noise[i] != START_MARKER,
    ensures
        demux_run(DemuxState::Length(length_init()), noise) == (
            DemuxState::Length(length_init()),
            Seq::<Seq<u8>>::empty(),
        ),
    decreases noise.len(),
{
    if noise.len() > 0 {
        lemma_noise_dropped(noise.drop_first());
        assert(emitted(None) + Seq::<Seq<u8>>::empty() =~= Seq::<Seq<u8>>::empty());
    }
}

/// Helper: from the length-known state, the remaining payload bytes of a
/// well-formed frame complete exactly that frame and return to idle.
proof fn lemma_length_fill(s: LengthState, f: Seq<u8>, k: int)
    requires
        is_well_formed_frame(f),
        2 <= k < f.len(),
        s.receiving,
        s.expected == Some(f[1]),
        s.buf == f.take(k),
    ensures
        demux_run(DemuxState::Length(s), f.skip(k)) == (
            DemuxState::Length(length_init()),
            seq![f],
        ),
    decreases f.len() - k,
{
    reveal_with_fuel(demux_run, 3);
    let rest = f.skip(k);
    assert(rest[0] == f[k]);
    let r = length_step(s, f[k]);
    assert(s.buf.push(f[k]) =~= f.take(k + 1));
    if k + 1 == f.len() {
        assert(f.take(k + 1) =~= f);
        assert(r.0 == length_init() && r.1 == Some(f));
        assert(rest.drop_first() =~= Seq::<u8>::empty());
        assert(emitted(Some(f)) + Seq::<Seq<u8>>::empty() =~= seq![f]);
    } else {
        assert(f.take(k + 1).len() < f[1] + 2);
        lemma_length_fill(r.0, f, k + 1);
        assert(rest.drop_first() =~= f.skip(k + 1));
        assert(emitted(None) + seq![f] =~= seq![f]);
    }
}

/// A well-formed frame fed to the idle length-prefixed demultiplexer is
/// emitted exactly once and leaves the demultiplexer idle again.
pub proof fn lemma_frame_recognized(f: Seq<u8>)
    requires
        is_well_formed_frame(f),
    ensures
        demux_run(DemuxState::Length(length_init()), f) == (
            DemuxState::Length(length_init()),
            seq![f],
        ),
{
    reveal_with_fuel(demux_run, 4);
    let s0 = length_init();
    let s1 = length_step(s0, f[0]).0;
    assert(f[0] == START_MARKER);
    assert(s1.buf =~= f.take(1));
    assert(f.drop_first()[0] == f[1]);
    let r2 = length_step(s1, f[1]);
    assert(s1.buf.push(f[1]) =~= f.take(2));
    if f.len() == 2 {
        assert(f.take(2) =~= f);
        assert(r2.0 == length_init() && r2.1 == Some(f));
        assert(f.drop_first().drop_first() =~= Seq::<u8>::empty());
        assert(emitted(None) + (emitted(Some(f)) + Seq::<Seq<u8>>::empty()) =~= seq![f]);
    } else {
        assert(f.take(2).len() < f[1] + 2);
        lemma_length_fill(r2.0, f, 2);
        assert(f.drop_first().drop_first() =~= f.skip(2));
        assert(emitted(None) + (emitted(None) + seq![f]) =~= seq![f]);
    }
}

/// Resynchronization: a stream of exactly one well-formed frame surrounded
/// by marker-free noise yields exactly that frame, and the demultiplexer
/// ends idle.
pub proof fn lemma_resynchronization(before: Seq<u8>, f: Seq<u8>, after: Seq<u8>)
    requires
        forall|i: int| 0 <= i < before.len() ==> before[i] != START_MARKER,
        forall|i: int| 0 <= i < after.len() ==> after[i] != START_MARKER,
        is_well_formed_frame(f),
    ensures
        demux_run(DemuxState::Length(length_init()), before + f + after) == (
            DemuxState::Length(length_init()),
            seq![f],
        ),
{
    let s0 = DemuxState::Length(length_init());
    lemma_noise_dropped(before);
    lemma_frame_recognized(f);
    lemma_noise_dropped(after);
    lemma_run_append(s0, before, f);
    lemma_run_append(s0, before + f, after);
    assert(demux_run(s0, before + f).1 =~= seq![f]);
    assert(demux_run(s0, (before + f) + after).1 =~= seq![f]);
    assert(before + f + after =~= (before + f) + after);
}

/// Corrupt-length recovery: a start marker followed by a length byte out
/// of range emits nothing, and the rest of the stream is processed as if
/// the two bytes had never arrived.
pub proof fn lemma_corrupt_length_recovery(bad: u8, rest: Seq<u8>)
    requires
        bad > MAX_PAYLOAD_LEN,
    ensures
        demux_run(DemuxState::Length(length_init()), seq![START_MARKER, bad] + rest)
            == demux_run(DemuxState::Length(length_init()), rest),
{
    reveal_with_fuel(demux_run, 4);
    let s0 = DemuxState::Length(length_init());
    let two = seq![START_MARKER, bad];
    lemma_run_append(s0, two, rest);
    assert(two.drop_first() =~= seq![bad]);
    assert(seq![bad].drop_first() =~= Seq::<u8>::empty());
    assert(demux_run(s0, two) == (s0, emitted(None) + (emitted(None) + Seq::<Seq<u8>>::empty())));
    assert(emitted(None) + (emitted(None) + Seq::<Seq<u8>>::empty()) =~= Seq::<Seq<u8>>::empty());
    assert(Seq::<Seq<u8>>::empty() + demux_run(s0, rest).1 =~= demux_run(s0, rest).1);
}

/// Helper: an escaped payload body runs through the demultiplexer without
/// emitting anything; it is accumulated verbatim, ready for a terminator.
proof fn lemma_slip_feed_escaped(s: SlipState, p: Seq<u8>)
    requires
        !s.esc,
        s.buf.len() + escaped_bytes(p).len() <= MAX_SLIP_ACCUM,
    ensures
        demux_run(DemuxState::Slip(s), escaped_bytes(p)) == (
            DemuxState::Slip(SlipState { esc: false, buf: s.buf + escaped_bytes(p) }),
            Seq::<Seq<u8>>::empty(),
        ),
    decreases p.len(),
{
    reveal_with_fuel(demux_run, 3);
    let e = escaped_bytes(p);
    if p.len() == 0 {
        assert(e =~= Seq::<u8>::empty());
        assert(s.buf + e =~= s.buf);
        assert(s == SlipState { esc: false, buf: s.buf });
    } else {
        let rest = p.drop_first();
        assert(e == escaped_byte(p[0]) + escaped_bytes(rest));
        if p[0] == END_MARKER || p[0] == ESC_MARKER {
            let lit: u8 = if p[0] == END_MARKER {
                ESC_END
            } else {
                ESC_ESC
            };
            assert(e[0] == ESC_MARKER && e[1] == lit && e.len() >= 2);
            let s1 = SlipState { esc: true, buf: s.buf.push(ESC_MARKER) };
            assert(slip_step(s, ESC_MARKER) == (s1, Option::<Seq<u8>>::None));
            let s2 = SlipState { esc: false, buf: s1.buf.push(lit) };
            assert(slip_step(s1, lit) == (s2, Option::<Seq<u8>>::None));
            assert(e.drop_first()[0] == lit);
            assert(e.drop_first().drop_first() =~= escaped_bytes(rest));
            lemma_slip_feed_escaped(s2, rest);
            assert(s2.buf + escaped_bytes(rest) =~= s.buf + e);
            assert(emitted(None) + (emitted(None) + Seq::<Seq<u8>>::empty())
                =~= Seq::<Seq<u8>>::empty());
        } else {
            assert(e[0] == p[0] && e.len() >= 1);
            let s1 = SlipState { esc: false, buf: s.buf.push(p[0]) };
            assert(slip_step(s, p[0]) == (s1, Option::<Seq<u8>>::None));
            assert(e.drop_first() =~= escaped_bytes(rest));
            lemma_slip_feed_escaped(s1, rest);
            assert(s1.buf + escaped_bytes(rest) =~= s.buf + e);
            assert(emitted(None) + Seq::<Seq<u8>>::empty() =~= Seq::<Seq<u8>>::empty());
        }
    }
}

/// An escaped-delimiter frame fed to the idle demultiplexer is emitted as
/// exactly its body (terminator stripped), and the demultiplexer is idle
/// again afterwards.
pub proof fn lemma_slip_frame_recognized(p: Seq<u8>)
    requires
        1 <= escaped_bytes(p).len() <= MAX_SLIP_ACCUM,
    ensures
        demux_run(DemuxState::Slip(slip_init()), slip_frame_bytes(p)) == (
            DemuxState::Slip(slip_init()),
            seq![escaped_bytes(p)],
        ),
{
    reveal_with_fuel(demux_run, 3);
    let e = escaped_bytes(p);
    let s0 = slip_init();
    lemma_slip_feed_escaped(s0, p);
    let s1 = SlipState { esc: false, buf: s0.buf + e };
    assert(s1.buf =~= e);
    assert(slip_step(s1, END_MARKER) == (slip_init(), Option::<Seq<u8>>::Some(s1.buf)));
    assert(slip_frame_bytes(p) =~= e + seq![END_MARKER]);
    lemma_run_append(DemuxState::Slip(s0), e, seq![END_MARKER]);
    assert(seq![END_MARKER].drop_first() =~= Seq::<u8>::empty());
    assert(demux_run(DemuxState::Slip(s1), seq![END_MARKER]) == (
        DemuxState::Slip(slip_init()),
        emitted(Some(s1.buf)) + Seq::<Seq<u8>>::empty(),
    ));
    assert(emitted(Some(s1.buf)) + Seq::<Seq<u8>>::empty() =~= seq![e]);
    assert(Seq::<Seq<u8>>::empty() + seq![e] =~= seq![e]);
}

/// The working state of a length-prefixed connection's demultiplexer.
pub struct LengthDemuxer {
    receiving: bool,
    expected: Option<u8>,
    buf: Vec<u8>,
}

impl View for LengthDemuxer {
    type V = LengthState;

    closed spec fn view(&self) -> LengthState {
        LengthState { receiving: self.receiving, expected: self.expected, buf: self.buf@ }
    }
}

impl LengthDemuxer {
    /// A fresh demultiplexer, idle, waiting for a start marker.
    pub fn new() -> (d: Self)
        ensures
            d@ == length_init(),
            length_wf(d@),
    {
        let d = LengthDemuxer { receiving: false, expected: None, buf: Vec::new() };
        assert(d@.buf =~= length_init().buf);
        d
    }

    /// Consumes one byte; returns the completed frame, if this byte
    /// completed one.
    pub fn push_byte(&mut self, b: u8) -> (frame: Option<Vec<u8>>)
        requires
            length_wf(old(self)@),
        ensures
            length_wf(final(self)@),
            final(self)@ == length_step(old(self)@, b).0,
            match frame {
                Some(f) => length_step(old(self)@, b).1 == Some(f@),
                None => length_step(old(self)@, b).1 is None,
            },
    {
        if !self.receiving {
            if b == START_MARKER {
                self.receiving = true;
                self.expected = None;
                self.buf.push(b);
                assert(self@.buf =~= seq![b]);
            }
            None
        } else {
            match self.expected {
                None => {
                    if b <= MAX_PAYLOAD_LEN {
                        self.buf.push(b);
                        if self.buf.len() == (b as usize) + 2 {
                            let mut f: Vec<u8> = Vec::new();
                            core::mem::swap(&mut f, &mut self.buf);
                            self.receiving = false;
                            self.expected = None;
                            assert(self@.buf =~= length_init().buf);
                            Some(f)
                        } else {
                            self.expected = Some(b);
                            None
                        }
                    } else {
                        self.receiving = false;
                        self.expected = None;
                        self.buf.clear();
                        assert(self@.buf =~= length_init().buf);
                        None
                    }
                },
                Some(l) => {
                    self.buf.push(b);
                    if self.buf.len() == (l as usize) + 2 {
                        let mut f: Vec<u8> = Vec::new();
                        core::mem::swap(&mut f, &mut self.buf);
                        self.receiving = false;
                        self.expected = None;
                        assert(self@.buf =~= length_init().buf);
                        Some(f)
                    } else {
                        None
                    }
                },
            }
        }
    }
}

/// The working state of an escaped-delimiter connection's demultiplexer.
pub struct SlipDemuxer {
    esc: bool,
    buf: Vec<u8>,
}

impl View for SlipDemuxer {
    type V = SlipState;

    closed spec fn view(&self) -> SlipState {
        SlipState { esc: self.esc, buf: self.buf@ }
    }
}

impl SlipDemuxer {
    /// A fresh demultiplexer with an empty body buffer.
    pub fn new() -> (d: Self)
        ensures
            d@ == slip_init(),
            slip_wf(d@),
    {
        let d = SlipDemuxer { esc: false, buf: Vec::new() };
        assert(d@.buf =~= slip_init().buf);
        d
    }

    /// Consumes one byte; returns the completed frame body, if this byte
    /// terminated one.
    pub fn push_byte(&mut self, b: u8) -> (frame: Option<Vec<u8>>)
        requires
            slip_wf(old(self)@),
        ensures
            slip_wf(final(self)@),
            final(self)@ == slip_step(old(self)@, b).0,
            match frame {
                Some(f) => slip_step(old(self)@, b).1 == Some(f@),
                None => slip_step(old(self)@, b).1 is None,
            },
    {
        if self.esc {
            if self.buf.len() >= MAX_SLIP_ACCUM {
                self.esc = false;
                self.buf.clear();
                assert(self@.buf =~= slip_init().buf);
            } else {
                self.esc = false;
                self.buf.push(b);
            }
            None
        } else if b == END_MARKER {
            if self.buf.len() == 0 {
                None
            } else {
                let mut f: Vec<u8> = Vec::new();
                core::mem::swap(&mut f, &mut self.buf);
                self.esc = false;
                assert(self@.buf =~= slip_init().buf);
                Some(f)
            }
        } else if self.buf.len() >= MAX_SLIP_ACCUM {
            self.esc = false;
            self.buf.clear();
            assert(self@.buf =~= slip_init().buf);
            None
        } else if b == ESC_MARKER {
            self.esc = true;
            self.buf.push(b);
            None
        } else {
            self.buf.push(b);
            None
        }
    }
}

/// A demultiplexer configured with one of the two wire formats for the
/// lifetime of its connection.
pub enum StreamDemuxer {
    Length(LengthDemuxer),
    Slip(SlipDemuxer),
}

impl View for StreamDemuxer {
    type V = DemuxState;

    open spec fn view(&self) -> DemuxState {
        match self {
            StreamDemuxer::Length(d) => DemuxState::Length(d@),
            StreamDemuxer::Slip(d) => DemuxState::Slip(d@),
        }
    }
}

impl StreamDemuxer {
    /// A fresh, idle demultiplexer for the given wire format.
    pub fn new(fmt: WireFormat) -> (d: Self)
        ensures
            d@ == demux_init(fmt),
            demux_wf(d@),
    {
        match fmt {
            WireFormat::LengthPrefixed => StreamDemuxer::Length(LengthDemuxer::new()),
            WireFormat::EscapedDelimiter => StreamDemuxer::Slip(SlipDemuxer::new()),
        }
    }

    /// The wire format this demultiplexer was configured with.
    pub fn format(&self) -> (fmt: WireFormat)
        ensures
            fmt == demux_format(self@),
    {
        match self {
            StreamDemuxer::Length(_) => WireFormat::LengthPrefixed,
            StreamDemuxer::Slip(_) => WireFormat::EscapedDelimiter,
        }
    }

    /// Consumes one byte; returns the completed frame, if any.
    pub fn push_byte(&mut self, b: u8) -> (frame: Option<Vec<u8>>)
        requires
            demux_wf(old(self)@),
        ensures
            demux_wf(final(self)@),
            final(self)@ == demux_step(old(self)@, b).0,
            match frame {
                Some(f) => demux_step(old(self)@, b).1 == Some(f@),
                None => demux_step(old(self)@, b).1 is None,
            },
    {
        match self {
            StreamDemuxer::Length(d) => d.push_byte(b),
            StreamDemuxer::Slip(d) => d.push_byte(b),
        }
    }

    /// Consumes one chunk of raw bytes, of arbitrary size, and returns
    /// every frame completed inside it, in arrival order.
    pub fn push_chunk(&mut self, chunk: &[u8]) -> (frames: Vec<Vec<u8>>)
        requires
            demux_wf(old(self)@),
        ensures
            demux_wf(final(self)@),
            final(self)@ == demux_run(old(self)@, chunk@).0,
            frames@.map_values(|f: Vec<u8>| f@) == demux_run(old(self)@, chunk@).1,
    {
        let mut frames: Vec<Vec<u8>> = Vec::new();
        let mut i: usize = 0;
        assert(chunk@.take(0) =~= Seq::<u8>::empty());
        assert(frames@.map_values(|f: Vec<u8>| f@) =~= Seq::<Seq<u8>>::empty());
        while i < chunk.len()
            invariant
                i <= chunk@.len(),
                demux_wf(self@),
                self@ == demux_run(old(self)@, chunk@.take(i as int)).0,
                frames@.map_values(|f: Vec<u8>| f@) == demux_run(
                    old(self)@,
                    chunk@.take(i as int),
                ).1,
            decreases chunk@.len() - i,
        {
            let ghost prefix = chunk@.take(i as int);
            let ghost frames_pre = frames@;
            let ghost s_pre = self@;
            let b = chunk[i];
            let emitted_frame = self.push_byte(b);
            proof {
                reveal_with_fuel(demux_run, 2);
                lemma_run_append(old(self)@, prefix, seq![b]);
                assert(prefix.push(b) =~= chunk@.take(i + 1));
                assert(prefix + seq![b] =~= chunk@.take(i + 1));
                assert(seq![b].drop_first() =~= Seq::<u8>::empty());
                assert(seq![b][0] == b);
                assert(s_pre == demux_run(old(self)@, prefix).0);
                assert(demux_run(s_pre, seq![b]) == (
                    demux_step(s_pre, b).0,
                    emitted(demux_step(s_pre, b).1) + Seq::<Seq<u8>>::empty(),
                ));
                assert(emitted(demux_step(s_pre, b).1) + Seq::<Seq<u8>>::empty() =~= emitted(
                    demux_step(s_pre, b).1,
                ));
            }
            match emitted_frame {
                Some(f) => {
                    proof {
                        assert(emitted(demux_step(s_pre, b).1) =~= seq![f@]);
                    }
                    frames.push(f);
                    proof {
                        assert(frames@ =~= frames_pre.push(frames@.last()));
                        assert(frames@.map_values(|x: Vec<u8>| x@) =~= frames_pre.map_values(
                            |x: Vec<u8>| x@,
                        ).push(frames@.last()@));
                        assert(demux_run(old(self)@, chunk@.take(i + 1)).1 =~= demux_run(
                            old(self)@,
                            prefix,
                        ).1 + seq![f@]);
                    }
                },
                None => {
                    proof {
                        assert(emitted(demux_step(s_pre, b).1) =~= Seq::<Seq<u8>>::empty());
                        assert(demux_run(old(self)@, chunk@.take(i + 1)).1 =~= demux_run(
                            old(self)@,
                            prefix,
                        ).1);
                    }
                },
            }
            i = i + 1;
        }
        assert(chunk@.take(chunk@.len() as int) =~= chunk@);
        frames
    }
}

} // verus!
