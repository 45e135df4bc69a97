//! The escaped-delimiter wire layout.
//!
//! A frame is the payload with the reserved `END` and `ESC` bytes escaped,
//! terminated by a single `END` byte.  `END` in the payload travels as
//! `ESC, ESC_END`; `ESC` travels as `ESC, ESC_ESC`.  The demultiplexer
//! strips the terminating `END`, so the decoder here works on the escaped
//! body alone.

use crate::message::MalformedFrame;
use vstd::prelude::*;

verus! {

/// Terminates every escaped-delimiter frame.
pub const END_MARKER: u8 = 0xC0;

/// Announces that the next byte is an escaped literal.
pub const ESC_MARKER: u8 = 0xDB;

/// Escaped form of `END_MARKER`.
pub const ESC_END: u8 = 0xDC;

/// Escaped form of `ESC_MARKER`.
pub const ESC_ESC: u8 = 0xDD;

/// The wire bytes that stand for one payload byte.
pub open spec fn escaped_byte(b: u8) -> Seq<u8> {
    if b == END_MARKER {
        seq![ESC_MARKER, ESC_END]
    } else if b == ESC_MARKER {
        seq![ESC_MARKER, ESC_ESC]
    } else {
        seq![b]
    }
}

/// The escaped form of a whole payload.
pub open spec fn escaped_bytes(p: Seq<u8>) -> Seq<u8>
    decreases p.len(),
{
    if p.len() == 0 {
        Seq::empty()
    } else {
        escaped_byte(p[0]) + escaped_bytes(p.drop_first())
    }
}

/// One complete frame on the wire: the escaped payload plus the terminator.
pub open spec fn slip_frame_bytes(p: Seq<u8>) -> Seq<u8> {
    escaped_bytes(p) + seq![END_MARKER]
}

/// Undoes the escaping of a frame body.  Fails on an escape announcing
/// anything but the two literals, on a dangling escape at the end, and on
/// an unescaped `END` (which cannot occur inside a frame body).
pub open spec fn unescaped_bytes(s: Seq<u8>) -> Result<Seq<u8>, MalformedFrame>
    decreases s.len(),
{
    if s.len() == 0 {
        Ok(Seq::empty())
    } else if s[0] == ESC_MARKER {
        if s.len() == 1 {
            Err(MalformedFrame)
        } else if s[1] == ESC_END {
            match unescaped_bytes(s.skip(2)) {
                Ok(t) => Ok(seq![END_MARKER] + t),
                Err(e) => Err(e),
            }
        } else if s[1] == ESC_ESC {
            match unescaped_bytes(s.skip(2)) {
                Ok(t) => Ok(seq![ESC_MARKER] + t),
                Err(e) => Err(e),
            }
        } else {
            Err(MalformedFrame)
        }
    } else if s[0] == END_MARKER {
        Err(MalformedFrame)
    } else {
        match unescaped_bytes(s.drop_first()) {
            Ok(t) => Ok(seq![s[0]] + t),
            Err(e) => Err(e),
        }
    }
}

/// Escaping a payload and then unescaping it gives the payload back.
pub proof fn lemma_escape_round_trip(p: Seq<u8>)
    ensures
        unescaped_bytes(escaped_bytes(p)) == Ok::<Seq<u8>, MalformedFrame>(p),
    decreases p.len(),
{
    if p.len() == 0 {
        assert(escaped_bytes(p) =~= Seq::<u8>::empty());
        assert(p =~= Seq::<u8>::empty());
    } else {
        let rest = p.drop_first();
        lemma_escape_round_trip(rest);
        let e = escaped_bytes(p);
        assert(e == escaped_byte(p[0]) + escaped_bytes(rest));
        if p[0] == END_MARKER {
            assert(e[0] == ESC_MARKER && e[1] == ESC_END && e.len() >= 2);
            assert(e.skip(2) =~= escaped_bytes(rest));
            assert(seq![END_MARKER] + rest =~= p);
        } else if p[0] == ESC_MARKER {
            assert(e[0] == ESC_MARKER && e[1] == ESC_ESC && e.len() >= 2);
            assert(e.skip(2) =~= escaped_bytes(rest));
            assert(seq![ESC_MARKER] + rest =~= p);
        } else {
            assert(e[0] == p[0] && e.len() >= 1);
            assert(e.drop_first() =~= escaped_bytes(rest));
            assert(seq![p[0]] + rest =~= p);
        }
    }
}

/// An escaped body is at least as long as its payload and at most twice
/// as long.
pub proof fn lemma_escaped_len(p: Seq<u8>)
    ensures
        p.len() <= escaped_bytes(p).len() <= 2 * p.len(),
    decreases p.len(),
{
    if p.len() > 0 {
        lemma_escaped_len(p.drop_first());
    }
}

/// Escaping distributes over appending one byte at the end.
pub proof fn lemma_escape_snoc(p: Seq<u8>, b: u8)
    ensures
        escaped_bytes(p.push(b)) == escaped_bytes(p) + escaped_byte(b),
    decreases p.len(),
{
    let q = p.push(b);
    assert(q[0 as int] == if p.len() == 0 { b } else { p[0] });
    assert(escaped_bytes(q) == escaped_byte(q[0]) + escaped_bytes(q.drop_first()));
    if p.len() == 0 {
        assert(q.drop_first() =~= Seq::<u8>::empty());
        assert(escaped_bytes(q.drop_first()) == Seq::<u8>::empty());
        assert(escaped_bytes(p) == Seq::<u8>::empty());
        assert(escaped_byte(b) + Seq::<u8>::empty() =~= escaped_byte(b));
        assert(Seq::<u8>::empty() + escaped_byte(b) =~= escaped_byte(b));
    } else {
        assert(q.drop_first() =~= p.drop_first().push(b));
        lemma_escape_snoc(p.drop_first(), b);
        assert(escaped_bytes(p) == escaped_byte(p[0]) + escaped_bytes(p.drop_first()));
        assert(escaped_byte(p[0]) + (escaped_bytes(p.drop_first()) + escaped_byte(b)) =~= (
        escaped_byte(p[0]) + escaped_bytes(p.drop_first())) + escaped_byte(b));
    }
}

/// Escapes a payload into a frame body (no terminator).
pub fn escape(p: &Vec<u8>) -> (s: Vec<u8>)
    ensures
        s@ == escaped_bytes(p@),
        s@.len() <= 2 * p@.len(),
{
    let mut s: Vec<u8> = Vec::new();
    let mut i: usize = 0;
    while i < p.len()
        invariant
            i <= p@.len(),
            s@ == escaped_bytes(p@.take(i as int)),
            s@.len() <= 2 * i,
        decreases p@.len() - i,
    {
        let b = p[i];
        if b == END_MARKER {
            s.push(ESC_MARKER);
            s.push(ESC_END);
        } else if b == ESC_MARKER {
            s.push(ESC_MARKER);
            s.push(ESC_ESC);
        } else {
            s.push(b);
        }
        proof {
            lemma_escape_snoc(p@.take(i as int), p@[i as int]);
            assert(p@.take(i as int).push(p@[i as int]) =~= p@.take(i + 1));
        }
        i = i + 1;
    }
    assert(p@.take(p@.len() as int) =~= p@);
    s
}

/// Builds one complete frame for a payload: escaped body plus terminator.
pub fn encode_slip_frame(p: &Vec<u8>) -> (f: Vec<u8>)
    ensures
        f@ == slip_frame_bytes(p@),
{
    let mut f = escape(p);
    f.push(END_MARKER);
    assert(f@ =~= slip_frame_bytes(p@));
    f
}

/// Undoes the escaping of a frame body; fails with [`MalformedFrame`]
/// exactly when the body is not a legal escape sequence.
pub fn unescape(s: &Vec<u8>) -> (r: Result<Vec<u8>, MalformedFrame>)
    ensures
        match r {
            Ok(p) => unescaped_bytes(s@) == Ok::<Seq<u8>, MalformedFrame>(p@),
            Err(e) => unescaped_bytes(s@) == Err::<Seq<u8>, MalformedFrame>(e),
        },
{
    let mut out: Vec<u8> = Vec::new();
    let mut i: usize = 0;
    assert(s@.skip(0) =~= s@);
    while i < s.len()
        invariant
            i <= s@.len(),
            match unescaped_bytes(s@.skip(i as int)) {
                Ok(t) => unescaped_bytes(s@) == Ok::<Seq<u8>, MalformedFrame>(out@ + t),
                Err(e) => unescaped_bytes(s@) == Err::<Seq<u8>, MalformedFrame>(e),
            },
        decreases s@.len() - i,
    {
        let ghost tail = s@.skip(i as int);
        let ghost old_out = out@;
        assert(tail.len() == s@.len() - i);
        assert(tail[0] == s@[i as int]);
        let b = s[i];
        if b == ESC_MARKER {
            if i + 1 == s.len() {
                assert(tail.len() == 1);
                assert(unescaped_bytes(tail) == Err::<Seq<u8>, MalformedFrame>(MalformedFrame));
                return Err(MalformedFrame);
            }
            assert(tail[1] == s@[i + 1]);
            let c = s[i + 1];
            let lit: u8;
            if c == ESC_END {
                lit = END_MARKER;
            } else if c == ESC_ESC {
                lit = ESC_MARKER;
            } else {
                assert(unescaped_bytes(tail) == Err::<Seq<u8>, MalformedFrame>(MalformedFrame));
                return Err(MalformedFrame);
            }
            out.push(lit);
            proof {
                assert(tail.skip(2) =~= s@.skip(i + 2));
                if let Ok(t) = unescaped_bytes(s@.skip(i + 2)) {
                    assert(unescaped_bytes(tail) == Ok::<Seq<u8>, MalformedFrame>(
                        seq![lit] + t,
                    ));
                    assert(out@ + t =~= old_out + (seq![lit] + t));
                }
            }
            i = i + 2;
        } else if b == END_MARKER {
            assert(unescaped_bytes(tail) == Err::<Seq<u8>, MalformedFrame>(MalformedFrame));
            return Err(MalformedFrame);
        } else {
            out.push(b);
            proof {
                assert(tail.drop_first() =~= s@.skip(i + 1));
                if let Ok(t) = unescaped_bytes(s@.skip(i + 1)) {
                    assert(unescaped_bytes(tail) == Ok::<Seq<u8>, MalformedFrame>(seq![b] + t));
                    assert(out@ + t =~= old_out + (seq![b] + t));
                }
            }
            i = i + 1;
        }
    }
    proof {
        assert(s@.skip(i as int) =~= Seq::<u8>::empty());
        assert(out@ + Seq::<u8>::empty() =~= out@);
    }
    Ok(out)
}

} // verus!
