//! Decision logic of the link worker.
//!
//! The link worker is the exclusive owner of the physical port.  Per
//! iteration it performs a bounded wait on the outbound queue and a
//! short-timeout read of inbound bytes, so it never blocks indefinitely
//! and observes shutdown within one timeout interval.  The waiting, the
//! reading and the writing live outside this crate; the loop hands every
//! outcome to the functions here, which decide what happens next:
//!
//! - an outbound message is encoded and written in full;
//! - a write failure is fatal to the connection: one `ConnectionError`
//!   event, then the worker stops (the caller must reconnect);
//! - the outbound queue being closed is the designed disconnect path:
//!   the worker stops without an error;
//! - inbound bytes run through the demultiplexer, and each complete frame
//!   becomes exactly one event, in arrival order: the decoded message, or
//!   `MalformedFrame`, which is non-fatal and leaves framing running.

use crate::codec::{decode_frame, decoded_frame, encode_message, wire_bytes, WireFormat};
use crate::demux::{demux_format, demux_init, demux_run, demux_wf, lemma_run_append, DemuxState, StreamDemuxer};
use crate::message::Message;
use vstd::prelude::*;

verus! {

/// Outcome of one bounded wait on the outbound queue.
#[derive(Clone, Copy, Debug, PartialEq, Eq, Structural)]
pub enum OutboundPoll {
    /// The queue handed over a message to send.
    Deliver(Message),
    /// The queue was closed by its owner: the designed disconnect path.
    Closed,
    /// Nothing arrived within the timeout.
    Timeout,
}

/// What the worker does after one outbound poll.
#[derive(Debug)]
pub enum OutboundAction {
    /// Write these bytes to the port, in full.
    Write(Vec<u8>),
    /// Terminate the worker loop without an error.
    Stop,
    /// Nothing to do this iteration.
    Idle,
}

/// One event forwarded to the inbound channel, in arrival order.
#[derive(Clone, Copy, Debug, PartialEq, Eq, Structural)]
pub enum WorkerEvent {
    /// A complete frame decoded to this message.
    Received(Message),
    /// A complete candidate frame failed structured decode; framing has
    /// already resumed cleanly.
    MalformedFrame,
    /// The port failed; the worker stops and the connection is dead.
    ConnectionError,
}

/// The event that one demultiplexed frame turns into.
pub open spec fn frame_event(fmt: WireFormat, f: Seq<u8>) -> WorkerEvent {
    match decoded_frame(fmt, f) {
        Ok(m) => WorkerEvent::Received(m),
        Err(_) => WorkerEvent::MalformedFrame,
    }
}

/// The port-owning worker's connection-independent state: its configured
/// wire format and the demultiplexer for the inbound stream.
pub struct LinkWorker {
    demux: StreamDemuxer,
}

impl View for LinkWorker {
    type V = DemuxState;

    closed spec fn view(&self) -> DemuxState {
        self.demux@
    }
}

impl LinkWorker {
    /// The demultiplexer state is well-formed.
    pub open spec fn wf(&self) -> bool {
        demux_wf(self@)
    }

    /// A fresh worker for one connection, configured with one wire format
    /// for its lifetime.
    pub fn new(fmt: WireFormat) -> (w: Self)
        ensures
            w@ == demux_init(fmt),
            w.wf(),
    {
        LinkWorker { demux: StreamDemuxer::new(fmt) }
    }

    /// The wire format this worker was configured with.
    pub fn format(&self) -> (fmt: WireFormat)
        ensures
            fmt == demux_format(self@),
    {
        self.demux.format()
    }

    /// Decides what to do with the outcome of one outbound poll: encode
    /// and write a delivered message, stop cleanly when the queue is
    /// closed, do nothing on a timeout.
    pub fn handle_outbound(&self, poll: OutboundPoll) -> (a: OutboundAction)
        ensures
            match poll {
                OutboundPoll::Deliver(m) => match a {
                    OutboundAction::Write(w) => w@ == wire_bytes(demux_format(self@), m),
                    _ => false,
                },
                OutboundPoll::Closed => a is Stop,
                OutboundPoll::Timeout => a is Idle,
            },
    {
        match poll {
            OutboundPoll::Deliver(m) => {
                let fmt = self.format();
                OutboundAction::Write(encode_message(fmt, &m))
            },
            OutboundPoll::Closed => OutboundAction::Stop,
            OutboundPoll::Timeout => OutboundAction::Idle,
        }
    }

    /// Decides what follows a write: success continues the loop; failure
    /// is fatal to this connection, so exactly one `ConnectionError`
    /// event is emitted and the worker stops.
    pub fn handle_write_result(&self, ok: bool) -> (r: Option<WorkerEvent>)
        ensures
            ok ==> r is None,
            !ok ==> r == Some(WorkerEvent::ConnectionError),
    {
        if ok {
            None
        } else {
            Some(WorkerEvent::ConnectionError)
        }
    }

    /// Feeds one chunk of inbound bytes to the demultiplexer and turns
    /// every frame completed inside it into exactly one event, in arrival
    /// order.  The absence of bytes or of complete frames is not an
    /// error: the result is just empty.
    pub fn handle_inbound(&mut self, bytes: &[u8]) -> (events: Vec<WorkerEvent>)
        requires
            old(self).wf(),
        ensures
            final(self).wf(),
            final(self)@ == demux_run(old(self)@, bytes@).0,
            events@ == demux_run(old(self)@, bytes@).1.map_values(
                |f: Seq<u8>| frame_event(demux_format(old(self)@), f),
            ),
            demux_format(final(self)@) == demux_format(old(self)@),
    {
        let fmt = self.demux.format();
        let frames = self.demux.push_chunk(bytes);
        proof {
            crate::demux::lemma_run_wf(old(self)@, bytes@);
        }
        let ghost emitted_frames = demux_run(old(self)@, bytes@).1;
        let mut events: Vec<WorkerEvent> = Vec::new();
        let mut j: usize = 0;
        assert(events@ =~= emitted_frames.map_values(
            |f: Seq<u8>| frame_event(fmt, f),
        ).take(0));
        while j < frames.len()
            invariant
                j <= frames@.len(),
                frames@.map_values(|f: Vec<u8>| f@) == emitted_frames,
                events@ == emitted_frames.map_values(|f: Seq<u8>| frame_event(fmt, f)).take(
                    j as int,
                ),
            decreases frames@.len() - j,
        {
            let ghost mapped = emitted_frames.map_values(|f: Seq<u8>| frame_event(fmt, f));
            assert(emitted_frames[j as int] == frames@[j as int]@);
            let ev = match decode_frame(fmt, &frames[j]) {
                Ok(m) => WorkerEvent::Received(m),
                Err(_) => WorkerEvent::MalformedFrame,
            };
            assert(ev == mapped[j as int]);
            events.push(ev);
            assert(events@ =~= mapped.take(j + 1));
            j = j + 1;
        }
        assert(emitted_frames.map_values(|f: Seq<u8>| frame_event(fmt, f)).take(
            emitted_frames.len() as int,
        ) =~= emitted_frames.map_values(|f: Seq<u8>| frame_event(fmt, f)));
        events
    }
}

/// End-to-end delivery: the wire bytes of any message, fed to a fresh
/// demultiplexer of the matching format, are demultiplexed into exactly
/// one frame, that frame decodes back to the message, and the
/// demultiplexer is idle again — so one sent message arrives as exactly
/// one `Received` event.
pub proof fn lemma_end_to_end_delivery(fmt: WireFormat, m: Message)
    ensures
        demux_run(demux_init(fmt), wire_bytes(fmt, m)).0 == demux_init(fmt),
        demux_run(demux_init(fmt), wire_bytes(fmt, m)).1.map_values(
            |f: Seq<u8>| frame_event(fmt, f),
        ) == seq![WorkerEvent::Received(m)],
{
    crate::message::lemma_payload_fits(m);
    crate::codec::lemma_codec_round_trip(fmt, m);
    let p = crate::message::payload_bytes(m);
    match fmt {
        WireFormat::LengthPrefixed => {
            let f = crate::frame::frame_bytes(p);
            crate::demux::lemma_frame_recognized(f);
            assert(seq![f].map_values(|x: Seq<u8>| frame_event(fmt, x)) =~= seq![
                WorkerEvent::Received(m),
            ]);
        },
        WireFormat::EscapedDelimiter => {
            crate::slip::lemma_escaped_len(p);
            let body = crate::slip::escaped_bytes(p);
            crate::demux::lemma_slip_frame_recognized(p);
            assert(seq![body].map_values(|x: Seq<u8>| frame_event(fmt, x)) =~= seq![
                WorkerEvent::Received(m),
            ]);
        },
    }
}

/// The concatenated wire bytes of a whole sequence of messages, in the
/// order they are written.
pub open spec fn wire_stream(fmt: WireFormat, ms: Seq<Message>) -> Seq<u8> {
    ms.map_values(|m: Message| wire_bytes(fmt, m)).flatten()
}

/// In-order delivery: the wire bytes of any sequence of messages, fed to
/// a fresh demultiplexer of the matching format, produce exactly one
/// `Received` event per message, in the order the messages were written,
/// and leave the demultiplexer idle.
pub proof fn lemma_in_order_delivery(fmt: WireFormat, ms: Seq<Message>)
    ensures
        demux_run(demux_init(fmt), wire_stream(fmt, ms)).0 == demux_init(fmt),
        demux_run(demux_init(fmt), wire_stream(fmt, ms)).1.map_values(
            |f: Seq<u8>| frame_event(fmt, f),
        ) == ms.map_values(|m: Message| WorkerEvent::Received(m)),
    decreases ms.len(),
{
    let s0 = demux_init(fmt);
    let mapped = ms.map_values(|m: Message| wire_bytes(fmt, m));
    if ms.len() == 0 {
        assert(mapped.flatten() =~= Seq::<u8>::empty());
        assert(demux_run(s0, wire_stream(fmt, ms)).1.map_values(|f: Seq<u8>| frame_event(fmt, f))
            =~= ms.map_values(|m: Message| WorkerEvent::Received(m)));
    } else {
        let head = wire_bytes(fmt, ms[0]);
        let rest = ms.drop_first();
        lemma_end_to_end_delivery(fmt, ms[0]);
        lemma_in_order_delivery(fmt, rest);
        assert(mapped.drop_first() =~= rest.map_values(|m: Message| wire_bytes(fmt, m)));
        assert(mapped[0] == head);
        assert(wire_stream(fmt, ms) == head + wire_stream(fmt, rest));
        lemma_run_append(s0, head, wire_stream(fmt, rest));
        let head_frames = demux_run(s0, head).1;
        let rest_frames = demux_run(s0, wire_stream(fmt, rest)).1;
        assert((head_frames + rest_frames).map_values(|f: Seq<u8>| frame_event(fmt, f))
            =~= head_frames.map_values(|f: Seq<u8>| frame_event(fmt, f)) + rest_frames.map_values(
            |f: Seq<u8>| frame_event(fmt, f),
        ));
        assert(seq![WorkerEvent::Received(ms[0])] + rest.map_values(
            |m: Message| WorkerEvent::Received(m),
        ) =~= ms.map_values(|m: Message| WorkerEvent::Received(m)));
    }
}

} // verus!
