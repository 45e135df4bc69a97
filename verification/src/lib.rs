//! Serial transport and framing engine for a small flight-controller link.
//!
//! The crate turns an unreliable, byte-oriented serial connection into an
//! exchange of typed, bounded messages.  It contains:
//!
//! - a message codec ([`message`]) for the command/telemetry set,
//! - two wire layouts: a length-prefixed frame ([`frame`]) and an
//!   escaped-delimiter frame ([`slip`]), unified behind one frame codec
//!   ([`codec`]) that a connection is configured with for its lifetime,
//! - an incremental stream demultiplexer ([`demux`]) that re-synchronizes
//!   after corruption,
//! - the decision logic of the port-owning link worker ([`worker`]), and
//! - the UI-facing connection manager state machine ([`manager`]).
//!
//! All I/O (the physical port, channels, timers) lives outside this crate;
//! the functions here are pure state transitions over plain values.

pub mod codec;
pub mod demux;
pub mod frame;
pub mod manager;
pub mod message;
pub mod slip;
pub mod worker;
