//! Receiver-side synchronized audio broadcast engine.
//!
//! A source node chops PCM audio into fixed-size frames, stamps each frame
//! with a presentation timestamp, and multicasts the frames. Receivers
//! reconstruct the stream, estimate the clock offset to the source from a
//! four-timestamp exchange, and play each frame at its timestamp instant.
//!
//! This crate holds the verified core: the wire protocol and its packet
//! families, the clock-delta estimator, the sequence-indexed jitter queue,
//! the sync state machine, the slew rate controller, and the output ring.
//! Device, socket and thread plumbing live outside the library and hand it
//! plain values.

pub mod buffer;
pub mod clock;
pub mod encode;
pub mod packet;
pub mod protocol;
pub mod queue;
pub mod rate;
pub mod receive;
pub mod slew;
pub mod source;
pub mod stats;
pub mod stream;
pub mod sync;
pub mod time;
pub mod util;
