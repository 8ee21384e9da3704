//! Verified core of a load-bank serial polling runtime.
//!
//! The library contains the protocol logic: a fixed-length frame codec with a
//! table-driven CRC-8, a scanner that finds the first valid frame in a raw byte
//! stream, an escaped-delimiter codec used for handshake frames, the worker
//! state machine that tracks buffering, polling and link health, and the
//! supervisor that manages the lifetime of one session. All serial, file and
//! UI input/output stays outside the library; callers perform it and hand the
//! library plain values.

pub mod clock;
pub mod codec;
pub mod diag;
pub mod digest;
pub mod framing;
pub mod labels;
pub mod mode;
pub mod ports;
pub mod records;
pub mod strutil;
pub mod supervisor;
pub mod worker;
