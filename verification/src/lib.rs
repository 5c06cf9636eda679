//! Verified core of a serial line monitor.
//!
//! The crate holds the domain logic of a tool that streams text lines from a
//! microcontroller over a serial port: the connection state machine, the
//! bounded per-channel sample buffers with FIFO eviction, the telemetry line
//! parser, the hex display encoding and hex input decoding, and the decision
//! rules of the background reader loop.  All text is carried as raw bytes;
//! numeric channel values are carried as their unparsed tokens, so that the
//! unverified rendering layer alone touches floating point.  The transport
//! itself (opening, reading and writing the port) is driven by a thin
//! unverified shell that obeys the contracts stated here.

pub mod buffer;
pub mod hex;
pub mod manager;
pub mod parser;
