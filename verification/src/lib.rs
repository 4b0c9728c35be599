//! A verified client library for a line-oriented request/inform/reply
//! protocol used to control a CASPER FPGA board (a SNAP) over TCP.
//!
//! The library models protocol messages as plain values, proves the
//! request/reply correlation logic, the register access codecs and the
//! bring-up and bitstream-programming state machines, and calls the
//! wire-level line codec and base64 argument codec of outside crates
//! through a small set of trusted wrappers.

pub mod api;
pub mod correlator;
pub mod dispatch;
pub mod escape;
pub mod msg;
pub mod numbers;
pub mod program;
pub mod registers;
pub mod strutil;
pub mod tengbe;
pub mod wire;
