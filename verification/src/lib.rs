//! Incremental reassembly of length-prefixed messages from a byte stream.
//!
//! A stream carries frames back to back. Each frame is a two-byte big-endian
//! length followed by that many payload bytes. The transport may hand the
//! bytes over in pieces of any size; [`readbuffer::ReadBuffer`] takes them one
//! at a time and queues every payload as soon as its last byte has arrived.
//!
//! The behaviour is stated over a mathematical model of the reassembler,
//! [`model::StreamState`], and its transition function; the module `laws`
//! proves what holds of that model however the stream is cut.

pub mod error;
pub mod laws;
pub mod message;
pub mod model;
pub mod readbuffer;
