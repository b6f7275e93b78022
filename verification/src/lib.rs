//! Streaming front end of a markup parser: receives an arbitrarily chunked
//! stream of raw bytes or already-decoded text, determines (or is told) the
//! character encoding, and forwards one coherent stream of decoded text to a
//! downstream sink.

pub mod decode;
pub mod driver;
pub mod sink;
