//! Measurement protocol of a two-endpoint network speed test: which requests a
//! driver sends to a peer's responder, in what order, and how elapsed time and
//! byte counts become a throughput figure.
//!
//! The transport itself (sending, awaiting, the clock) is driven from outside;
//! this crate decides what to send and how to read what came back.
pub mod driver;
pub mod message;
pub mod responder;
pub mod throughput;
pub mod trial;
