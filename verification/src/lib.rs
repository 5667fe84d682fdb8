//! Verified core of a billing event pipeline.
//!
//! Events are JSON-encoded billing records moved through a Kafka-compatible
//! broker.  This crate holds everything that can be stated and proved:
//! the event model and its invariants (`event`), the wire codec and its
//! round-trip law (`codec`), the consumer's batch state machine (`consumer`),
//! the producer configuration (`producer`) and the retry policy of the
//! pipeline driver (`driver`).  Broker I/O itself stays outside, driven
//! through these state machines.

pub mod event;
pub mod codec;
pub mod consumer;
pub mod producer;
pub mod driver;
