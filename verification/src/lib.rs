//! Peer-to-peer pub/sub transport core: a verified CDR-style binary codec,
//! the message envelope built on it, publisher and subscription handles,
//! the node's queues and shutdown signal, and the event-loop decision
//! logic, together with proofs of the codec's round-trip laws.

pub mod codec;
pub mod envelope;
pub mod handles;
pub mod laws;
pub mod node;
pub mod registry;
pub mod wire;
