//! The MTU peer-to-peer overlay: signed, hash-chained control events, the
//! framing of messages on the wire, and the decisions of an MTU node.
pub mod types;
pub mod crypto;
pub mod framing;
pub mod node;
