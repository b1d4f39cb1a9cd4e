//! Messages of the overlay.
use vstd::prelude::*;

verus! {

/// A control event as it travels between MTUs: who sent it, its place in
/// the sender's chain, the hash of the sender's previous event, what it
/// says, and the sender's Ed25519 verifying key and signature.
#[derive(Debug, Clone, PartialEq, Eq)]
pub struct ControlEvent {
    pub sender: String,
    pub seq: u64,
    pub prev_hash: [u8; 32],
    pub payload: String,
    pub verifying_key: Vec<u8>,
    pub signature: Vec<u8>,
}

/// A raw reading or command that an RTU sends to its MTU.
#[derive(Debug, Clone, PartialEq, Eq)]
pub struct RtuMessage {
    pub payload: String,
}

} // verus!
