//! Verified core of the DWNTP control-event logging system.
pub mod text;
pub mod json;
pub mod codec;
pub mod error;
pub mod mtu_event;
pub mod event;
pub mod chaincode;
pub mod pallet;
pub mod sim;
pub mod client;
