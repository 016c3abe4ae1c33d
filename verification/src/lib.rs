//! Verified decision logic of the Accensa payment contracts: checked token
//! arithmetic, quorum decay, refund phases, slashing, dispute windows, receipt
//! events and multi-party receipt signatures.

pub mod dispute;
pub mod dual_asset;
pub mod error;
pub mod events;
pub mod host;
pub mod math;
pub mod quorum;
pub mod signatures;
pub mod slashing;
pub mod state_transition;
