//! Verified core of an atomic Bitcoin↔Monero swap: the CLSAG ring-signature
//! adaptor, the Bitcoin-side adaptor-signature layer, the per-role swap state
//! machines with their recovery paths, and the persisted swap store.

pub mod adaptor;
pub mod cancel;
pub mod clsag;
pub mod cooperative_xmr_redeem_after_punish;
pub mod database;
pub mod ed25519;
pub mod protocol;
pub mod swap_request;
