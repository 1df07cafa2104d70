//! Staking tiers for an IDO platform on Sei: the tier contract's state and
//! its message handlers, the oracle price conversion, the IDO helpers that
//! read a user's tier, and the NFT metadata types.
pub mod band;
pub mod error;
pub mod msg;
pub mod state;
pub mod contract;
pub mod delegation;
pub mod ido;
pub mod nft_metadata;
