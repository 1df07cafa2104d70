//! What the IDO contract needs of the tier contract and of its own state.
pub mod tier;
pub mod utils;
