//! The Stellar Horizon client's records and stream decisions.

pub mod client;
