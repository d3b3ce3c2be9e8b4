//! Decision logic of a prediction-market divergence trader: market
//! classification, question parsing, token resolution, bounded journals,
//! trade counters and the risk control state machine.

pub mod state;
pub mod text;
pub mod question;
pub mod expiry;
pub mod market;
pub mod risk;
pub mod cooldown;
pub mod config;
pub mod feeds;
pub mod dashboard;
pub mod signals;
