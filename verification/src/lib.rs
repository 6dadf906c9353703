//! Client-side reconstruction of trading state for an on-chain limit order
//! book: decoding of book snapshots, projection of an order's lifecycle from
//! its event log, and the decisions of the resubmission protocol.

pub mod book;
pub mod client;
pub mod error;
pub mod events;
pub mod fields;
pub mod filter;
pub mod json;
pub mod order;
pub mod project;
pub mod queue;
pub mod snapshot;
pub mod submit;
pub mod text;
pub mod types;
pub mod wire;
