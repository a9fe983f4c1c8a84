//! State and settlement core of a carbon-credit futures marketplace.
//!
//! Futures contracts move through a fixed lifecycle, carbon credits carry a
//! bounded risk-score history, every lifecycle transition lands in a bounded
//! audit log, and transfers are recorded as transactions that move from
//! `Pending` to a terminal status exactly once.
pub mod bounded;
pub mod clock;
pub mod error;
pub mod events;
pub mod identity;
pub mod market;
pub mod settlement;
