//! Verified core of a Monte Carlo pricer for options on a single asset.
//!
//! The floating-point arithmetic of the pricer (the geometric Brownian motion
//! step, payoffs and the pricing statistics) lives in the application around
//! this library; what is proved here is how the simulated price paths are built
//! and seeded, the batching of measurements sent to the time
//! series database, and the naming and configuration rules.
use vstd::prelude::*;

pub mod asset_price_sim;
pub mod batching;
pub mod influxdb;
pub mod logger;
pub mod options;

verus! {

} // verus!
