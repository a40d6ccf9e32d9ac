//! Periodic sampling of host metrics: shaping raw readings into snapshots,
//! the decisions of the sampling loop, and delivery to subscribers.

pub mod distributor;
pub mod sampler;
pub mod snapshot;
