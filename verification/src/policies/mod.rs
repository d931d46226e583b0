//! The policy engine: what all policies share, and the three algorithms.
pub mod arm;
pub mod batch;
pub mod epsilon_greedy;
pub mod laws;
pub mod ledger;
pub mod policy;
pub mod rng;
pub mod select;
pub mod thomson_sampling;
pub mod ucb;
