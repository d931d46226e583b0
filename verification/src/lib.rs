//! An online multi-armed-bandit engine: policies that pick one of several arms
//! and learn from rewards, the experiment cell that owns one policy, the
//! catalog of snapshots, and the directory of experiments.
//!
//! Numbers with a fractional part are carried as IEEE-754 binary64 bit
//! patterns ([`double::Double`]). The library orders and stores them; it never
//! does arithmetic on them. Each formula of an algorithm is a function that
//! the caller hands in, a kernel: the library decides when the kernel is
//! asked and with which numbers, and what becomes of the answer. Beside each
//! function that asks a kernel stands one that takes the answer itself.
pub mod accountant;
pub mod config;
pub mod double;
pub mod errors;
pub mod experiment;
pub mod policies;
pub mod repository;
pub mod requests;
pub mod responses;
pub mod state_store;
pub mod table;
