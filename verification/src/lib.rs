//! A greedy action-value learner over a fixed set of stochastic reward
//! sources.
//!
//! The agent keeps one quality estimate per source, selects the source with
//! the strictly greatest estimate above a zero threshold, and folds each
//! observed reward into the chosen source's estimate with a step size of
//! `1 / action_count` under integer division, so only the very first
//! observation moves an estimate.
//!
//! Real-valued quantities (distribution parameters, estimates, rewards) are
//! carried as the 64-bit encodings of IEEE 754 binary64 values; the `fbits`
//! module defines the ordering on those encodings. Drawing the random reward
//! itself is left to the caller, who hands the observed encoding to
//! [`agent::Agent::observe_and_learn`].

pub mod agent;
pub mod fbits;
pub mod source;
