//! Keeps a bounded cache of confirmed slot numbers in step with a remote
//! chain endpoint.
//!
//! The crate holds the decisions of the synchronisation engine: how a range
//! of slots is split around the confirmed ones, which parts are looked at
//! again, how the tracked head moves, and what the cache and the queue hold
//! afterwards. The calls to the endpoint, the timers and the HTTP server are
//! made by the program that uses the crate, which hands their results in.

pub mod cache;
pub mod config;
pub mod gaps;
pub mod interval;
pub mod logic;
pub mod metrics;
pub mod queue;
pub mod server;
pub mod state;
pub mod synchronizer;

