//! Admission core of a small shared message board.
//!
//! Every submitted post runs through an admission pipeline: a per-sender
//! sliding-window rate limit, a bounded content deduplication cache, and an
//! append-only message log. The pipeline and its three components live here
//! with full contracts; rendering, routing and the asynchronous plumbing
//! around them are left to the surrounding application.

pub mod coordinator;
pub mod dedup;
pub mod escape;
pub mod message_log;
pub mod rate_limiter;
