//! Resolves batches of Discord invite links into server statistics: invite
//! code extraction, per-invite retry with exponential backoff, a scheduler
//! that bounds the number of requests in flight, and the aggregation and
//! ordering of the collected records.

pub mod cli;
pub mod discord;
pub mod invites;
pub mod pipeline;
pub mod printer;
pub mod retry;
pub mod servers;
pub mod stats;
