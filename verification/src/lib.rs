//! Fan-out/fan-in digit summing with a verified fan-in collector, a
//! single-consumer multi-producer channel model, and a ledger for the
//! scoped streams of a subprocess pipeline.
//!
//! The computational core is pure and fully verified: chunking an input
//! into whitespace-separated tokens, summing the digit values of each
//! chunk, and reducing the partial results to one total.  The operating
//! system facilities the design depends on — a thread scheduler for the
//! workers and producers, and a process launcher for the pipeline — are
//! opaque capability providers; a host program drives them and feeds
//! their plain results back through the contracts here.

pub mod boxes;
pub mod channel;
pub mod chunks;
pub mod collector;
pub mod digits;
pub mod errors;
pub mod pipeline;
