//! Typed channels between the workers of one process.
//!
//! A group of workers shares one channel table. Each allocation call made in
//! lock-step by all workers creates (lazily, on first use) one full mesh of
//! FIFO queues, and hands every worker its pushers (one per destination) and
//! its puller exactly once.
pub mod endpoint;
pub mod table;
pub mod process;
pub mod laws;
