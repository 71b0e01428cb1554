//! A fixed-size worker pool, described as verified state machines.
//!
//! The threads, locks and sockets live with the caller; this library decides
//! what each of them does next and proves that the decisions keep the pool's
//! promises: every dispatched job reaches exactly one worker, in dispatch order,
//! a worker holds at most one job at a time, and shutdown joins every worker.
pub mod error;
pub mod queue;
pub mod pool;
pub mod http;

pub use error::ZeroSizedPoolErr;
pub use pool::ThreadPool;
