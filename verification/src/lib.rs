//! A pool of a fixed number of workers that run submitted jobs, with an
//! orderly shutdown.
//!
//! The library holds what is decided in such a pool, with proofs: the queue
//! between submitters and workers, the loop of each worker, what shutdown
//! does and in which order the threads are joined. Threads, locks and
//! sockets belong to the program that uses it.

pub mod channel;
pub mod error;
pub mod http;
pub mod laws;
pub mod message;
pub mod model;
pub mod pool;
pub mod worker;

pub use crate::error::PoolCreationError;
pub use crate::pool::ThreadPool;
