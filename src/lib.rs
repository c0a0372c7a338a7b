//! A named registry of deferred work: each worker pairs a name with an
//! optional behavior that produces a fresh in-flight operation each time it
//! is invoked.

pub mod error;
pub mod repository;
pub mod service;
pub mod worker;

pub use error::WorkerError;
pub use repository::{ThreadWorkerRepositoryImpl, ThreadWorkerRepositoryTrait};
pub use service::{ThreadWorkerServiceImpl, ThreadWorkerServiceTrait};
pub use worker::ThreadWorker;
