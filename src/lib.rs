//! Measurement pipeline for benchmarking the performance and energy cost of
//! remotely invoked functions: meter samples, invocation records, the
//! association of power samples with invocation windows, and the statistics
//! computed per group of repeated trials.
pub mod acquisition;
pub mod aggregation;
pub mod association;
pub mod dashboard;
pub mod invocation;
pub mod runner;
pub mod sensor;
pub mod server;
pub mod stats;
pub mod text;
pub mod workload;
