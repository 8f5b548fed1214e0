//! A fixed-size worker pool and the request handling of the small web
//! server that feeds it.
//!
//! The pool is stated as a sequential state machine: `pool` holds the pool
//! itself, `channel` its job queue and `worker` its workers, `model` the
//! pool as a mathematical value with its transitions and its invariant, and
//! `laws` what follows for every schedule, and `progress` that teardown
//! can always complete. `http` holds what the server computes for one
//! connection.

pub mod channel;
pub mod http;
pub mod laws;
pub mod model;
pub mod pool;
pub mod progress;
pub mod worker;
