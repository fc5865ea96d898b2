//! Execution side of a state-machine-replication engine: the request and
//! reply data model, the application and divisible-state contracts, the
//! execution engine that applies ordered batches, catch-up runs and state
//! installations, and the handle producers use to queue requests.
pub mod app;
pub mod counter;
pub mod executor;
pub mod handle;
pub mod ordering;
pub mod state;
