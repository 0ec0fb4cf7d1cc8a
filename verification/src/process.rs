//! Coordinator and worker bookkeeping for zero-disconnect router reloads.
//!
//! The host process modules keep the decisions: which acknowledgement waits
//! have expired, which client handoffs are pending, which workers are ready,
//! and whether the coordinator may admit clients. Time is passed in as
//! milliseconds of a monotonic clock; descriptors and channels are held as
//! opaque values of the caller's choosing.

pub mod activated;
pub mod control;
pub mod wait;
pub mod pending;
pub mod handoffs;
pub mod identity;
pub mod layout;
pub mod workers;
pub mod worker_unit;
pub mod worker_session;
pub mod coordinator;
