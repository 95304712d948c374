//! Concurrent TCP health probing: the decisions of the probe engine, verified.
//!
//! The network work (name resolution, connecting, sleeping, spawning tasks)
//! is done by the caller; this library decides what to do next and how the
//! results are aggregated and reported.

pub mod text;
pub mod duration;
pub mod targets;
pub mod probe;
pub mod orchestrator;
pub mod report;
