//! A worker's job-acquisition and heartbeat-coordination round.
//!
//! The crate verifies the round controller of a proving worker: each round
//! queries a coordination service for a multiblock job, falls back to
//! single-block jobs in the order given by the configuration, reports the
//! chosen job on a heartbeat channel before touching its data, fetches the
//! job's input, and publishes a proof artifact.  The round is modelled as a
//! small state machine; its laws (priority of multiblock work, first-match
//! selection, idle rounds, heartbeat-before-work, and error context) are
//! proved over traces of that machine.

pub mod config;
pub mod job;
pub mod machine;
pub mod laws;
pub mod round;
