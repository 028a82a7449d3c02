//! Capture-orchestration core for bulk screenshot collection.
//!
//! Two pipelines share a read-only target list: a bounded-concurrency
//! worker pool for RDP targets and a strictly sequential pipeline for web
//! targets with a two-tier failure-severity policy. This crate holds the
//! scheduling, dispatch and failure-classification logic; process setup,
//! threads, channels and the capture backends live outside it.

use vstd::prelude::*;

pub mod dirs;
pub mod outcome;
pub mod pool;
pub mod web;

verus! {

/// Message a finished RDP worker sends back to the scheduling loop so it
/// can free a concurrency slot. Carries no payload: the worker's own
/// success or failure is observed later, when its handle is joined.
pub enum ThreadStatus {
    Complete,
}

} // verus!
