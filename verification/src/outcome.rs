//! The result of one capture attempt, classified by severity.

use vstd::prelude::*;

verus! {

/// Outcome of a single capture attempt against one target.
///
/// A failure is classified into exactly one of two severities:
/// * `SystemicFailure` — an environment-level failure (for example an I/O
///   error while persisting the captured image) that invalidates
///   continuing the pipeline that observed it;
/// * `PerTargetFailure` — a failure isolated to this one target (an
///   unresponsive server, a renderer error), non-fatal to the pipeline.
#[derive(Clone, Copy, Debug, PartialEq, Eq, Structural)]
pub enum CaptureOutcome {
    /// The target was rendered and its image written.
    Captured,
    /// Backend- or protocol-specific failure against this target only.
    PerTargetFailure,
    /// Environment-level failure; continuing the pipeline is pointless.
    SystemicFailure,
}

} // verus!
