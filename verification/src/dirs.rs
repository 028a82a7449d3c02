//! Output-directory setup for the orchestrator.
//!
//! Each pipeline writes into its own output directory, created before
//! the pipelines start if it does not exist yet. Failing to create one
//! is the single unconditionally fatal condition in the system. The
//! filesystem probe and the create call live outside this crate; the
//! decision that reads their results is verified here.

use vstd::prelude::*;

verus! {

/// What directory setup did for one output directory.
#[derive(Clone, Copy, Debug, PartialEq, Eq, Structural)]
pub enum SetupStep {
    /// The directory was already there; nothing was done.
    AlreadyPresent,
    /// The directory was absent and has been created.
    Created,
}

/// The single fatal error of directory setup.
#[derive(Clone, Copy, Debug, PartialEq, Eq, Structural)]
pub enum SetupError {
    /// The directory was absent and could not be created.
    CreateFailed,
}

/// The outcome of setting up one output directory, given whether it
/// already existed and — consulted only when it did not — whether the
/// create call succeeded.
pub open spec fn spec_setup_outcome(already_exists: bool, create_ok: bool) -> Result<
    SetupStep,
    SetupError,
> {
    if already_exists {
        Ok(SetupStep::AlreadyPresent)
    } else if create_ok {
        Ok(SetupStep::Created)
    } else {
        Err(SetupError::CreateFailed)
    }
}

/// Set up one output directory: keep it if it is already there, record
/// a creation otherwise, and fail — fatally for the process — exactly
/// when an absent directory could not be created.
pub fn setup_output_dir(already_exists: bool, create_ok: bool) -> (r: Result<
    SetupStep,
    SetupError,
>)
    ensures
        r == spec_setup_outcome(already_exists, create_ok),
{
    if already_exists {
        Ok(SetupStep::AlreadyPresent)
    } else if create_ok {
        Ok(SetupStep::Created)
    } else {
        Err(SetupError::CreateFailed)
    }
}

/// Directory setup is idempotent: invoked when the directory already
/// exists it is a no-op, never an error, whatever the create call would
/// have returned.
pub proof fn lemma_setup_idempotent(create_ok: bool)
    ensures
        spec_setup_outcome(true, create_ok) == Ok::<SetupStep, SetupError>(
            SetupStep::AlreadyPresent,
        ),
{
}

} // verus!
