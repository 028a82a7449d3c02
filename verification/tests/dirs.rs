use scamper::dirs::{setup_output_dir, SetupError, SetupStep};

#[test]
fn dir_setup_is_idempotent() {
    // An already existing directory is a no-op, not an error, whatever
    // a create call would have returned.
    assert_eq!(setup_output_dir(true, true), Ok(SetupStep::AlreadyPresent));
    assert_eq!(setup_output_dir(true, false), Ok(SetupStep::AlreadyPresent));
}

#[test]
fn dir_setup_creates_when_absent() {
    assert_eq!(setup_output_dir(false, true), Ok(SetupStep::Created));
}

#[test]
fn dir_setup_fails_only_when_creation_fails() {
    assert_eq!(setup_output_dir(false, false), Err(SetupError::CreateFailed));
}
