use scamper::outcome::CaptureOutcome;
use scamper::web::{classify_outcome, run_web_pipeline, WebAction, WebPipeline};

#[test]
fn web_empty_target_list() {
    assert_eq!(run_web_pipeline(&Vec::new()), 0);
}

#[test]
fn web_all_succeed() {
    let outcomes = vec![
        CaptureOutcome::Captured,
        CaptureOutcome::Captured,
        CaptureOutcome::Captured,
        CaptureOutcome::Captured,
    ];
    assert_eq!(run_web_pipeline(&outcomes), 4);
}

#[test]
fn web_per_target_failure_continues() {
    // A per-target failure at position 0: position 1 is attempted next.
    let outcomes = vec![CaptureOutcome::PerTargetFailure, CaptureOutcome::Captured];
    assert_eq!(run_web_pipeline(&outcomes), 2);
}

#[test]
fn web_systemic_failure_stops() {
    // A systemic failure at position 1: exactly 2 targets attempted,
    // the one after it never.
    let outcomes = vec![
        CaptureOutcome::Captured,
        CaptureOutcome::SystemicFailure,
        CaptureOutcome::Captured,
    ];
    assert_eq!(run_web_pipeline(&outcomes), 2);
}

#[test]
fn web_scenario_four_targets() {
    // Four targets; the second yields a per-target failure and the
    // third a systemic failure: targets 1, 2 and 3 are attempted, the
    // fourth never.
    let outcomes = vec![
        CaptureOutcome::Captured,
        CaptureOutcome::PerTargetFailure,
        CaptureOutcome::SystemicFailure,
        CaptureOutcome::Captured,
    ];
    assert_eq!(run_web_pipeline(&outcomes), 3);
}

#[test]
fn web_systemic_first_attempts_only_one() {
    let outcomes = vec![CaptureOutcome::SystemicFailure, CaptureOutcome::Captured];
    assert_eq!(run_web_pipeline(&outcomes), 1);
}

#[test]
fn web_only_per_target_failures_attempts_all() {
    let outcomes = vec![
        CaptureOutcome::PerTargetFailure,
        CaptureOutcome::PerTargetFailure,
        CaptureOutcome::PerTargetFailure,
    ];
    assert_eq!(run_web_pipeline(&outcomes), 3);
}

#[test]
fn pipeline_steps_through_four_targets() {
    // Step-driven version of the four-target scenario: after the
    // systemic failure at the third target no next target is offered.
    let mut p = WebPipeline::new(4);
    assert_eq!(p.next_target(), Some(0));
    assert_eq!(p.record(CaptureOutcome::Captured), WebAction::Proceed);
    assert_eq!(p.next_target(), Some(1));
    assert_eq!(
        p.record(CaptureOutcome::PerTargetFailure),
        WebAction::ProceedAfterFailure
    );
    assert_eq!(p.next_target(), Some(2));
    assert_eq!(p.record(CaptureOutcome::SystemicFailure), WebAction::Stop);
    assert_eq!(p.next_target(), None);
    assert_eq!(p.attempted_count(), 3);
    assert!(p.stopped_early());
}

#[test]
fn pipeline_runs_out_of_targets_without_stopping() {
    let mut p = WebPipeline::new(2);
    assert_eq!(p.next_target(), Some(0));
    p.record(CaptureOutcome::Captured);
    assert_eq!(p.next_target(), Some(1));
    p.record(CaptureOutcome::PerTargetFailure);
    assert_eq!(p.next_target(), None);
    assert_eq!(p.attempted_count(), 2);
    assert!(!p.stopped_early());
}

#[test]
fn pipeline_with_no_targets_offers_none() {
    let p = WebPipeline::new(0);
    assert_eq!(p.next_target(), None);
    assert_eq!(p.attempted_count(), 0);
}

#[test]
fn classify_success_proceeds() {
    assert_eq!(classify_outcome(CaptureOutcome::Captured), WebAction::Proceed);
}

#[test]
fn classify_per_target_failure_proceeds_with_note() {
    assert_eq!(
        classify_outcome(CaptureOutcome::PerTargetFailure),
        WebAction::ProceedAfterFailure
    );
}

#[test]
fn classify_systemic_failure_stops() {
    assert_eq!(classify_outcome(CaptureOutcome::SystemicFailure), WebAction::Stop);
}
