use mijn_bussie::errors::{FailureType, SignInFailure};
use mijn_bussie::webcom::{ExecutionSession, RunOutcome};

#[test]
fn success_ends_the_run_cleanly() {
    let mut session = ExecutionSession::new(3, None, false);
    assert!(session.should_run());
    session.record(RunOutcome::Success);
    assert!(!session.should_run());
    let (exit, send_errors) = session.finish(false);
    assert_eq!(exit, FailureType::OK);
    assert!(!send_errors);
}

#[test]
fn blocked_run_reports_the_blocking_failure() {
    // The journal blocked the run: no attempt is made and the exit code
    // is the blocking sign-in failure.
    let session = ExecutionSession::new(3, Some(SignInFailure::IncorrectCredentials), false);
    assert!(!session.should_run());
    let (exit, send_errors) = session.finish(false);
    assert_eq!(exit, FailureType::SignInFailed(SignInFailure::IncorrectCredentials));
    assert!(!send_errors);
}

#[test]
fn forced_run_ignores_the_block() {
    let session = ExecutionSession::new(3, Some(SignInFailure::IncorrectCredentials), true);
    assert!(session.should_run());
}

#[test]
fn sign_in_failure_ends_the_run_at_once() {
    let mut session = ExecutionSession::new(3, None, false);
    session.record(RunOutcome::SignInFailed(SignInFailure::TooManyTries));
    assert!(!session.should_run());
    let (exit, send_errors) = session.finish(false);
    assert_eq!(exit, FailureType::SignInFailed(SignInFailure::TooManyTries));
    assert!(!send_errors);
}

#[test]
fn transient_errors_are_retried_then_exceeded() {
    let mut session = ExecutionSession::new(3, None, false);
    session.record(RunOutcome::TransientError);
    assert!(session.should_run());
    session.record(RunOutcome::TransientError);
    assert!(session.should_run());
    session.record(RunOutcome::TransientError);
    assert!(!session.should_run());
    let (exit, send_errors) = session.finish(false);
    assert_eq!(exit, FailureType::TriesExceeded);
    assert!(send_errors);
}

#[test]
fn late_success_forgives_earlier_errors() {
    let mut session = ExecutionSession::new(3, None, false);
    session.record(RunOutcome::TransientError);
    session.record(RunOutcome::Success);
    assert!(!session.should_run());
    let (exit, send_errors) = session.finish(false);
    assert_eq!(exit, FailureType::OK);
    assert!(!send_errors);
}

#[test]
fn unreachable_portal_ends_the_run() {
    let mut session = ExecutionSession::new(3, None, false);
    session.record(RunOutcome::ConnectError);
    assert!(!session.should_run());
    let (exit, _) = session.finish(false);
    assert_eq!(exit, FailureType::ConnectError);
}

#[test]
fn stuck_browser_overrides_the_exit_code() {
    let mut session = ExecutionSession::new(2, None, false);
    session.record(RunOutcome::Success);
    let (exit, _) = session.finish(true);
    assert_eq!(exit, FailureType::GeckoEngine);
}
