use mijn_bussie::email::MailEvent;
use mijn_bussie::errors::{
    IncorrectCredentialsCount, ResumeReason, SignInFailure, check_if_webcom_unavailable,
    get_sign_in_error_type,
};

#[test]
fn webcom_unavailable_banner() {
    assert!(check_if_webcom_unavailable(Some(
        "De servertoepassing is niet beschikbaar.".to_owned()
    )));
    assert!(!check_if_webcom_unavailable(Some("Welkom".to_owned())));
    assert!(!check_if_webcom_unavailable(None));
}

#[test]
fn sign_in_error_classification() {
    assert_eq!(
        get_sign_in_error_type(
            "Uw aanmelding was niet succesvol. Voer a.u.b. het personeelsnummer of 'naam, voornaam' in"
        ),
        SignInFailure::IncorrectCredentials
    );
    assert_eq!(
        get_sign_in_error_type("Te veel verkeerde aanmeldpogingen"),
        SignInFailure::TooManyTries
    );
    assert_eq!(
        get_sign_in_error_type("iets anders"),
        SignInFailure::Other("iets anders".to_owned())
    );
}

#[test]
fn update_success_resets_journal() {
    // After a successful run the count is zero and no error remains.
    let mut journal = IncorrectCredentialsCount {
        retry_count: 4,
        error: Some(SignInFailure::TooManyTries),
        previous_password_hash: Some(11),
    };
    let mails = journal.update_signin_failure(false, &ResumeReason::Proceed, None, Some(11));
    assert_eq!(journal.retry_count, 0);
    assert_eq!(journal.error, None);
    assert_eq!(mails, vec![MailEvent::SignInRecovered]);
}

#[test]
fn update_success_without_prior_error_sends_nothing() {
    let mut journal = IncorrectCredentialsCount::new();
    let mails = journal.update_signin_failure(false, &ResumeReason::Proceed, None, Some(1));
    assert_eq!(journal.retry_count, 0);
    assert_eq!(journal.error, None);
    assert!(mails.is_empty());
}

#[test]
fn first_failure_mails_exactly_once() {
    // A first failure starts the count and owes the first-failure mail
    // exactly once.
    let mut journal = IncorrectCredentialsCount::new();
    let mails = journal.update_signin_failure(
        true,
        &ResumeReason::Proceed,
        Some(SignInFailure::IncorrectCredentials),
        Some(7),
    );
    assert_eq!(journal.retry_count, 1);
    assert_eq!(journal.error, Some(SignInFailure::IncorrectCredentials));
    let first_failure_mails = mails
        .iter()
        .filter(|m| matches!(m, MailEvent::SignInFailed(_, true)))
        .count();
    assert_eq!(first_failure_mails, 1);
    assert_eq!(mails, vec![MailEvent::SignInFailed(1, true)]);
}

#[test]
fn repeated_failure_mails_nothing_new() {
    let mut journal = IncorrectCredentialsCount {
        retry_count: 3,
        error: Some(SignInFailure::TooManyTries),
        previous_password_hash: Some(7),
    };
    let mails = journal.update_signin_failure(
        true,
        &ResumeReason::Proceed,
        Some(SignInFailure::TooManyTries),
        Some(7),
    );
    assert_eq!(journal.retry_count, 3);
    assert!(mails.is_empty());
}

#[test]
fn failed_new_password_attempt_mails_incorrect_new_password() {
    let mut journal = IncorrectCredentialsCount {
        retry_count: 5,
        error: Some(SignInFailure::IncorrectCredentials),
        previous_password_hash: Some(1),
    };
    let mails = journal.update_signin_failure(
        true,
        &ResumeReason::NewPassword,
        Some(SignInFailure::IncorrectCredentials),
        Some(2),
    );
    assert_eq!(mails, vec![MailEvent::IncorrectNewPassword]);
    assert_eq!(journal.previous_password_hash, Some(2));
}

#[test]
fn password_change_resumes_despite_lockout() {
    // A changed hash overrides even the incorrect-credentials lockout.
    let mut journal = IncorrectCredentialsCount {
        retry_count: 5,
        error: Some(SignInFailure::IncorrectCredentials),
        previous_password_hash: Some(100),
    };
    let (reason, mails) = journal.sign_in_failed_check(3, 5, Some(200));
    assert_eq!(reason, ResumeReason::NewPassword);
    assert!(mails.is_empty());
    assert_eq!(journal.retry_count, 5);
}

#[test]
fn incorrect_credentials_block_runs() {
    let mut journal = IncorrectCredentialsCount {
        retry_count: 1,
        error: Some(SignInFailure::IncorrectCredentials),
        previous_password_hash: Some(100),
    };
    let (reason, _mails) = journal.sign_in_failed_check(3, 5, Some(100));
    assert_eq!(reason, ResumeReason::IncorrectCredentials);
    assert_eq!(journal.retry_count, 2);
}

#[test]
fn healthy_journal_always_proceeds() {
    // No recorded error: the run proceeds and the journal is untouched,
    // whatever the reduce knobs say.
    let mut journal = IncorrectCredentialsCount::new();
    let (reason, mails) = journal.sign_in_failed_check(2, 2, Some(7));
    assert_eq!(reason, ResumeReason::Proceed);
    assert!(mails.is_empty());
    assert_eq!(journal.retry_count, 0);
    assert_eq!(journal.error, None);
}

#[test]
fn backoff_lets_every_third_attempt_through() {
    // After the first recorded failure the count stands at 1; attempts 1
    // and 2 are skipped, the attempt at a count divisible by 3 runs, and
    // every attempt is counted.
    let mut journal = IncorrectCredentialsCount {
        retry_count: 1,
        error: Some(SignInFailure::TooManyTries),
        previous_password_hash: None,
    };
    let (r1, _) = journal.sign_in_failed_check(3, 100, None);
    assert_eq!(r1, ResumeReason::SigninFailureReduce);
    assert_eq!(journal.retry_count, 2);
    let (r2, _) = journal.sign_in_failed_check(3, 100, None);
    assert_eq!(r2, ResumeReason::SigninFailureReduce);
    assert_eq!(journal.retry_count, 3);
    let (r3, _) = journal.sign_in_failed_check(3, 100, None);
    assert_eq!(r3, ResumeReason::Proceed);
    assert_eq!(journal.retry_count, 4);
}

#[test]
fn reminder_mail_on_every_fifth_attempt() {
    // The mail throttle tests the recorded count: at 5 with mail-reduce 5
    // the reminder goes out; one attempt earlier it does not.
    let mut journal = IncorrectCredentialsCount {
        retry_count: 4,
        error: Some(SignInFailure::IncorrectCredentials),
        previous_password_hash: None,
    };
    let (reason, mails) = journal.sign_in_failed_check(100, 5, None);
    assert_eq!(reason, ResumeReason::IncorrectCredentials);
    assert!(mails.is_empty());
    assert_eq!(journal.retry_count, 5);
    let (_, mails) = journal.sign_in_failed_check(100, 5, None);
    assert_eq!(mails, vec![MailEvent::SignInFailed(5, false)]);
    assert_eq!(journal.retry_count, 6);
}

#[test]
fn password_rotation_clears_lockout() {
    // Lockout with five failures under hash H1; the user sets a new
    // password (hash H2): the run proceeds, and on success the recovery
    // mail goes out and the count resets.
    let mut journal = IncorrectCredentialsCount {
        retry_count: 5,
        error: Some(SignInFailure::IncorrectCredentials),
        previous_password_hash: Some(0xA1),
    };
    let (reason, mails) = journal.sign_in_failed_check(3, 5, Some(0xB2));
    assert_eq!(reason, ResumeReason::NewPassword);
    assert!(mails.is_empty());

    let mails = journal.update_signin_failure(false, &reason, None, Some(0xB2));
    assert_eq!(mails, vec![MailEvent::SignInRecovered]);
    assert_eq!(journal.retry_count, 0);
    assert_eq!(journal.error, None);
    assert_eq!(journal.previous_password_hash, Some(0xB2));
}
