//! Failure taxonomy and the per-user sign-in failure journal.
//!
//! A portal run ends in a `FailureType`; a sign-in that the portal itself
//! refused carries a `SignInFailure`.  The journal counts consecutive
//! sign-in failures, throttles further runs and reminder mails, and is
//! cleared the moment the stored password hash no longer matches the
//! current one (the user has set a new password).

use vstd::prelude::*;
use crate::email::MailEvent;

verus! {

/// Why the portal refused a sign-in.
#[derive(Clone, Debug, PartialEq, Eq)]
pub enum SignInFailure {
    TooManyTries,
    IncorrectCredentials,
    WebcomDown,
    Other(String),
    Unknown,
}

impl SignInFailure {
    /// An equal copy.
    pub fn dup(&self) -> (r: SignInFailure)
        ensures
            r == *self,
    {
        match self {
            SignInFailure::TooManyTries => SignInFailure::TooManyTries,
            SignInFailure::IncorrectCredentials => SignInFailure::IncorrectCredentials,
            SignInFailure::WebcomDown => SignInFailure::WebcomDown,
            SignInFailure::Other(s) => SignInFailure::Other(s.clone()),
            SignInFailure::Unknown => SignInFailure::Unknown,
        }
    }

    /// Whether this is the credentials failure, the one kind that blocks
    /// further runs until the password changes.
    pub fn is_incorrect_credentials(&self) -> (r: bool)
        ensures
            r == (*self == SignInFailure::IncorrectCredentials),
    {
        match self {
            SignInFailure::IncorrectCredentials => true,
            _ => false,
        }
    }

    /// Equality up to the text a failure carries: the variants match and
    /// any carried message reads the same.
    pub open spec fn spec_eq(self, other: SignInFailure) -> bool {
        match (self, other) {
            (SignInFailure::TooManyTries, SignInFailure::TooManyTries) => true,
            (SignInFailure::IncorrectCredentials, SignInFailure::IncorrectCredentials) => true,
            (SignInFailure::WebcomDown, SignInFailure::WebcomDown) => true,
            (SignInFailure::Other(a), SignInFailure::Other(b)) => a@ == b@,
            (SignInFailure::Unknown, SignInFailure::Unknown) => true,
            _ => false,
        }
    }

    pub fn same_as(&self, other: &SignInFailure) -> (r: bool)
        ensures
            r == self.spec_eq(*other),
    {
        match (self, other) {
            (SignInFailure::TooManyTries, SignInFailure::TooManyTries) => true,
            (SignInFailure::IncorrectCredentials, SignInFailure::IncorrectCredentials) => true,
            (SignInFailure::WebcomDown, SignInFailure::WebcomDown) => true,
            (SignInFailure::Other(a), SignInFailure::Other(b)) => *a == *b,
            (SignInFailure::Unknown, SignInFailure::Unknown) => true,
            _ => false,
        }
    }
}

/// How a portal run ended.
#[derive(Clone, Debug, PartialEq, Eq)]
pub enum FailureType {
    TriesExceeded,
    GeckoEngine,
    SignInFailed(SignInFailure),
    ConnectError,
    Other(String),
    OK,
}

impl FailureType {
    /// An equal copy.
    pub fn dup(&self) -> (r: FailureType)
        ensures
            r == *self,
    {
        match self {
            FailureType::TriesExceeded => FailureType::TriesExceeded,
            FailureType::GeckoEngine => FailureType::GeckoEngine,
            FailureType::SignInFailed(f) => FailureType::SignInFailed(f.dup()),
            FailureType::ConnectError => FailureType::ConnectError,
            FailureType::Other(s) => FailureType::Other(s.clone()),
            FailureType::OK => FailureType::OK,
        }
    }

    /// The failure that marks a run refused for incorrect credentials.
    pub open spec fn spec_is_incorrect_credentials(self) -> bool {
        self == FailureType::SignInFailed(SignInFailure::IncorrectCredentials)
    }

    pub fn is_incorrect_credentials(&self) -> (r: bool)
        ensures
            r == self.spec_is_incorrect_credentials(),
    {
        match self {
            FailureType::SignInFailed(f) => f.is_incorrect_credentials(),
            _ => false,
        }
    }

    pub fn is_ok(&self) -> (r: bool)
        ensures
            r == (*self == FailureType::OK),
    {
        match self {
            FailureType::OK => true,
            _ => false,
        }
    }

    /// Equality up to the text a failure carries.
    pub open spec fn spec_eq(self, other: FailureType) -> bool {
        match (self, other) {
            (FailureType::TriesExceeded, FailureType::TriesExceeded) => true,
            (FailureType::GeckoEngine, FailureType::GeckoEngine) => true,
            (FailureType::SignInFailed(a), FailureType::SignInFailed(b)) => a.spec_eq(b),
            (FailureType::ConnectError, FailureType::ConnectError) => true,
            (FailureType::Other(a), FailureType::Other(b)) => a@ == b@,
            (FailureType::OK, FailureType::OK) => true,
            _ => false,
        }
    }

    pub fn same_as(&self, other: &FailureType) -> (r: bool)
        ensures
            r == self.spec_eq(*other),
    {
        match (self, other) {
            (FailureType::TriesExceeded, FailureType::TriesExceeded) => true,
            (FailureType::GeckoEngine, FailureType::GeckoEngine) => true,
            (FailureType::SignInFailed(a), FailureType::SignInFailed(b)) => a.same_as(b),
            (FailureType::ConnectError, FailureType::ConnectError) => true,
            (FailureType::Other(a), FailureType::Other(b)) => *a == *b,
            (FailureType::OK, FailureType::OK) => true,
            _ => false,
        }
    }
}

impl Default for FailureType {
    /// A run that has not happened yet counts as having ended well.
    fn default() -> (r: FailureType)
        ensures
            r == FailureType::OK,
    {
        FailureType::OK
    }
}

/// Why a planned run proceeds or is skipped, decided from the journal
/// before each run.
#[derive(Clone, Copy, Debug, PartialEq, Eq, Structural)]
pub enum ResumeReason {
    /// Nothing blocks the run.
    Proceed,
    /// The stored password hash no longer matches: the user set a new
    /// password, so the run proceeds whatever the journal says.
    NewPassword,
    /// The last failure was incorrect credentials: never run again until
    /// the password changes.
    IncorrectCredentials,
    /// Still inside the failure back-off window: skip this run.
    SigninFailureReduce,
}

impl ResumeReason {
    /// Whether the run may proceed.
    pub open spec fn spec_allows_run(self) -> bool {
        self == ResumeReason::Proceed || self == ResumeReason::NewPassword
    }

    pub fn allows_run(&self) -> (r: bool)
        ensures
            r == self.spec_allows_run(),
    {
        match self {
            ResumeReason::Proceed => true,
            ResumeReason::NewPassword => true,
            _ => false,
        }
    }
}

/// A maintenance banner the portal shows while it is down.
pub fn check_if_webcom_unavailable(h3_text: Option<String>) -> (r: bool)
    ensures
        r == match h3_text {
            Some(text) => text@ == "De servertoepassing is niet beschikbaar."@,
            None => false,
        },
{
    match h3_text {
        Some(text) => text == String::from_str("De servertoepassing is niet beschikbaar."),
        None => false,
    }
}

/// Classify the error banner the portal shows after a refused sign-in.
pub fn get_sign_in_error_type(text: &str) -> (r: SignInFailure)
    ensures
        text@ == "Uw aanmelding was niet succesvol. Voer a.u.b. het personeelsnummer of 'naam, voornaam' in"@
            ==> r == SignInFailure::IncorrectCredentials,
        text@ == "Te veel verkeerde aanmeldpogingen"@ ==> r == SignInFailure::TooManyTries,
        (text@ != "Uw aanmelding was niet succesvol. Voer a.u.b. het personeelsnummer of 'naam, voornaam' in"@
            && text@ != "Te veel verkeerde aanmeldpogingen"@) ==> (r matches SignInFailure::Other(s)
            && s@ == text@),
{
    proof {
        reveal_strlit(
            "Uw aanmelding was niet succesvol. Voer a.u.b. het personeelsnummer of 'naam, voornaam' in",
        );
        reveal_strlit("Te veel verkeerde aanmeldpogingen");
        assert("Uw aanmelding was niet succesvol. Voer a.u.b. het personeelsnummer of 'naam, voornaam' in"@.len()
            == 89);
        assert("Te veel verkeerde aanmeldpogingen"@.len() == 33);
    }
    let owned = String::from_str(text);
    if owned == String::from_str(
        "Uw aanmelding was niet succesvol. Voer a.u.b. het personeelsnummer of 'naam, voornaam' in",
    ) {
        SignInFailure::IncorrectCredentials
    } else if owned == String::from_str("Te veel verkeerde aanmeldpogingen") {
        SignInFailure::TooManyTries
    } else {
        SignInFailure::Other(owned)
    }
}

/// Turn an optional value into a result, as the core's helpers expect.
pub trait OptionResult<T>: Sized {
    /// The optional value this conversion starts from.
    spec fn as_option(self) -> Option<T>;

    fn result(self) -> (r: Result<T, String>)
        ensures
            r matches Ok(v) ==> self.as_option() == Some(v),
            r is Err ==> self.as_option() is None,
    ;

    fn result_reason(self, reason: &str) -> (r: Result<T, String>)
        ensures
            r matches Ok(v) ==> self.as_option() == Some(v),
            r matches Err(e) ==> self.as_option() is None && e@ == reason@,
    ;
}

impl<T> OptionResult<T> for Option<T> {
    open spec fn as_option(self) -> Option<T> {
        self
    }

    fn result(self) -> (r: Result<T, String>) {
        match self {
            Some(value) => Ok(value),
            None => Err(String::from_str("Option Unwrap")),
        }
    }

    fn result_reason(self, reason: &str) -> (r: Result<T, String>) {
        match self {
            Some(value) => Ok(value),
            None => Err(String::from_str(reason)),
        }
    }
}

/// The persisted journal of consecutive sign-in failures for one user.
#[derive(Clone, Debug, PartialEq)]
pub struct IncorrectCredentialsCount {
    pub retry_count: i32,
    pub error: Option<SignInFailure>,
    pub previous_password_hash: Option<u64>,
}

/// The journal never records a negative count.
pub open spec fn journal_wf(j: IncorrectCredentialsCount) -> bool {
    j.retry_count >= 0
}

/// The password hash has visibly changed: both a stored and a current
/// hash exist and they differ.
pub open spec fn spec_hash_changed(
    j: IncorrectCredentialsCount,
    current_password_hash: Option<u64>,
) -> bool {
    &&& j.previous_password_hash matches Some(p)
    &&& current_password_hash matches Some(c)
    &&& p != c
}

/// The resume decision for a journal that shows no password change,
/// taken over the count as recorded.  A journal with no recorded error
/// always proceeds; a recorded credentials failure blocks the run for
/// good; any other recorded failure proceeds exactly when the recorded
/// count is a multiple of the execution-reduce knob.
pub open spec fn spec_resume_reason(
    j: IncorrectCredentialsCount,
    execution_reduce: int,
) -> ResumeReason {
    match j.error {
        None => ResumeReason::Proceed,
        Some(SignInFailure::IncorrectCredentials) => ResumeReason::IncorrectCredentials,
        Some(_) => if j.retry_count as int % execution_reduce == 0 {
            ResumeReason::Proceed
        } else {
            ResumeReason::SigninFailureReduce
        },
    }
}

/// The count the journal holds after the pre-run check: an attempt made
/// against a journal with a recorded error is counted, whether it was let
/// through or skipped, so that the reduce knobs measure attempts; a
/// healthy journal's count stays at zero.
pub open spec fn spec_count_after_check(j: IncorrectCredentialsCount) -> int {
    if j.error is Some {
        j.retry_count + 1
    } else {
        j.retry_count as int
    }
}

impl IncorrectCredentialsCount {
    /// A fresh journal: no failures, nothing stored.
    pub fn new() -> (r: IncorrectCredentialsCount)
        ensures
            r.retry_count == 0,
            r.error is None,
            r.previous_password_hash is None,
            journal_wf(r),
    {
        IncorrectCredentialsCount { retry_count: 0, error: None, previous_password_hash: None }
    }

    /// The pre-run check: decide whether the coming run may proceed, and
    /// which reminder mail, if any, is owed.
    ///
    /// A changed password hash overrides everything and leaves the journal
    /// untouched.  A journal with no recorded error always proceeds and is
    /// not touched either.  With a recorded error, the decision and the
    /// mail both test the count as recorded: a credentials failure blocks
    /// the run until the password changes, any other failure proceeds
    /// exactly when the recorded count is a multiple of
    /// `signin_fail_execution_reduce`, and the reminder mail goes out
    /// exactly when it is a multiple of `signin_fail_mail_reduce`.
    /// Afterwards the attempt is counted, skipped or not: the knobs
    /// measure attempts, which is what lets a failing user through every
    /// so-manieth time.
    pub fn sign_in_failed_check(
        &mut self,
        signin_fail_execution_reduce: i32,
        signin_fail_mail_reduce: i32,
        current_password_hash: Option<u64>,
    ) -> (r: (ResumeReason, Vec<MailEvent>))
        requires
            journal_wf(*old(self)),
            old(self).retry_count < i32::MAX,
            signin_fail_execution_reduce >= 1,
            signin_fail_mail_reduce >= 1,
        ensures
            journal_wf(*final(self)),
            final(self).error == old(self).error,
            final(self).previous_password_hash == old(self).previous_password_hash,
            spec_hash_changed(*old(self), current_password_hash) ==> {
                &&& r.0 == ResumeReason::NewPassword
                &&& *final(self) == *old(self)
                &&& r.1@ =~= Seq::<MailEvent>::empty()
            },
            !spec_hash_changed(*old(self), current_password_hash) ==> {
                &&& r.0 == spec_resume_reason(*old(self), signin_fail_execution_reduce as int)
                &&& final(self).retry_count == spec_count_after_check(*old(self))
                &&& r.1@ =~= if old(self).error is Some && old(self).retry_count as int
                    % signin_fail_mail_reduce as int == 0 {
                    seq![MailEvent::SignInFailed(old(self).retry_count, false)]
                } else {
                    Seq::<MailEvent>::empty()
                }
            },
    {
        let mut mails: Vec<MailEvent> = Vec::new();
        if let (Some(previous), Some(current)) = (self.previous_password_hash, current_password_hash)
        {
            if previous != current {
                return (ResumeReason::NewPassword, mails);
            }
        }

        let return_value: ResumeReason = match &self.error {
            None => ResumeReason::Proceed,
            Some(SignInFailure::IncorrectCredentials) => ResumeReason::IncorrectCredentials,
            Some(_) => {
                if self.retry_count % signin_fail_execution_reduce == 0 {
                    ResumeReason::Proceed
                } else {
                    ResumeReason::SigninFailureReduce
                }
            },
        };

        if self.error.is_some() {
            if self.retry_count % signin_fail_mail_reduce == 0 {
                mails.push(MailEvent::SignInFailed(self.retry_count, false));
            }
            self.retry_count = self.retry_count + 1;
        }
        (return_value, mails)
    }

    /// The post-run update: record how the run's sign-in went.
    ///
    /// A failure stores the error and, on the first failure, starts the
    /// count and owes the first-failure mail; a success clears the journal
    /// and, where an error had been recorded, owes the recovery mail.  A
    /// run that was allowed through for a new password but failed on the
    /// credentials again owes the incorrect-new-password mail.  The
    /// current password hash is stored either way.
    pub fn update_signin_failure(
        &mut self,
        failed: bool,
        resume_reason: &ResumeReason,
        failure_type: Option<SignInFailure>,
        current_password_hash: Option<u64>,
    ) -> (mails: Vec<MailEvent>)
        requires
            journal_wf(*old(self)),
            old(self).retry_count < i32::MAX,
        ensures
            journal_wf(*final(self)),
            final(self).previous_password_hash == if current_password_hash is Some {
                current_password_hash
            } else {
                old(self).previous_password_hash
            },
            !failed ==> final(self).retry_count == 0 && final(self).error is None,
            failed ==> final(self).error == failure_type,
            failed ==> final(self).retry_count == if old(self).retry_count == 0 {
                1int
            } else {
                old(self).retry_count as int
            },
            mails@ =~= spec_update_mails(*old(self), failed, *resume_reason, failure_type),
    {
        let mut mails: Vec<MailEvent> = Vec::new();
        let new_password_attempt = match (&failure_type, resume_reason) {
            (Some(SignInFailure::IncorrectCredentials), ResumeReason::NewPassword) => true,
            _ => false,
        };
        if new_password_attempt {
            mails.push(MailEvent::IncorrectNewPassword);
        }

        if let Some(current) = current_password_hash {
            self.previous_password_hash = Some(current);
        }

        if failed {
            self.error = failure_type;
            if self.retry_count == 0 {
                self.retry_count = self.retry_count + 1;
                mails.push(MailEvent::SignInFailed(self.retry_count, true));
            }
        } else {
            if self.error.is_some() {
                mails.push(MailEvent::SignInRecovered);
            }
            self.retry_count = 0;
            self.error = None;
        }
        mails
    }
}

/// The mails the post-run update owes, in the order they are sent.
pub open spec fn spec_update_mails(
    j: IncorrectCredentialsCount,
    failed: bool,
    resume_reason: ResumeReason,
    failure_type: Option<SignInFailure>,
) -> Seq<MailEvent> {
    let head = if failure_type == Some(SignInFailure::IncorrectCredentials) && resume_reason
        == ResumeReason::NewPassword {
        seq![MailEvent::IncorrectNewPassword]
    } else {
        Seq::<MailEvent>::empty()
    };
    let tail = if failed {
        if j.retry_count == 0 {
            seq![MailEvent::SignInFailed(1, true)]
        } else {
            Seq::<MailEvent>::empty()
        }
    } else {
        if j.error is Some {
            seq![MailEvent::SignInRecovered]
        } else {
            Seq::<MailEvent>::empty()
        }
    };
    head + tail
}

/// A first failure on a journal with no running count owes the
/// first-failure mail exactly once, whatever else the update sends.
pub proof fn lemma_first_failure_mailed_once(
    j: IncorrectCredentialsCount,
    resume_reason: ResumeReason,
    failure_type: Option<SignInFailure>,
)
    requires
        j.retry_count == 0,
    ensures
        spec_update_mails(j, true, resume_reason, failure_type).filter(
            |m: MailEvent| m.is_first_signin_failure(),
        ).len() == 1,
{
    let mails = spec_update_mails(j, true, resume_reason, failure_type);
    let pred = |m: MailEvent| m.is_first_signin_failure();
    if failure_type == Some(SignInFailure::IncorrectCredentials) && resume_reason
        == ResumeReason::NewPassword {
        assert(mails =~= seq![
            MailEvent::IncorrectNewPassword,
            MailEvent::SignInFailed(1, true),
        ]);
        reveal_with_fuel(Seq::filter, 3);
        assert(mails.filter(pred) =~= seq![MailEvent::SignInFailed(1, true)]);
    } else {
        assert(mails =~= seq![MailEvent::SignInFailed(1, true)]);
        reveal_with_fuel(Seq::filter, 2);
        assert(mails.filter(pred) =~= seq![MailEvent::SignInFailed(1, true)]);
    }
}

} // verus!
