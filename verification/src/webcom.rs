//! The control flow of one portal run.
//!
//! A run is a bounded retry loop around the scraping work: transient
//! errors are retried up to the configured count, a refused sign-in or an
//! unreachable portal ends the run at once, and a run blocked by the
//! sign-in journal is skipped with the blocking failure as its exit code.
//! The browser work itself happens outside; this state machine decides,
//! after every attempt, whether to try again and with which exit code the
//! run ends.

use vstd::prelude::*;
use crate::errors::{FailureType, SignInFailure};

verus! {

/// How one attempt of the scraping work came back.
#[derive(Clone, Debug, PartialEq)]
pub enum RunOutcome {
    /// The attempt completed; shifts were harvested.
    Success,
    /// The portal refused the sign-in: the run ends at once.
    SignInFailed(SignInFailure),
    /// The portal cannot be reached: the run ends at once.
    ConnectError,
    /// Anything else; worth another attempt.
    TransientError,
}

/// The state of one run's retry loop.
#[derive(Clone, Debug, PartialEq)]
pub struct ExecutionSession {
    /// Attempts the run may use, from the configured retry count.
    pub max_retries: u32,
    /// Attempts used; the run is over once this reaches `max_retries`.
    pub retry_count: u32,
    /// The exit code as known so far.
    pub current_exit: FailureType,
    /// Transient errors collected across the attempts.
    pub error_count: u32,
}

impl ExecutionSession {
    pub open spec fn wf(self) -> bool {
        &&& self.retry_count <= self.max_retries
        &&& self.error_count <= self.retry_count
    }

    /// Whether another attempt is owed.
    pub open spec fn spec_should_run(self) -> bool {
        self.retry_count < self.max_retries
    }

    /// Open a run.  A sign-in failure carried over from the journal
    /// blocks the run unless it was forced: the run then makes no attempt
    /// and exits with that failure.
    pub fn new(max_retries: u32, skip_failure: Option<SignInFailure>, force: bool) -> (r:
        ExecutionSession)
        ensures
            r.wf(),
            r.max_retries == max_retries,
            r.error_count == 0,
            match skip_failure {
                Some(f) => if force {
                    r.retry_count == 0 && r.current_exit == FailureType::OK
                } else {
                    r.retry_count == max_retries && r.current_exit == FailureType::SignInFailed(f)
                },
                None => r.retry_count == 0 && r.current_exit == FailureType::OK,
            },
    {
        match skip_failure {
            Some(failure) if !force => ExecutionSession {
                max_retries,
                retry_count: max_retries,
                current_exit: FailureType::SignInFailed(failure),
                error_count: 0,
            },
            _ => ExecutionSession {
                max_retries,
                retry_count: 0,
                current_exit: FailureType::OK,
                error_count: 0,
            },
        }
    }

    /// Whether another attempt is owed.
    pub fn should_run(&self) -> (r: bool)
        ensures
            r == self.spec_should_run(),
    {
        self.retry_count < self.max_retries
    }

    /// Record one attempt.  Success and the two terminal failures end the
    /// loop; a transient error uses up one attempt and is counted.
    pub fn record(&mut self, outcome: RunOutcome)
        requires
            old(self).wf(),
            old(self).spec_should_run(),
        ensures
            final(self).wf(),
            final(self).max_retries == old(self).max_retries,
            match outcome {
                RunOutcome::Success => {
                    &&& final(self).retry_count == old(self).max_retries
                    &&& final(self).current_exit == old(self).current_exit
                    &&& final(self).error_count == old(self).error_count
                },
                RunOutcome::SignInFailed(f) => {
                    &&& final(self).retry_count == old(self).max_retries
                    &&& final(self).current_exit == FailureType::SignInFailed(f)
                    &&& final(self).error_count == old(self).error_count
                },
                RunOutcome::ConnectError => {
                    &&& final(self).retry_count == old(self).max_retries
                    &&& final(self).current_exit == FailureType::ConnectError
                    &&& final(self).error_count == old(self).error_count
                },
                RunOutcome::TransientError => {
                    &&& final(self).retry_count == old(self).retry_count + 1
                    &&& final(self).current_exit == old(self).current_exit
                    &&& final(self).error_count == old(self).error_count + 1
                },
            },
    {
        match outcome {
            RunOutcome::Success => {
                self.retry_count = self.max_retries;
            },
            RunOutcome::SignInFailed(failure) => {
                self.retry_count = self.max_retries;
                self.current_exit = FailureType::SignInFailed(failure);
            },
            RunOutcome::ConnectError => {
                self.retry_count = self.max_retries;
                self.current_exit = FailureType::ConnectError;
            },
            RunOutcome::TransientError => {
                self.retry_count = self.retry_count + 1;
                self.error_count = self.error_count + 1;
            },
        }
    }

    /// Close the run: when every attempt ended in a transient error the
    /// run has exceeded its tries, which is also the one exit that sends
    /// the collected errors to the operator; a browser that could not
    /// even be shut down overrides the exit code.
    pub fn finish(&self, driver_quit_failed: bool) -> (r: (FailureType, bool))
        requires
            self.wf(),
            !self.spec_should_run(),
        ensures
            r.1 == (self.error_count > 0 && self.error_count >= self.max_retries),
            r.0 == (if driver_quit_failed {
                FailureType::GeckoEngine
            } else if self.error_count > 0 && self.error_count >= self.max_retries {
                FailureType::TriesExceeded
            } else {
                self.current_exit
            }),
    {
        let tries_exceeded = self.error_count > 0 && self.error_count >= self.max_retries;
        let exit = if driver_quit_failed {
            FailureType::GeckoEngine
        } else if tries_exceeded {
            FailureType::TriesExceeded
        } else {
            self.current_exit.dup()
        };
        (exit, tries_exceeded)
    }
}

} // verus!
