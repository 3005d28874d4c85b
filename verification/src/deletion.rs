//! Account lifecycle policy: standing computation and auto-deletion.
//!
//! A user whose sign-ins keep failing is first warned and eventually
//! deleted; a fresh account that never signs in successfully is deleted
//! after a day.  The standing computation is a pure function of the user
//! row and the clock; the check turns a standing into the actions the
//! caller owes (marker file changes, mails, the deletion itself).

use vstd::prelude::*;
use crate::email::{DeletedReason, MailEvent};
use crate::variables::ts_wf;

verus! {

/// Minutes of sign-in silence after which an account is deleted.
pub const AUTO_DELETE_MINUTES: i64 = 31 * 24 * 60;

/// Minutes of sign-in silence after which the user is warned.
pub const WARNING_MINUTES: i64 = 24 * 24 * 60;

/// Minutes a fresh account may stay without one successful sign-in.
pub const FRESH_GRACE_MINUTES: i64 = 24 * 60;

/// How close a user stands to auto-deletion.
#[derive(Clone, Copy, Debug, PartialEq, Eq, Structural)]
pub enum InstanceStanding {
    /// Auto-deletion is off, or the last run signed in successfully.
    Safe,
    /// Never signed in successfully, still within the first day.
    Fresh,
    /// Sign-ins have been failing, but the warning window is not reached.
    InDanger,
    /// Warned: one week remains before deletion.
    AlmostDeleted,
    /// Silent too long: delete now.
    MustDelete,
    /// Fresh and dead for a day: delete now.
    MustDeleteFresh,
}

/// The standing of a user at a given time, as a pure function of the row.
pub open spec fn spec_standing(
    auto_delete_account: bool,
    last_success: Option<i64>,
    last_execution: Option<i64>,
    creation: int,
    now: int,
) -> InstanceStanding {
    if !auto_delete_account {
        InstanceStanding::Safe
    } else {
        match last_success {
            Some(s) => if last_execution == Some(s) {
                InstanceStanding::Safe
            } else if now - s >= AUTO_DELETE_MINUTES {
                InstanceStanding::MustDelete
            } else if now - s >= WARNING_MINUTES {
                InstanceStanding::AlmostDeleted
            } else {
                InstanceStanding::InDanger
            },
            None => if now - creation >= FRESH_GRACE_MINUTES {
                InstanceStanding::MustDeleteFresh
            } else {
                InstanceStanding::Fresh
            },
        }
    }
}

/// Compute how close a user stands to auto-deletion.
pub fn compute_standing(
    auto_delete_account: bool,
    last_success: Option<i64>,
    last_execution: Option<i64>,
    creation: i64,
    now: i64,
) -> (r: InstanceStanding)
    requires
        ts_wf(creation),
        ts_wf(now),
        last_success matches Some(t) ==> ts_wf(t),
        last_execution matches Some(t) ==> ts_wf(t),
    ensures
        r == spec_standing(
            auto_delete_account,
            last_success,
            last_execution,
            creation as int,
            now as int,
        ),
{
    if !auto_delete_account {
        return InstanceStanding::Safe;
    }
    match last_success {
        Some(s) => {
            let executed_last = match last_execution {
                Some(e) => e == s,
                None => false,
            };
            if executed_last {
                InstanceStanding::Safe
            } else if now - s >= AUTO_DELETE_MINUTES {
                InstanceStanding::MustDelete
            } else if now - s >= WARNING_MINUTES {
                InstanceStanding::AlmostDeleted
            } else {
                InstanceStanding::InDanger
            }
        },
        None => {
            if now - creation >= FRESH_GRACE_MINUTES {
                InstanceStanding::MustDeleteFresh
            } else {
                InstanceStanding::Fresh
            }
        },
    }
}

/// The standing computation is pure: equal inputs give equal results.
pub proof fn lemma_compute_standing_pure(
    auto_delete_a: bool,
    last_success_a: Option<i64>,
    last_execution_a: Option<i64>,
    creation_a: int,
    now_a: int,
    auto_delete_b: bool,
    last_success_b: Option<i64>,
    last_execution_b: Option<i64>,
    creation_b: int,
    now_b: int,
)
    requires
        auto_delete_a == auto_delete_b,
        last_success_a == last_success_b,
        last_execution_a == last_execution_b,
        creation_a == creation_b,
        now_a == now_b,
    ensures
        spec_standing(auto_delete_a, last_success_a, last_execution_a, creation_a, now_a)
            == spec_standing(auto_delete_b, last_success_b, last_execution_b, creation_b, now_b),
{
}

/// What the standing query reports to a caller: the standing itself, and
/// where auto-deletion is armed, the minutes left until it (negative when
/// the bound has passed).
#[derive(Clone, Copy, Debug, PartialEq, Eq, Structural)]
pub struct StandingInformation {
    pub standing: InstanceStanding,
    pub minutes_until_deletion: Option<i64>,
}

/// The standing report as a pure function of the user row and the clock.
pub open spec fn spec_standing_information(
    auto_delete_account: bool,
    last_success: Option<i64>,
    last_execution: Option<i64>,
    creation: i64,
    now: i64,
) -> StandingInformation {
    StandingInformation {
        standing: spec_standing(
            auto_delete_account,
            last_success,
            last_execution,
            creation as int,
            now as int,
        ),
        minutes_until_deletion: if !auto_delete_account {
            None
        } else {
            match last_success {
                Some(s) => Some((AUTO_DELETE_MINUTES - (now - s)) as i64),
                None => Some((FRESH_GRACE_MINUTES - (now - creation)) as i64),
            }
        },
    }
}

/// Report a user's standing and the minutes left until auto-deletion.
pub fn standing_information(
    auto_delete_account: bool,
    last_success: Option<i64>,
    last_execution: Option<i64>,
    creation: i64,
    now: i64,
) -> (r: StandingInformation)
    requires
        ts_wf(creation),
        ts_wf(now),
        last_success matches Some(t) ==> ts_wf(t),
        last_execution matches Some(t) ==> ts_wf(t),
    ensures
        r == spec_standing_information(auto_delete_account, last_success, last_execution, creation, now),
{
    let standing = compute_standing(auto_delete_account, last_success, last_execution, creation, now);
    let minutes_until_deletion: Option<i64> = if !auto_delete_account {
        None
    } else {
        match last_success {
            Some(s) => Some(AUTO_DELETE_MINUTES - (now - s)),
            None => Some(FRESH_GRACE_MINUTES - (now - creation)),
        }
    };
    StandingInformation { standing, minutes_until_deletion }
}

/// What a standing check asks of its caller.
#[derive(Clone, Debug, PartialEq)]
pub struct StandingCheck {
    /// The instance must be deleted and its actor stopped.
    pub terminate: bool,
    /// With what reason the account is deleted, where it is.
    pub delete_reason: Option<DeletedReason>,
    /// The warning marker file must be removed.
    pub remove_warning_marker: bool,
    /// The warning marker file must be created.
    pub create_warning_marker: bool,
    /// The mails owed, in order.
    pub mails: Vec<MailEvent>,
}

/// Turn a standing into the actions the caller owes.
///
/// A safe user's stale warning marker is removed; a user in the warning
/// window is warned once, tracked by the marker file; a user past either
/// deletion bound is deleted, with the account-deleted mail.
pub fn check_instance_standing(standing: InstanceStanding, warning_marker_exists: bool) -> (r:
    StandingCheck)
    ensures
        r.terminate == (standing == InstanceStanding::MustDelete || standing
            == InstanceStanding::MustDeleteFresh),
        r.delete_reason == (if standing == InstanceStanding::MustDelete {
            Some(DeletedReason::OldAge)
        } else if standing == InstanceStanding::MustDeleteFresh {
            Some(DeletedReason::NewDead)
        } else {
            None::<DeletedReason>
        }),
        r.remove_warning_marker == (standing == InstanceStanding::Safe && warning_marker_exists),
        r.create_warning_marker == (standing == InstanceStanding::AlmostDeleted
            && !warning_marker_exists),
        r.mails@ =~= spec_standing_mails(standing, warning_marker_exists),
{
    match standing {
        InstanceStanding::Safe => StandingCheck {
            terminate: false,
            delete_reason: None,
            remove_warning_marker: warning_marker_exists,
            create_warning_marker: false,
            mails: Vec::new(),
        },
        InstanceStanding::AlmostDeleted => {
            let mut mails: Vec<MailEvent> = Vec::new();
            if !warning_marker_exists {
                mails.push(MailEvent::DeletionWarning);
            }
            StandingCheck {
                terminate: false,
                delete_reason: None,
                remove_warning_marker: false,
                create_warning_marker: !warning_marker_exists,
                mails,
            }
        },
        InstanceStanding::MustDelete => {
            let mut mails: Vec<MailEvent> = Vec::new();
            mails.push(MailEvent::AccountDeleted(DeletedReason::OldAge));
            StandingCheck {
                terminate: true,
                delete_reason: Some(DeletedReason::OldAge),
                remove_warning_marker: false,
                create_warning_marker: false,
                mails,
            }
        },
        InstanceStanding::MustDeleteFresh => {
            let mut mails: Vec<MailEvent> = Vec::new();
            mails.push(MailEvent::AccountDeleted(DeletedReason::NewDead));
            StandingCheck {
                terminate: true,
                delete_reason: Some(DeletedReason::NewDead),
                remove_warning_marker: false,
                create_warning_marker: false,
                mails,
            }
        },
        _ => StandingCheck {
            terminate: false,
            delete_reason: None,
            remove_warning_marker: false,
            create_warning_marker: false,
            mails: Vec::new(),
        },
    }
}

/// The mails a standing check owes.
pub open spec fn spec_standing_mails(
    standing: InstanceStanding,
    warning_marker_exists: bool,
) -> Seq<MailEvent> {
    match standing {
        InstanceStanding::AlmostDeleted => if warning_marker_exists {
            Seq::<MailEvent>::empty()
        } else {
            seq![MailEvent::DeletionWarning]
        },
        InstanceStanding::MustDelete => seq![MailEvent::AccountDeleted(DeletedReason::OldAge)],
        InstanceStanding::MustDeleteFresh => seq![
            MailEvent::AccountDeleted(DeletedReason::NewDead),
        ],
        _ => Seq::<MailEvent>::empty(),
    }
}

} // verus!
