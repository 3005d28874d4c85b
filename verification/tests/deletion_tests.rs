use mijn_bussie::deletion::{
    AUTO_DELETE_MINUTES, FRESH_GRACE_MINUTES, InstanceStanding, WARNING_MINUTES,
    check_instance_standing, compute_standing, standing_information,
};
use mijn_bussie::email::{DeletedReason, MailEvent};

const NOW: i64 = 40 * 24 * 60 * 365;

#[test]
fn standing_safe_without_auto_delete() {
    let r = compute_standing(false, Some(NOW - AUTO_DELETE_MINUTES - 1), None, 0, NOW);
    assert_eq!(r, InstanceStanding::Safe);
}

#[test]
fn standing_safe_when_last_run_signed_in() {
    let t = NOW - 100;
    let r = compute_standing(true, Some(t), Some(t), 0, NOW);
    assert_eq!(r, InstanceStanding::Safe);
}

#[test]
fn standing_thirty_one_days_of_silence_deletes() {
    // 31 days without a successful sign-in: the account must go.
    let r = compute_standing(true, Some(NOW - 31 * 24 * 60), Some(NOW - 5), 0, NOW);
    assert_eq!(r, InstanceStanding::MustDelete);
}

#[test]
fn standing_warning_window() {
    let r = compute_standing(true, Some(NOW - WARNING_MINUTES), Some(NOW - 5), 0, NOW);
    assert_eq!(r, InstanceStanding::AlmostDeleted);
    let r = compute_standing(true, Some(NOW - WARNING_MINUTES + 1), Some(NOW - 5), 0, NOW);
    assert_eq!(r, InstanceStanding::InDanger);
}

#[test]
fn standing_fresh_user_dead_after_a_day() {
    // Created 25 hours ago, never signed in successfully.
    let r = compute_standing(true, None, Some(NOW - 5), NOW - 25 * 60, NOW);
    assert_eq!(r, InstanceStanding::MustDeleteFresh);
    let r = compute_standing(true, None, None, NOW - FRESH_GRACE_MINUTES + 1, NOW);
    assert_eq!(r, InstanceStanding::Fresh);
}

#[test]
fn standing_is_pure() {
    // Two calls on identical inputs agree.
    let a = compute_standing(true, Some(NOW - 999), Some(NOW - 5), 17, NOW);
    let b = compute_standing(true, Some(NOW - 999), Some(NOW - 5), 17, NOW);
    assert_eq!(a, b);
}

#[test]
fn check_must_delete_emits_deletion() {
    let check = check_instance_standing(InstanceStanding::MustDelete, false);
    assert!(check.terminate);
    assert_eq!(check.delete_reason, Some(DeletedReason::OldAge));
    assert_eq!(check.mails, vec![MailEvent::AccountDeleted(DeletedReason::OldAge)]);
}

#[test]
fn check_fresh_dead_emits_deletion() {
    let check = check_instance_standing(InstanceStanding::MustDeleteFresh, true);
    assert!(check.terminate);
    assert_eq!(check.delete_reason, Some(DeletedReason::NewDead));
    assert_eq!(check.mails, vec![MailEvent::AccountDeleted(DeletedReason::NewDead)]);
}

#[test]
fn check_warning_is_sent_once() {
    let first = check_instance_standing(InstanceStanding::AlmostDeleted, false);
    assert!(!first.terminate);
    assert!(first.create_warning_marker);
    assert_eq!(first.mails, vec![MailEvent::DeletionWarning]);

    let again = check_instance_standing(InstanceStanding::AlmostDeleted, true);
    assert!(!again.create_warning_marker);
    assert!(again.mails.is_empty());
}

#[test]
fn check_safe_clears_stale_marker() {
    let check = check_instance_standing(InstanceStanding::Safe, true);
    assert!(check.remove_warning_marker);
    assert!(!check.terminate);
    assert!(check.mails.is_empty());
}

#[test]
fn standing_report_counts_down() {
    let info = standing_information(true, Some(NOW - 10 * 24 * 60), Some(NOW - 5), 0, NOW);
    assert_eq!(info.standing, InstanceStanding::InDanger);
    assert_eq!(info.minutes_until_deletion, Some(21 * 24 * 60));
    let off = standing_information(false, Some(NOW - 10), None, 0, NOW);
    assert_eq!(off.minutes_until_deletion, None);
}
