use mijn_bussie::errors::FailureType;
use mijn_bussie::health::{ApplicationLogbook, update_calendar_exit_code};
use mijn_bussie::kuma::{KumaAction, KumaUserRequest};
use mijn_bussie::variables::check_env_permissions;
use mijn_bussie::watchdog::{WatchdogRequest, WatchdogStep, watchdog};

#[test]
fn logbook_records_state_and_statistics() {
    let mut logbook = ApplicationLogbook::new();
    assert_eq!(logbook.state, FailureType::OK);
    logbook.generate_shift_statistics(12, 3);
    logbook.save_state(FailureType::ConnectError);
    assert_eq!(logbook.relevant_shifts, 12);
    assert_eq!(logbook.non_relevant_shifts, 3);
    assert_eq!(logbook.state, FailureType::ConnectError);
    assert_eq!(logbook.dup(), logbook);
}

#[test]
fn calendar_patch_rewrites_only_the_status_line() {
    let mut lines = vec![
        "BEGIN:VCALENDAR".to_owned(),
        "X-WR-CALDESC:status=OK".to_owned(),
        "BEGIN:VEVENT".to_owned(),
        "END:VCALENDAR".to_owned(),
    ];
    let patched = update_calendar_exit_code(&mut lines, "X-WR-CALDESC:", "status=ConnectError");
    assert!(patched);
    assert_eq!(lines[1], "X-WR-CALDESC:status=ConnectError");
    assert_eq!(lines[0], "BEGIN:VCALENDAR");
    assert_eq!(lines[2], "BEGIN:VEVENT");
    assert_eq!(lines.len(), 4);
}

#[test]
fn calendar_patch_without_field_changes_nothing() {
    let mut lines = vec!["BEGIN:VCALENDAR".to_owned(), "END:VCALENDAR".to_owned()];
    let before = lines.clone();
    let patched = update_calendar_exit_code(&mut lines, "X-WR-CALDESC:", "status=OK");
    assert!(!patched);
    assert_eq!(lines, before);
}

#[test]
fn calendar_patch_rewrites_the_first_match_only() {
    let mut lines = vec!["X:1".to_owned(), "X:2".to_owned()];
    update_calendar_exit_code(&mut lines, "X:", "9");
    assert_eq!(lines, vec!["X:9".to_owned(), "X:2".to_owned()]);
}

#[test]
fn watchdog_wakeups_are_classified() {
    assert_eq!(
        watchdog(Some(WatchdogRequest::SingleUser("alice".to_owned()))),
        WatchdogStep::RefreshOne("alice".to_owned())
    );
    assert_eq!(
        watchdog(Some(WatchdogRequest::KumaRequest(KumaAction::Delete, KumaUserRequest::All))),
        WatchdogStep::MonitorCommand(KumaAction::Delete, KumaUserRequest::All)
    );
    assert_eq!(watchdog(Some(WatchdogRequest::AllUser)), WatchdogStep::FullReconcile(false));
    assert_eq!(watchdog(Some(WatchdogRequest::FirstRun)), WatchdogStep::FullReconcile(true));
    assert_eq!(watchdog(None), WatchdogStep::FullReconcile(false));
}

#[test]
fn env_file_permissions_are_strict() {
    assert!(check_env_permissions(0o100600, 1000, 1000));
    assert!(!check_env_permissions(0o100644, 1000, 1000));
    assert!(!check_env_permissions(0o100600, 0, 1000));
}
