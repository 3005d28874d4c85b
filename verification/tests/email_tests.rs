use mijn_bussie::email::{
    DeletedReason, MailEvent, create_calendar_link, create_ical_filename,
    create_new_password_form_html, mail_enabled, send_emails,
};
use mijn_bussie::variables::UserProperties;
use mijn_bussie::shift::{Shift, ShiftState};

fn shift(number: &str, date: i64, magic: i64, state: ShiftState) -> Shift {
    Shift {
        number: number.to_owned(),
        date,
        start_minute: 6 * 60,
        end_minute: 14 * 60,
        duration_minutes: 8 * 60,
        magic_number: magic,
        state,
    }
}

const TODAY: i64 = 20_000;

#[test]
fn cold_start_marks_everything_new_without_mail() {
    let current = vec![shift("V2309", TODAY, 1, ShiftState::Unchanged)];
    let plan = send_emails(current, Vec::new(), TODAY, true, true, true);
    assert_eq!(plan.shifts.len(), 1);
    assert_eq!(plan.shifts[0].state, ShiftState::New);
    assert!(plan.new_shifts_mail.is_none());
    assert!(plan.updated_shifts_mail.is_none());
    assert!(plan.removed_shifts_mail.is_none());
}

#[test]
fn unchanged_shift_is_recognized_by_fingerprint() {
    let previous = vec![shift("V1", TODAY + 1, 10, ShiftState::Deleted)];
    let current = vec![shift("V1", TODAY + 1, 10, ShiftState::Unchanged)];
    let plan = send_emails(current, previous, TODAY, true, true, true);
    assert_eq!(plan.shifts.len(), 1);
    assert_eq!(plan.shifts[0].state, ShiftState::Unchanged);
    assert!(plan.new_shifts_mail.is_none());
    assert!(plan.removed_shifts_mail.is_none());
}

#[test]
fn new_fingerprint_on_known_day_is_a_change() {
    let previous = vec![shift("V1", TODAY + 1, 10, ShiftState::Deleted)];
    let current = vec![shift("V2", TODAY + 1, 20, ShiftState::Unchanged)];
    let plan = send_emails(current, previous, TODAY, true, true, true);
    assert_eq!(plan.shifts.len(), 1);
    assert_eq!(plan.shifts[0].state, ShiftState::Changed);
    assert_eq!(plan.shifts[0].magic_number, 20);
    let updated = plan.updated_shifts_mail.expect("update mail owed");
    assert_eq!(updated.len(), 1);
    assert_eq!(updated[0].number, "V2");
}

#[test]
fn unknown_day_is_a_new_shift() {
    let previous = vec![shift("V1", TODAY + 1, 10, ShiftState::Deleted)];
    let current = vec![
        shift("V1", TODAY + 1, 10, ShiftState::Unchanged),
        shift("V9", TODAY + 3, 90, ShiftState::Unchanged),
    ];
    let plan = send_emails(current, previous, TODAY, true, true, true);
    let new_mail = plan.new_shifts_mail.expect("new mail owed");
    assert_eq!(new_mail.len(), 1);
    assert_eq!(new_mail[0].number, "V9");
    assert_eq!(plan.shifts.len(), 2);
}

#[test]
fn vanished_shift_is_dropped_and_announced() {
    let previous = vec![
        shift("V1", TODAY + 1, 10, ShiftState::Deleted),
        shift("V2", TODAY + 2, 20, ShiftState::Deleted),
    ];
    let current = vec![shift("V1", TODAY + 1, 10, ShiftState::Unchanged)];
    let plan = send_emails(current, previous, TODAY, true, true, true);
    assert_eq!(plan.shifts.len(), 1);
    assert_eq!(plan.shifts[0].number, "V1");
    let removed = plan.removed_shifts_mail.expect("removal mail owed");
    assert_eq!(removed.len(), 1);
    assert_eq!(removed[0].number, "V2");
}

#[test]
fn disabled_mail_kinds_stay_silent() {
    let previous = vec![shift("V1", TODAY + 1, 10, ShiftState::Deleted)];
    let current = vec![shift("V9", TODAY + 3, 90, ShiftState::Unchanged)];
    let plan = send_emails(current, previous, TODAY, false, false, false);
    assert!(plan.new_shifts_mail.is_none());
    assert!(plan.updated_shifts_mail.is_none());
    assert!(plan.removed_shifts_mail.is_none());
}

#[test]
fn past_shifts_are_not_announced() {
    // A shift that vanished in the past is dropped silently.
    let previous = vec![shift("V1", TODAY - 5, 10, ShiftState::Deleted)];
    let current: Vec<Shift> = vec![shift("V9", TODAY - 3, 90, ShiftState::Unchanged)];
    let plan = send_emails(current, previous, TODAY, true, true, true);
    assert!(plan.new_shifts_mail.is_none());
    assert!(plan.removed_shifts_mail.is_none());
}

#[test]
fn calendar_link_joins_domain_and_file() {
    assert_eq!(
        create_calendar_link("https://cal.example/", "alice.ics"),
        "https://cal.example/alice.ics"
    );
    assert_eq!(
        create_calendar_link("https://cal.example", "alice.ics"),
        "https://cal.example/alice.ics"
    );
}

#[test]
fn ical_filename_prefers_the_chosen_name() {
    assert_eq!(create_ical_filename("alice", ""), "alice.ics");
    assert_eq!(create_ical_filename("alice", "rooster"), "rooster.ics");
}

#[test]
fn password_form_embeds_the_link() {
    let html = create_new_password_form_html("https://reset.example/x");
    assert!(html.contains("href=\"https://reset.example/x\""));
    assert!(html.contains(">https://reset.example/x</a>"));
}

#[test]
fn deleted_reason_texts_differ() {
    let old_age = DeletedReason::OldAge.to_str();
    let new_dead = DeletedReason::NewDead.to_str();
    let manual = DeletedReason::Manual.to_str();
    assert_ne!(old_age, new_dead);
    assert_ne!(old_age, manual);
    assert!(old_age.contains("maand"));
}

#[test]
fn mail_gating_honours_the_flags() {
    let props = UserProperties {
        execution_interval_minutes: 60,
        execution_minute: 0,
        auto_delete_account: false,
        send_mail_new_shift: false,
        send_mail_updated_shift: true,
        send_mail_removed_shift: false,
        send_welcome_mail: false,
        send_failed_signin_mail: false,
        send_error_mail: true,
    };
    assert!(!mail_enabled(&MailEvent::NewShifts(Vec::new()), &props));
    assert!(mail_enabled(&MailEvent::UpdatedShifts(Vec::new()), &props));
    assert!(!mail_enabled(&MailEvent::Welcome(false), &props));
    assert!(mail_enabled(&MailEvent::Welcome(true), &props));
    assert!(mail_enabled(&MailEvent::DeletionWarning, &props));
    assert!(!mail_enabled(&MailEvent::SignInRecovered, &props));
    assert!(mail_enabled(&MailEvent::OperatorErrors(Vec::new()), &props));
}
