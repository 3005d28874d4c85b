use mijn_bussie::errors::FailureType;
use mijn_bussie::timer::{
    TimeOfDay, calculate_first_execution_time_simple, calculate_initial_execution_time,
    calculate_next_execution_time, execution_timer, is_due,
};
use mijn_bussie::variables::{
    GeneralProperties, KumaProperties, UserData, UserProperties,
};
use mijn_bussie::secret::Secret;
use mijn_bussie::watchdog::{Fleet, UserInstance};

fn timer_user(name: &str, interval: i32, minute: i32) -> UserData {
    UserData {
        id: 1,
        user_name: name.to_owned(),
        personeelsnummer: "100001".to_owned(),
        password: Secret::new("pw".to_owned()),
        email: Secret::new("a@b.c".to_owned()),
        name: None,
        file_name: String::new(),
        creation_date: 1_000_000,
        last_execution_date: None,
        last_successful_sign_in_date: None,
        last_system_execution_date: None,
        user_properties: UserProperties {
            execution_interval_minutes: interval,
            execution_minute: minute,
            auto_delete_account: false,
            send_mail_new_shift: true,
            send_mail_updated_shift: true,
            send_mail_removed_shift: true,
            send_welcome_mail: true,
            send_failed_signin_mail: true,
            send_error_mail: true,
        },
        custom_general_properties: None,
    }
}

fn timer_properties() -> GeneralProperties {
    GeneralProperties {
        general_properties_id: 1,
        file_target: "/data".to_owned(),
        ical_domain: "https://cal.example/".to_owned(),
        webcal_domain: String::new(),
        pdf_shift_domain: String::new(),
        signin_fail_execution_reduce: 3,
        signin_fail_mail_reduce: 5,
        expected_execution_time_seconds: 120,
        execution_retry_count: 3,
        support_mail: "support@example".to_owned(),
        password_reset_link: "https://reset.example".to_owned(),
        sign_up_url: "https://signup.example".to_owned(),
        kuma_properties: KumaProperties {
            domain: "https://kuma.example".to_owned(),
            username: "admin".to_owned(),
            password: "SECRET-REDACTED".to_owned(),
            hearbeat_retry: 3,
            offline_mail_resend_hours: 12,
            mail_port: 587,
            use_ssl: true,
        },
    }
}

#[test]
fn replan_normalizes_minute() {
    // The re-plan rule always lands on the user's execution minute.
    let now = TimeOfDay::new(13, 37);
    let planned = calculate_next_execution_time(now, 90, 15);
    assert_eq!(planned.minute, 15);
    assert_eq!(planned.hour, 14);
}

#[test]
fn replan_full_day_wraps() {
    // A daily interval comes back to the same hour, minute normalized.
    let now = TimeOfDay::new(13, 37);
    let planned = calculate_next_execution_time(now, 1440, 5);
    assert_eq!(planned.hour, 13);
    assert_eq!(planned.minute, 5);
}

#[test]
fn replan_short_interval_advances_one_hour() {
    let now = TimeOfDay::new(23, 59);
    let planned = calculate_next_execution_time(now, 1, 59);
    assert_eq!(planned.hour, 0);
    assert_eq!(planned.minute, 59);
}

#[test]
fn first_plan_boundary_minute() {
    // interval 1 min, execution minute 59, clock at :59 - the plan stays
    // in the current or next hour, at :59 or at the next minute (wrapped).
    let now = TimeOfDay::new(10, 59);
    for _ in 0..50 {
        let planned = calculate_first_execution_time_simple(now, 1, 59);
        assert!(planned.hour == 10 || planned.hour == 11);
        assert!(planned.minute == 59 || planned.minute == 0);
    }
}

#[test]
fn first_plan_daily_interval_saturates_at_two_hours() {
    let now = TimeOfDay::new(6, 10);
    for _ in 0..50 {
        let planned = calculate_first_execution_time_simple(now, 1440, 30);
        assert!(planned.hour == 6 || planned.hour == 7 || planned.hour == 8);
        assert!(planned.minute == 30 || planned.minute == 11);
    }
}

#[test]
fn initial_plan_restores_cadence() {
    // Last system execution 30 minutes ago, interval one hour: the next
    // run comes 30 minutes from now.
    let now = TimeOfDay::new(9, 0);
    let planned = calculate_initial_execution_time(Some(30), 60, 45, now);
    assert_eq!(planned.hour, 9);
    assert_eq!(planned.minute, 30);
}

#[test]
fn initial_plan_expired_window_falls_back() {
    let now = TimeOfDay::new(9, 0);
    let planned = calculate_initial_execution_time(Some(600), 60, 45, now);
    assert!(planned.hour == 9 || planned.hour == 10);
    assert!(planned.minute == 45 || planned.minute == 1);
}

#[test]
fn due_matches_hour_and_minute() {
    assert!(is_due(TimeOfDay::new(9, 30), TimeOfDay::new(9, 30)));
    assert!(!is_due(TimeOfDay::new(9, 30), TimeOfDay::new(9, 31)));
    assert!(!is_due(TimeOfDay::new(8, 30), TimeOfDay::new(9, 30)));
}

#[test]
fn scheduler_tick_starts_due_instance_and_replans() {
    let mut fleet = Fleet::new();
    let due_instance = UserInstance::new(
        timer_user("alice", 60, 45),
        timer_properties(),
        TimeOfDay::new(9, 30),
    );
    let idle_instance = UserInstance::new(
        timer_user("bob", 60, 45),
        timer_properties(),
        TimeOfDay::new(11, 0),
    );
    fleet.instances.push(due_instance);
    fleet.instances.push(idle_instance);

    let due = execution_timer(&mut fleet, TimeOfDay::new(9, 30));
    assert_eq!(due, vec!["alice".to_owned()]);
    // alice was re-planned one interval ahead, minute normalized.
    assert_eq!(fleet.instances[0].execution_time.hour, 10);
    assert_eq!(fleet.instances[0].execution_time.minute, 45);
    // bob is untouched.
    assert_eq!(fleet.instances[1].execution_time.hour, 11);
    assert_eq!(fleet.instances[1].execution_time.minute, 0);
    assert_eq!(fleet.instances[1].last_exit_code, FailureType::OK);
}
