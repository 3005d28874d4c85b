use mijn_bussie::email::{DeletedReason, MailEvent};
use mijn_bussie::errors::{FailureType, SignInFailure};
use mijn_bussie::health::ApplicationLogbook;
use mijn_bussie::kuma::{EntryKind, MonitorDirectory};
use mijn_bussie::secret::Secret;
use mijn_bussie::timer::{StartRequest, TimeOfDay};
use mijn_bussie::variables::{GeneralProperties, KumaProperties, UserData, UserProperties};
use mijn_bussie::watchdog::{
    Fleet, InstanceAction, InstanceContext, RequestResponse, UserInstance,
    start_stop_instances, update_instance_timestamps,
};

const NOW: i64 = 29_000_000;

fn wd_user(name: &str) -> UserData {
    UserData {
        id: 7,
        user_name: name.to_owned(),
        personeelsnummer: "100100".to_owned(),
        password: Secret::new("pw".to_owned()),
        email: Secret::new("user@example".to_owned()),
        name: None,
        file_name: String::new(),
        creation_date: NOW - 100_000,
        last_execution_date: Some(NOW - 60),
        last_successful_sign_in_date: Some(NOW - 60),
        last_system_execution_date: Some(NOW - 60),
        user_properties: UserProperties {
            execution_interval_minutes: 60,
            execution_minute: 15,
            auto_delete_account: true,
            send_mail_new_shift: true,
            send_mail_updated_shift: true,
            send_mail_removed_shift: true,
            send_welcome_mail: true,
            send_failed_signin_mail: true,
            send_error_mail: true,
        },
        custom_general_properties: None,
    }
}

fn wd_properties() -> GeneralProperties {
    GeneralProperties {
        general_properties_id: 1,
        file_target: "/data".to_owned(),
        ical_domain: "https://cal.example/".to_owned(),
        webcal_domain: String::new(),
        pdf_shift_domain: String::new(),
        signin_fail_execution_reduce: 3,
        signin_fail_mail_reduce: 5,
        expected_execution_time_seconds: 120,
        execution_retry_count: 3,
        support_mail: "support@example".to_owned(),
        password_reset_link: "https://reset.example".to_owned(),
        sign_up_url: "https://signup.example".to_owned(),
        kuma_properties: KumaProperties {
            domain: "https://kuma.example".to_owned(),
            username: "admin".to_owned(),
            password: "SECRET-REDACTED".to_owned(),
            hearbeat_retry: 3,
            offline_mail_resend_hours: 12,
            mail_port: 587,
            use_ssl: true,
        },
    }
}

fn wd_instance(name: &str) -> UserInstance {
    UserInstance::new(wd_user(name), wd_properties(), TimeOfDay::new(9, 15))
}

fn wd_ctx() -> InstanceContext {
    InstanceContext {
        now_minutes: NOW,
        warning_marker_exists: false,
        cached_name: None,
        logbook: ApplicationLogbook::new(),
    }
}

#[test]
fn start_while_running_spawns_nothing() {
    // The instance is running: an API start answers `false` and no new
    // scraper is spawned; a timer tick on top of that spawns nothing
    // either.
    let mut inst = wd_instance("alice");
    let (_, actions) = inst.handle_request(StartRequest::Api, &wd_ctx());
    assert_eq!(actions, vec![InstanceAction::SpawnScraper(StartRequest::Api)]);

    let (response, actions) = inst.handle_request(StartRequest::Api, &wd_ctx());
    assert!(response == Some(RequestResponse::Active(false)));
    assert!(actions.is_empty());

    let (response, actions) = inst.handle_request(StartRequest::Timer, &wd_ctx());
    assert!(response == Some(RequestResponse::Active(false)));
    assert!(actions.is_empty());
    assert_eq!(inst.scraper, Some(StartRequest::Api));
}

#[test]
fn api_start_on_idle_instance_answers_true() {
    let mut inst = wd_instance("alice");
    let (response, actions) = inst.handle_request(StartRequest::Api, &wd_ctx());
    assert!(response == Some(RequestResponse::Active(true)));
    assert_eq!(actions, vec![InstanceAction::SpawnScraper(StartRequest::Api)]);
    assert_eq!(inst.scraper, Some(StartRequest::Api));
}

#[test]
fn queries_do_not_touch_state() {
    let mut inst = wd_instance("alice");
    inst.last_exit_code = FailureType::ConnectError;
    let before_exit = inst.last_exit_code.clone();
    for query in [
        StartRequest::Logbook,
        StartRequest::Name,
        StartRequest::IsActive,
        StartRequest::ExitCode,
        StartRequest::UserData,
        StartRequest::Calendar,
        StartRequest::Standing,
    ] {
        let (response, actions) = inst.handle_request(query, &wd_ctx());
        assert!(response.is_some());
        assert!(actions.is_empty());
        assert_eq!(inst.scraper, None);
        assert_eq!(inst.last_exit_code, before_exit);
        assert!(!inst.terminating);
    }
}

#[test]
fn query_responses_read_the_snapshot() {
    let mut inst = wd_instance("alice");
    let (response, _) = inst.handle_request(StartRequest::IsActive, &wd_ctx());
    assert!(response == Some(RequestResponse::Active(false)));
    let (response, _) = inst.handle_request(StartRequest::Name, &wd_ctx());
    assert!(response == Some(RequestResponse::Name("alice".to_owned())));
    let (response, _) = inst.handle_request(StartRequest::Calendar, &wd_ctx());
    assert!(
        response == Some(RequestResponse::GenResponse("https://cal.example/alice.ics".to_owned()))
    );
}

#[test]
fn delete_aborts_and_terminates() {
    let mut inst = wd_instance("alice");
    inst.handle_request(StartRequest::Timer, &wd_ctx());
    let (response, actions) = inst.handle_request(StartRequest::Delete, &wd_ctx());
    assert!(matches!(response, Some(RequestResponse::GenResponse(_))));
    assert_eq!(
        actions,
        vec![
            InstanceAction::DeleteAccount(DeletedReason::Manual),
            InstanceAction::AbortScraper,
        ]
    );
    assert!(inst.terminating);
    assert_eq!(inst.scraper, None);
}

#[test]
fn finished_run_updates_timestamps_and_logbook() {
    let mut inst = wd_instance("alice");
    inst.handle_request(StartRequest::Timer, &wd_ctx());
    let (response, actions) =
        inst.handle_request(StartRequest::ExecutionFinished(FailureType::OK), &wd_ctx());
    assert!(response.is_none());
    assert_eq!(inst.last_exit_code, FailureType::OK);
    assert_eq!(inst.scraper, None);
    // Timer-triggered successful run: all three timestamps; unchanged exit
    // code, so no calendar patch and no heartbeat refresh.
    let ts = update_instance_timestamps(&FailureType::OK, true, NOW);
    assert_eq!(
        actions,
        vec![
            InstanceAction::UpdateTimestamps(ts),
            InstanceAction::PersistLogbook(FailureType::OK),
        ]
    );
    assert_eq!(ts.last_execution, Some(NOW));
    assert_eq!(ts.last_successful_sign_in, Some(NOW));
    assert_eq!(ts.last_system_execution, Some(NOW));
}

#[test]
fn failed_credentials_withhold_success_timestamp() {
    let code = FailureType::SignInFailed(SignInFailure::IncorrectCredentials);
    let ts = update_instance_timestamps(&code, false, NOW);
    assert_eq!(ts.last_execution, Some(NOW));
    assert_eq!(ts.last_successful_sign_in, None);
    assert_eq!(ts.last_system_execution, None);
}

#[test]
fn changed_exit_code_patches_calendar_and_heartbeats() {
    let mut inst = wd_instance("alice");
    inst.handle_request(StartRequest::Api, &wd_ctx());
    let (_, actions) = inst.handle_request(
        StartRequest::ExecutionFinished(FailureType::ConnectError),
        &wd_ctx(),
    );
    let ts = update_instance_timestamps(&FailureType::ConnectError, false, NOW);
    assert_eq!(
        actions,
        vec![
            InstanceAction::UpdateTimestamps(ts),
            InstanceAction::PatchCalendarExitCode(FailureType::OK, FailureType::ConnectError),
            InstanceAction::Heartbeat(FailureType::ConnectError),
            InstanceAction::PersistLogbook(FailureType::ConnectError),
        ]
    );
}

#[test]
fn silent_account_is_deleted_after_a_run() {
    // 31 days without successful sign-in and auto-deletion armed: the
    // post-run pipeline deletes the account and stops the instance.
    let mut user = wd_user("alice");
    user.last_successful_sign_in_date = Some(NOW - 31 * 24 * 60);
    let mut inst = UserInstance::new(user, wd_properties(), TimeOfDay::new(9, 15));
    inst.handle_request(StartRequest::Timer, &wd_ctx());
    let (_, actions) =
        inst.handle_request(StartRequest::ExecutionFinished(FailureType::OK), &wd_ctx());
    let ts = update_instance_timestamps(&FailureType::OK, true, NOW);
    assert_eq!(
        actions,
        vec![
            InstanceAction::UpdateTimestamps(ts),
            InstanceAction::DeleteAccount(DeletedReason::OldAge),
            InstanceAction::SendMail(MailEvent::AccountDeleted(DeletedReason::OldAge)),
            InstanceAction::EnqueueDelete,
        ]
    );
}

#[test]
fn fresh_dead_account_is_deleted_after_a_run() {
    // Created 25 hours ago, never a successful sign-in; the run failed on
    // credentials: deletion with the fresh-account reason.
    let mut user = wd_user("alice");
    user.creation_date = NOW - 25 * 60;
    user.last_successful_sign_in_date = None;
    let mut inst = UserInstance::new(user, wd_properties(), TimeOfDay::new(9, 15));
    inst.handle_request(StartRequest::Timer, &wd_ctx());
    let code = FailureType::SignInFailed(SignInFailure::IncorrectCredentials);
    let (_, actions) = inst.handle_request(StartRequest::ExecutionFinished(code), &wd_ctx());
    assert!(actions.contains(&InstanceAction::DeleteAccount(DeletedReason::NewDead)));
    assert!(actions.contains(&InstanceAction::SendMail(MailEvent::AccountDeleted(
        DeletedReason::NewDead
    ))));
    assert!(actions.contains(&InstanceAction::EnqueueDelete));
}

fn fleet_names(fleet: &Fleet) -> Vec<String> {
    let mut names: Vec<String> =
        fleet.instances.iter().map(|i| i.user.user_name.clone()).collect();
    names.sort();
    names
}

#[test]
fn reconcile_add_and_remove() {
    // Instances {a, b}; storage now holds {a, c}.  After the reconcile the
    // fleet is {a, c}, the monitor of c exists, the monitor of b is gone,
    // and a kept its runtime state.
    let mut fleet = Fleet::new();
    fleet.instances.push(wd_instance("a"));
    fleet.instances.push(wd_instance("b"));
    fleet.instances[0].last_exit_code = FailureType::ConnectError;

    let mut dir = MonitorDirectory::new();
    let group = dir.ensure_entry(&"orchestrator".to_owned(), EntryKind::Group, 0, 0, 0, 0);
    // The initial fleet is mirrored already.
    let a_mon = dir.ensure_entry(&"a".to_owned(), EntryKind::Monitor, 3720, 3, 0, group);
    dir.ensure_entry(&"b".to_owned(), EntryKind::Monitor, 3720, 3, 0, group);

    let db_users = vec!["a".to_owned(), "c".to_owned()];
    let new_instances = vec![wd_instance("c")];
    start_stop_instances(&mut fleet, &db_users, new_instances, &mut dir, group, false);

    assert_eq!(fleet_names(&fleet), vec!["a".to_owned(), "c".to_owned()]);
    // a was not touched beyond the reconcile: its runtime state is kept.
    let a_inst = fleet.instances.iter().find(|i| i.user.user_name == "a").unwrap();
    assert_eq!(a_inst.last_exit_code, FailureType::ConnectError);

    assert_eq!(dir.find_id(&"a".to_owned(), EntryKind::Monitor), Some(a_mon));
    assert!(dir.find_id(&"c".to_owned(), EntryKind::Monitor).is_some());
    assert!(dir.find_id(&"c_mail".to_owned(), EntryKind::Notification).is_some());
    assert_eq!(dir.find_id(&"b".to_owned(), EntryKind::Monitor), None);
    assert_eq!(dir.find_id(&"b_mail".to_owned(), EntryKind::Notification), None);
}

#[test]
fn first_run_leaves_monitors_alone() {
    // Cold start: storage has {alice}, nothing is live yet.  The instance
    // is created, but the monitor directory stays untouched.
    let mut fleet = Fleet::new();
    let mut dir = MonitorDirectory::new();
    let dir_before = dir.clone();

    let db_users = vec!["alice".to_owned()];
    let new_instances = vec![wd_instance("alice")];
    start_stop_instances(&mut fleet, &db_users, new_instances, &mut dir, 1, true);

    assert_eq!(fleet_names(&fleet), vec!["alice".to_owned()]);
    assert_eq!(dir, dir_before);
    // The fresh instance idles with a clean exit code until its first run.
    assert_eq!(fleet.instances[0].last_exit_code, FailureType::OK);
    assert_eq!(fleet.instances[0].scraper, None);
}
