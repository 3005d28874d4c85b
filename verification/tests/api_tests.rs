use mijn_bussie::api::{
    Action, check_api_key, handle_kuma, parse_action, parse_kuma_action, refresh_users,
    send_request,
};
use mijn_bussie::kuma::{KumaAction, KumaUserRequest};
use mijn_bussie::timer::StartRequest;
use mijn_bussie::watchdog::WatchdogRequest;
use mijn_bussie::variables::{create_path, get_set_name};
use mijn_bussie::secret::Secret;

#[test]
fn actions_parse_case_insensitively() {
    assert_eq!(parse_action("logbook"), Some(Action::Logbook));
    assert_eq!(parse_action("LogBook"), Some(Action::Logbook));
    assert_eq!(parse_action("ISACTIVE"), Some(Action::IsActive));
    assert_eq!(parse_action("standing"), Some(Action::Standing));
    assert_eq!(parse_action("exitcode"), Some(Action::ExitCode));
    assert_eq!(parse_action("unknown"), None);
    assert_eq!(parse_action(""), None);
}

#[test]
fn kuma_actions_parse_case_insensitively() {
    assert_eq!(parse_kuma_action("Add"), Some(KumaAction::Add));
    assert_eq!(parse_kuma_action("RESET"), Some(KumaAction::Reset));
    assert_eq!(parse_kuma_action("delete"), Some(KumaAction::Delete));
    assert_eq!(parse_kuma_action("drop"), None);
}

#[test]
fn api_key_check() {
    let configured = "SECRET-REDACTED".to_owned();
    assert!(check_api_key(Some(&configured.clone()), &configured));
    assert!(!check_api_key(Some(&"wrong".to_owned()), &configured));
    assert!(!check_api_key(None, &configured));
}

#[test]
fn start_maps_to_api_trigger() {
    assert_eq!(send_request(Action::Start), StartRequest::Api);
    assert_eq!(send_request(Action::Logbook), StartRequest::Logbook);
    assert_eq!(send_request(Action::Delete), StartRequest::Delete);
}

#[test]
fn refresh_routes() {
    assert_eq!(
        refresh_users(Some("alice".to_owned())),
        WatchdogRequest::SingleUser("alice".to_owned())
    );
    assert_eq!(refresh_users(None), WatchdogRequest::AllUser);
}

#[test]
fn kuma_routes() {
    assert_eq!(
        handle_kuma("all".to_owned(), KumaAction::Reset),
        WatchdogRequest::KumaRequest(KumaAction::Reset, KumaUserRequest::All)
    );
    assert_eq!(
        handle_kuma("alice".to_owned(), KumaAction::Add),
        WatchdogRequest::KumaRequest(
            KumaAction::Add,
            KumaUserRequest::Users(vec!["alice".to_owned()])
        )
    );
}

#[test]
fn user_paths_are_composed_under_the_target() {
    assert_eq!(create_path("/data", "alice", "warning_sent"), "/data/alice/warning_sent");
    assert_eq!(create_path("/data/", "alice", ""), "/data/alice");
    assert_eq!(
        create_path("/data", "alice", "sign_in_failure_count.json"),
        "/data/alice/sign_in_failure_count.json"
    );
}

#[test]
fn name_resolution_order() {
    let stored = Secret::new("Mevrouw A".to_owned());
    // A newly learned name wins and is written back when it differs.
    let (name, write) =
        get_set_name(Some("Alice".to_owned()), None, Some(&stored), "alice");
    assert_eq!(name, "Alice");
    assert!(write);
    // The cached name wins over the stored one.
    let cached = "Alice".to_owned();
    let (name, write) = get_set_name(None, Some(&cached), Some(&stored), "alice");
    assert_eq!(name, "Alice");
    assert!(!write);
    // The stored display name wins over the bare user name.
    let (name, _) = get_set_name(None, None, Some(&stored), "alice");
    assert_eq!(name, "Mevrouw A");
    // Nothing else: the user name.
    let (name, _) = get_set_name(None, None, None, "alice");
    assert_eq!(name, "alice");
    // A re-learned identical name is not written back.
    let (_, write) = get_set_name(Some("Alice".to_owned()), Some(&cached), None, "alice");
    assert!(!write);
}
