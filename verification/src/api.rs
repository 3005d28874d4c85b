//! The decisions behind the HTTPS surface: key checking, action parsing,
//! and the mapping from routes to instance and supervisor requests.  The
//! listener itself, TLS and timeouts live outside; they hand the query
//! parameters and path segments in as plain strings.

use vstd::prelude::*;
use crate::kuma::{KumaAction, KumaUserRequest};
use crate::timer::StartRequest;
use crate::watchdog::WatchdogRequest;

verus! {

/// Two characters agree up to ASCII letter case.
pub open spec fn ci_char_eq(x: char, y: char) -> bool {
    ||| x == y
    ||| ('A' <= x <= 'Z' && y as u32 == x as u32 + 32)
    ||| ('A' <= y <= 'Z' && x as u32 == y as u32 + 32)
}

/// Two strings agree up to ASCII letter case.
pub open spec fn ci_eq(a: Seq<char>, b: Seq<char>) -> bool {
    a.len() == b.len() && forall|i: int| 0 <= i < a.len() ==> ci_char_eq(a[i], b[i])
}

/// Relies on str::eq_ignore_ascii_case: true exactly when the strings
/// have equal length and agree character by character up to ASCII letter
/// case.
#[verifier::external_body]
fn str_ci_eq(a: &str, b: &str) -> (r: bool)
    ensures
        r == ci_eq(a@, b@),
{
    a.eq_ignore_ascii_case(b)
}

/// One per-user action a client may request.
#[derive(Clone, Copy, Debug, PartialEq, Eq, Structural)]
pub enum Action {
    Logbook,
    IsActive,
    Name,
    Start,
    ExitCode,
    UserData,
    Welcome,
    Calendar,
    Delete,
    Standing,
}

/// Which action a path segment names, read without regard to letter case;
/// the first match of the route table wins.
pub open spec fn spec_parse_action(text: Seq<char>) -> Option<Action> {
    if ci_eq(text, "logbook"@) {
        Some(Action::Logbook)
    } else if ci_eq(text, "isactive"@) {
        Some(Action::IsActive)
    } else if ci_eq(text, "name"@) {
        Some(Action::Name)
    } else if ci_eq(text, "start"@) {
        Some(Action::Start)
    } else if ci_eq(text, "exitcode"@) {
        Some(Action::ExitCode)
    } else if ci_eq(text, "userdata"@) {
        Some(Action::UserData)
    } else if ci_eq(text, "welcome"@) {
        Some(Action::Welcome)
    } else if ci_eq(text, "calendar"@) {
        Some(Action::Calendar)
    } else if ci_eq(text, "delete"@) {
        Some(Action::Delete)
    } else if ci_eq(text, "standing"@) {
        Some(Action::Standing)
    } else {
        None
    }
}

/// Parse the action segment of a per-user route.
pub fn parse_action(text: &str) -> (r: Option<Action>)
    ensures
        r == spec_parse_action(text@),
{
    if str_ci_eq(text, "logbook") {
        Some(Action::Logbook)
    } else if str_ci_eq(text, "isactive") {
        Some(Action::IsActive)
    } else if str_ci_eq(text, "name") {
        Some(Action::Name)
    } else if str_ci_eq(text, "start") {
        Some(Action::Start)
    } else if str_ci_eq(text, "exitcode") {
        Some(Action::ExitCode)
    } else if str_ci_eq(text, "userdata") {
        Some(Action::UserData)
    } else if str_ci_eq(text, "welcome") {
        Some(Action::Welcome)
    } else if str_ci_eq(text, "calendar") {
        Some(Action::Calendar)
    } else if str_ci_eq(text, "delete") {
        Some(Action::Delete)
    } else if str_ci_eq(text, "standing") {
        Some(Action::Standing)
    } else {
        None
    }
}

/// Which monitor command a path segment names, without regard to case.
pub open spec fn spec_parse_kuma_action(text: Seq<char>) -> Option<KumaAction> {
    if ci_eq(text, "add"@) {
        Some(KumaAction::Add)
    } else if ci_eq(text, "reset"@) {
        Some(KumaAction::Reset)
    } else if ci_eq(text, "delete"@) {
        Some(KumaAction::Delete)
    } else {
        None
    }
}

/// Parse the action segment of a monitor route.
pub fn parse_kuma_action(text: &str) -> (r: Option<KumaAction>)
    ensures
        r == spec_parse_kuma_action(text@),
{
    if str_ci_eq(text, "add") {
        Some(KumaAction::Add)
    } else if str_ci_eq(text, "reset") {
        Some(KumaAction::Reset)
    } else if str_ci_eq(text, "delete") {
        Some(KumaAction::Delete)
    } else {
        None
    }
}

/// A request is let through exactly when it carries the key and the key
/// reads as the configured one.
pub fn check_api_key(request_key: Option<&String>, api_key: &String) -> (r: bool)
    ensures
        r == (request_key matches Some(k) && k@ == api_key@),
{
    match request_key {
        Some(k) => *k == *api_key,
        None => false,
    }
}

/// The inbox event each client action maps to.
pub open spec fn spec_action_request(action: Action) -> StartRequest {
    match action {
        Action::Logbook => StartRequest::Logbook,
        Action::IsActive => StartRequest::IsActive,
        Action::Name => StartRequest::Name,
        Action::Start => StartRequest::Api,
        Action::ExitCode => StartRequest::ExitCode,
        Action::UserData => StartRequest::UserData,
        Action::Welcome => StartRequest::Welcome,
        Action::Calendar => StartRequest::Calendar,
        Action::Delete => StartRequest::Delete,
        Action::Standing => StartRequest::Standing,
    }
}

/// Map a client action onto the instance's inbox event; a `start` comes
/// in as an API-triggered run.
pub fn send_request(action: Action) -> (r: StartRequest)
    ensures
        r == spec_action_request(action),
{
    match action {
        Action::Logbook => StartRequest::Logbook,
        Action::IsActive => StartRequest::IsActive,
        Action::Name => StartRequest::Name,
        Action::Start => StartRequest::Api,
        Action::ExitCode => StartRequest::ExitCode,
        Action::UserData => StartRequest::UserData,
        Action::Welcome => StartRequest::Welcome,
        Action::Calendar => StartRequest::Calendar,
        Action::Delete => StartRequest::Delete,
        Action::Standing => StartRequest::Standing,
    }
}

/// The supervisor command a refresh route maps to: one user where the
/// path names one, else the whole fleet.
pub fn refresh_users(user_name: Option<String>) -> (r: WatchdogRequest)
    ensures
        match user_name {
            Some(u) => r matches WatchdogRequest::SingleUser(n) && n@ == u@,
            None => r == WatchdogRequest::AllUser,
        },
{
    match user_name {
        Some(u) => WatchdogRequest::SingleUser(u),
        None => WatchdogRequest::AllUser,
    }
}

/// The supervisor command a monitor route maps to: the literal user name,
/// or every user where the path says `all`.
pub fn handle_kuma(user_name: String, action: KumaAction) -> (r: WatchdogRequest)
    ensures
        user_name@ == "all"@ ==> r == WatchdogRequest::KumaRequest(action, KumaUserRequest::All),
        user_name@ != "all"@ ==> (r matches WatchdogRequest::KumaRequest(a, KumaUserRequest::Users(
            v,
        )) && a == action && v@.len() == 1 && v@[0]@ == user_name@),
{
    if user_name == String::from_str("all") {
        WatchdogRequest::KumaRequest(action, KumaUserRequest::All)
    } else {
        let mut users: Vec<String> = Vec::new();
        users.push(user_name);
        WatchdogRequest::KumaRequest(action, KumaUserRequest::Users(users))
    }
}

} // verus!
