//! Plain models of the persistent configuration: the user row, its
//! per-user property overrides, and the process-wide general properties.
//!
//! Timestamps are minutes since an epoch; the storage layer converts from
//! its own calendar types when it loads a row.  Paths and display names
//! are composed here so their shape is pinned down once.

use vstd::prelude::*;
use crate::secret::Secret;

verus! {

/// Per-user overrides of the execution behaviour.
#[derive(Clone, Copy, Debug, PartialEq)]
pub struct UserProperties {
    /// Minutes between scheduled runs, within `[1, 1440]`.
    pub execution_interval_minutes: i32,
    /// The minute of the hour runs are normalized to, within `[0, 59]`.
    pub execution_minute: i32,
    pub auto_delete_account: bool,
    pub send_mail_new_shift: bool,
    pub send_mail_updated_shift: bool,
    pub send_mail_removed_shift: bool,
    pub send_welcome_mail: bool,
    pub send_failed_signin_mail: bool,
    pub send_error_mail: bool,
}

impl UserProperties {
    /// The documented ranges of the scheduling knobs.
    pub open spec fn wf(self) -> bool {
        &&& 1 <= self.execution_interval_minutes <= 1440
        &&& 0 <= self.execution_minute <= 59
    }
}

/// A timestamp in minutes since the epoch.  The bound keeps every
/// difference and sum the policy computes inside machine integers.
pub open spec fn ts_wf(t: i64) -> bool {
    0 <= t < 0x4000_0000_0000
}

/// One stored user, as the core sees it.  It carries secrets, so it has
/// no formatting either.
#[derive(Clone, PartialEq)]
pub struct UserData {
    pub id: i32,
    pub user_name: String,
    pub personeelsnummer: String,
    pub password: Secret,
    pub email: Secret,
    /// The display name, once one has been learned from the portal.
    pub name: Option<Secret>,
    /// The calendar file name stem; empty means the user name is used.
    pub file_name: String,
    pub creation_date: i64,
    pub last_execution_date: Option<i64>,
    pub last_successful_sign_in_date: Option<i64>,
    pub last_system_execution_date: Option<i64>,
    pub user_properties: UserProperties,
    pub custom_general_properties: Option<i32>,
}

impl UserData {
    /// An equal copy.
    pub fn dup(&self) -> (r: UserData)
        ensures
            r == *self,
    {
        UserData {
            id: self.id,
            user_name: self.user_name.clone(),
            personeelsnummer: self.personeelsnummer.clone(),
            password: self.password.dup(),
            email: self.email.dup(),
            name: match &self.name {
                Some(secret) => Some(secret.dup()),
                None => None,
            },
            file_name: self.file_name.clone(),
            creation_date: self.creation_date,
            last_execution_date: self.last_execution_date,
            last_successful_sign_in_date: self.last_successful_sign_in_date,
            last_system_execution_date: self.last_system_execution_date,
            user_properties: self.user_properties,
            custom_general_properties: self.custom_general_properties,
        }
    }

    pub open spec fn wf(self) -> bool {
        &&& self.user_name@.len() > 0
        &&& self.user_properties.wf()
        &&& ts_wf(self.creation_date)
        &&& self.last_execution_date matches Some(t) ==> ts_wf(t)
        &&& self.last_successful_sign_in_date matches Some(t) ==> ts_wf(t)
        &&& self.last_system_execution_date matches Some(t) ==> ts_wf(t)
    }
}

/// Connection details of the uptime-monitor service.
#[derive(Clone, Debug, PartialEq)]
pub struct KumaProperties {
    pub domain: String,
    pub username: String,
    pub password: String,
    pub hearbeat_retry: i32,
    pub offline_mail_resend_hours: i32,
    pub mail_port: i32,
    pub use_ssl: bool,
}

/// Process-wide defaults, loaded at reconcile time.
#[derive(Clone, Debug, PartialEq)]
pub struct GeneralProperties {
    pub general_properties_id: i32,
    pub file_target: String,
    pub ical_domain: String,
    pub webcal_domain: String,
    pub pdf_shift_domain: String,
    /// Every so-manieth attempt with a sign-in error is let through.
    pub signin_fail_execution_reduce: i32,
    /// Every so-manieth attempt with a sign-in error re-sends the mail.
    pub signin_fail_mail_reduce: i32,
    pub expected_execution_time_seconds: i32,
    pub execution_retry_count: i32,
    pub support_mail: String,
    pub password_reset_link: String,
    pub sign_up_url: String,
    pub kuma_properties: KumaProperties,
}

impl KumaProperties {
    /// An equal copy.
    pub fn dup(&self) -> (r: KumaProperties)
        ensures
            r == *self,
    {
        KumaProperties {
            domain: self.domain.clone(),
            username: self.username.clone(),
            password: self.password.clone(),
            hearbeat_retry: self.hearbeat_retry,
            offline_mail_resend_hours: self.offline_mail_resend_hours,
            mail_port: self.mail_port,
            use_ssl: self.use_ssl,
        }
    }
}

impl GeneralProperties {
    /// An equal copy.
    pub fn dup(&self) -> (r: GeneralProperties)
        ensures
            r == *self,
    {
        GeneralProperties {
            general_properties_id: self.general_properties_id,
            file_target: self.file_target.clone(),
            ical_domain: self.ical_domain.clone(),
            webcal_domain: self.webcal_domain.clone(),
            pdf_shift_domain: self.pdf_shift_domain.clone(),
            signin_fail_execution_reduce: self.signin_fail_execution_reduce,
            signin_fail_mail_reduce: self.signin_fail_mail_reduce,
            expected_execution_time_seconds: self.expected_execution_time_seconds,
            execution_retry_count: self.execution_retry_count,
            support_mail: self.support_mail.clone(),
            password_reset_link: self.password_reset_link.clone(),
            sign_up_url: self.sign_up_url.clone(),
            kuma_properties: self.kuma_properties.dup(),
        }
    }

    pub open spec fn wf(self) -> bool {
        &&& self.signin_fail_execution_reduce >= 1
        &&& self.signin_fail_mail_reduce >= 1
        &&& 0 <= self.expected_execution_time_seconds
        &&& self.expected_execution_time_seconds + 86400 <= 0x7FFF_FFFF
        &&& self.execution_retry_count >= 0
    }
}

/// Relies on str::ends_with with a char pattern: true exactly when the
/// string's last character is that char.
#[verifier::external_body]
fn ends_with_slash(s: &str) -> (r: bool)
    ensures
        r == (s@.len() > 0 && s@.last() == '/'),
{
    s.ends_with('/')
}

/// Join one path component onto a base, inserting a separator where the
/// base lacks a trailing one.
pub open spec fn spec_path_join(base: Seq<char>, component: Seq<char>) -> Seq<char> {
    if base.len() > 0 && base.last() == '/' {
        base + component
    } else {
        base + "/"@ + component
    }
}

/// Append a component to a base, inserting a slash where the base lacks a
/// trailing one; file paths and URLs are composed the same way.
pub fn path_join(base: &str, component: &str) -> (r: String)
    ensures
        r@ == spec_path_join(base@, component@),
{
    if ends_with_slash(base) {
        String::from_str(base).concat(component)
    } else {
        String::from_str(base).concat("/").concat(component)
    }
}

/// The per-user file path: `{file_target}/{user_name}/{filename}`, or the
/// user's directory itself when the file name is empty.
pub open spec fn spec_user_path(
    file_target: Seq<char>,
    user_name: Seq<char>,
    filename: Seq<char>,
) -> Seq<char> {
    if filename.len() == 0 {
        spec_path_join(file_target, user_name)
    } else {
        spec_path_join(spec_path_join(file_target, user_name), filename)
    }
}

/// Compose the path of a file in a user's directory.
pub fn create_path(file_target: &str, user_name: &str, filename: &str) -> (r: String)
    ensures
        r@ == spec_user_path(file_target@, user_name@, filename@),
{
    let dir = path_join(file_target, user_name);
    if filename.is_empty() {
        dir
    } else {
        path_join(dir.as_str(), filename)
    }
}

/// Whether the process may start with the environment file as found: the
/// file must be readable and writable by its owner alone, and owned by
/// the process itself.
pub fn check_env_permissions(file_mode: u32, file_owner: u32, process_uid: u32) -> (r: bool)
    ensures
        r == (file_mode == 0o100600 && file_owner == process_uid),
{
    file_mode == 0o100600 && file_owner == process_uid
}

/// The name a user is addressed by when nothing new was learned: the
/// instance's cached name, else the stored display name, else the user
/// name.
pub open spec fn spec_display_name(
    cached_name: Option<String>,
    stored_display_name: Option<Secret>,
    user_name: Seq<char>,
) -> Seq<char> {
    match cached_name {
        Some(c) => c@,
        None => match stored_display_name {
            Some(s) => s@,
            None => user_name,
        },
    }
}

/// Resolve the name a user is addressed by, and decide whether a newly
/// learned name must be written back to storage.
///
/// The precedence is: a name learned in this run, then the name cached by
/// the instance, then the stored display name, then the user name.  A
/// newly learned name that differs from the cached one is written back.
pub fn get_set_name(
    set_new_name: Option<String>,
    cached_name: Option<&String>,
    stored_display_name: Option<&Secret>,
    user_name: &str,
) -> (r: (String, bool))
    ensures
        r.0@ == match set_new_name {
            Some(n) => n@,
            None => match cached_name {
                Some(c) => c@,
                None => match stored_display_name {
                    Some(s) => s@,
                    None => user_name@,
                },
            },
        },
        r.1 == (set_new_name matches Some(n) && match cached_name {
            Some(c) => n@ != c@,
            None => true,
        }),
{
    match set_new_name {
        Some(new_name) => {
            let differs = match cached_name {
                Some(cached) => !(new_name == *cached),
                None => true,
            };
            (new_name, differs)
        },
        None => match cached_name {
            Some(cached) => (cached.clone(), false),
            None => match stored_display_name {
                Some(secret) => (String::from_str(secret.expose_secret()), false),
                None => (String::from_str(user_name), false),
            },
        },
    }
}

} // verus!
