//! The per-user instance and the fleet supervisor.
//!
//! Each stored user has at most one in-memory instance: a snapshot of the
//! user row, the effective properties, at most one in-flight portal run,
//! and the planned next execution time.  The instance services its inbox
//! one request at a time; this module holds that state machine.  The
//! fleet half reconciles the set of instances against the set of stored
//! users and mirrors the outcome into the monitor directory.

use vstd::prelude::*;
use crate::deletion::{
    InstanceStanding, StandingInformation, compute_standing, spec_standing,
    spec_standing_information,
};
use crate::email::{DeletedReason, MailEvent, spec_calendar_link, spec_ical_filename};
use crate::errors::{FailureType, SignInFailure};
use crate::health::ApplicationLogbook;
use crate::kuma::{KumaAction, KumaUserRequest};
use crate::timer::{StartRequest, TimeOfDay};
use crate::variables::{GeneralProperties, UserData, spec_display_name, ts_wf};

verus! {

/// One command for the fleet supervisor.
#[derive(Clone, Debug, PartialEq)]
pub enum WatchdogRequest {
    /// Re-read one user from storage and refresh its instance.
    SingleUser(String),
    /// Apply a monitor-directory command.
    KumaRequest(KumaAction, KumaUserRequest),
    /// Reconcile the whole fleet against storage.
    AllUser,
    /// The reconcile emitted once at boot: monitors are left untouched
    /// until the fleet's state is known.
    FirstRun,
}

/// What the supervisor does for one wakeup.
#[derive(Clone, Debug, PartialEq)]
pub enum WatchdogStep {
    /// Re-read one user and refresh its instance in place.
    RefreshOne(String),
    /// Apply a monitor-directory command, fleet untouched.
    MonitorCommand(KumaAction, KumaUserRequest),
    /// Reconcile the whole fleet; `true` on the boot run, which leaves
    /// the monitor directory alone.
    FullReconcile(bool),
}

/// Decide what one wakeup of the supervisor does.  A named user is
/// refreshed alone; a monitor command goes to the directory; everything
/// else - the boot signal, a full-refresh request, or the interval
/// timeout (no request at all) - reconciles the whole fleet.
pub fn watchdog(request: Option<WatchdogRequest>) -> (r: WatchdogStep)
    ensures
        match request {
            Some(WatchdogRequest::SingleUser(u)) => (r matches WatchdogStep::RefreshOne(n) && n@
                == u@),
            Some(WatchdogRequest::KumaRequest(a, scope)) => r == WatchdogStep::MonitorCommand(
                a,
                scope,
            ),
            Some(WatchdogRequest::AllUser) => r == WatchdogStep::FullReconcile(false),
            Some(WatchdogRequest::FirstRun) => r == WatchdogStep::FullReconcile(true),
            None => r == WatchdogStep::FullReconcile(false),
        },
{
    match request {
        Some(WatchdogRequest::SingleUser(user)) => WatchdogStep::RefreshOne(user),
        Some(WatchdogRequest::KumaRequest(action, scope)) => WatchdogStep::MonitorCommand(
            action,
            scope,
        ),
        Some(WatchdogRequest::AllUser) => WatchdogStep::FullReconcile(false),
        Some(WatchdogRequest::FirstRun) => WatchdogStep::FullReconcile(true),
        None => WatchdogStep::FullReconcile(false),
    }
}

/// The answer an instance puts in its outbox.  It can carry a user
/// snapshot with its secrets, so it has no formatting.
#[derive(Clone, PartialEq)]
pub enum RequestResponse {
    Logbook(ApplicationLogbook),
    Name(String),
    Active(bool),
    ExitCode(FailureType),
    UserData(UserData),
    GenResponse(String),
    InstanceStanding(StandingInformation),
}

/// A partial, atomic update of a user's timestamps.
#[derive(Clone, Copy, Debug, PartialEq, Eq, Structural)]
pub struct TimestampUpdate {
    pub last_execution: Option<i64>,
    pub last_successful_sign_in: Option<i64>,
    pub last_system_execution: Option<i64>,
}

/// One effect the instance asks its surroundings to perform.  The actor
/// decides; storage, mailer, monitor and file system carry the actions
/// out in the order given.
#[derive(Clone, Debug, PartialEq)]
pub enum InstanceAction {
    /// Start the scraping work for this trigger.
    SpawnScraper(StartRequest),
    /// Abort the in-flight scraping work.
    AbortScraper,
    /// Delete the account: per-user files, the stored row, the monitor.
    DeleteAccount(DeletedReason),
    /// Write these timestamps to the user's row.
    UpdateTimestamps(TimestampUpdate),
    /// Push the current health to the monitor.
    Heartbeat(FailureType),
    /// Rewrite the exit-code field of the published calendar.
    PatchCalendarExitCode(FailureType, FailureType),
    /// Persist the logbook with this exit code.
    PersistLogbook(FailureType),
    /// Send one mail.
    SendMail(MailEvent),
    /// Remove the deletion-warning marker file.
    RemoveWarningMarker,
    /// Create the deletion-warning marker file.
    CreateWarningMarker,
    /// Post `Delete` into this instance's own inbox.
    EnqueueDelete,
}

/// The timestamps written after a run: the execution time always, the
/// successful-sign-in time unless the run was refused for incorrect
/// credentials, the system-execution time only for timer-driven runs.
pub open spec fn spec_timestamp_update(
    code: FailureType,
    trigger_was_timer: bool,
    now: i64,
) -> TimestampUpdate {
    TimestampUpdate {
        last_execution: Some(now),
        last_successful_sign_in: if code == FailureType::SignInFailed(
            SignInFailure::IncorrectCredentials,
        ) {
            None
        } else {
            Some(now)
        },
        last_system_execution: if trigger_was_timer {
            Some(now)
        } else {
            None
        },
    }
}

/// Decide which timestamps a completed run writes.
pub fn update_instance_timestamps(
    exit_code: &FailureType,
    trigger_was_timer: bool,
    now: i64,
) -> (r: TimestampUpdate)
    ensures
        r == spec_timestamp_update(*exit_code, trigger_was_timer, now),
{
    TimestampUpdate {
        last_execution: Some(now),
        last_successful_sign_in: if exit_code.is_incorrect_credentials() {
            None
        } else {
            Some(now)
        },
        last_system_execution: if trigger_was_timer {
            Some(now)
        } else {
            None
        },
    }
}

/// What the actor reads from its surroundings before handling a request.
pub struct InstanceContext {
    /// The wall clock, in minutes since the epoch.
    pub now_minutes: i64,
    /// Whether the deletion-warning marker file exists.
    pub warning_marker_exists: bool,
    /// The display name the instance has cached, if any.
    pub cached_name: Option<String>,
    /// The user's logbook as persisted.
    pub logbook: ApplicationLogbook,
}

/// The actions owed after a run completes: write timestamps, apply the
/// lifecycle policy, and unless the policy ends the instance, refresh
/// calendar and heartbeat on a changed exit code and persist the logbook.
pub open spec fn spec_post_run_actions(
    u: UserData,
    prev: FailureType,
    code: FailureType,
    trigger_was_timer: bool,
    now: i64,
    marker: bool,
) -> Seq<InstanceAction> {
    let head = seq![
        InstanceAction::UpdateTimestamps(spec_timestamp_update(code, trigger_was_timer, now)),
    ];
    let standing = spec_standing(
        u.user_properties.auto_delete_account,
        u.last_successful_sign_in_date,
        u.last_execution_date,
        u.creation_date as int,
        now as int,
    );
    let tail = (if !prev.spec_eq(code) {
        seq![
            InstanceAction::PatchCalendarExitCode(prev, code),
            InstanceAction::Heartbeat(code),
        ]
    } else {
        Seq::<InstanceAction>::empty()
    }) + seq![InstanceAction::PersistLogbook(code)];
    match standing {
        InstanceStanding::Safe => head + (if marker {
            seq![InstanceAction::RemoveWarningMarker]
        } else {
            Seq::<InstanceAction>::empty()
        }) + tail,
        InstanceStanding::AlmostDeleted => head + (if !marker {
            seq![
                InstanceAction::SendMail(MailEvent::DeletionWarning),
                InstanceAction::CreateWarningMarker,
            ]
        } else {
            Seq::<InstanceAction>::empty()
        }) + tail,
        InstanceStanding::MustDelete => head + seq![
            InstanceAction::DeleteAccount(DeletedReason::OldAge),
            InstanceAction::SendMail(MailEvent::AccountDeleted(DeletedReason::OldAge)),
            InstanceAction::EnqueueDelete,
        ],
        InstanceStanding::MustDeleteFresh => head + seq![
            InstanceAction::DeleteAccount(DeletedReason::NewDead),
            InstanceAction::SendMail(MailEvent::AccountDeleted(DeletedReason::NewDead)),
            InstanceAction::EnqueueDelete,
        ],
        _ => head + tail,
    }
}

/// The in-memory twin of one stored user.
pub struct UserInstance {
    /// Snapshot of the user row, refreshed on reconcile.
    pub user: UserData,
    /// Snapshot of the effective general properties.
    pub properties: GeneralProperties,
    /// The trigger of the in-flight run, where one is running.
    pub scraper: Option<StartRequest>,
    /// How the last run ended.
    pub last_exit_code: FailureType,
    /// When the scheduler next starts this instance.
    pub execution_time: TimeOfDay,
    /// Whether the actor loop is to exit after the current request.
    pub terminating: bool,
}

impl UserInstance {
    pub open spec fn wf(self) -> bool {
        &&& self.user.wf()
        &&& self.properties.wf()
        &&& self.execution_time.wf()
        &&& (self.scraper matches Some(t) ==> t.is_execution_trigger())
    }

    /// Create the instance for a user, idle, with a clean exit code.
    pub fn new(
        user: UserData,
        properties: GeneralProperties,
        execution_time: TimeOfDay,
    ) -> (r: UserInstance)
        requires
            user.wf(),
            properties.wf(),
            execution_time.wf(),
        ensures
            r.wf(),
            r.user == user,
            r.properties == properties,
            r.scraper is None,
            r.last_exit_code == FailureType::OK,
            r.execution_time == execution_time,
            !r.terminating,
    {
        UserInstance {
            user,
            properties,
            scraper: None,
            last_exit_code: FailureType::OK,
            execution_time,
            terminating: false,
        }
    }

    /// Service one request from the inbox.
    ///
    /// Queries never change the state.  An execution trigger while a run
    /// is in flight spawns nothing and answers that nothing was started;
    /// on an idle instance it spawns exactly one run.  `Delete` ends the
    /// instance; a completed run reports through `ExecutionFinished` and
    /// triggers the post-run pipeline.
    pub fn handle_request(&mut self, request: StartRequest, ctx: &InstanceContext) -> (r: (
        Option<RequestResponse>,
        Vec<InstanceAction>,
    ))
        requires
            old(self).wf(),
            ts_wf(ctx.now_minutes),
        ensures
            final(self).wf(),
            final(self).user == old(self).user,
            final(self).properties == old(self).properties,
            final(self).execution_time == old(self).execution_time,
            request.is_query() ==> *final(self) == *old(self) && r.1@ =~= Seq::<
                InstanceAction,
            >::empty(),
            request.is_execution_trigger() && old(self).scraper is Some ==> {
                &&& final(self).scraper == old(self).scraper
                &&& final(self).last_exit_code == old(self).last_exit_code
                &&& final(self).terminating == (old(self).terminating || request
                    == StartRequest::Single)
                &&& r.0 == Some(RequestResponse::Active(false))
                &&& r.1@ =~= Seq::<InstanceAction>::empty()
            },
            request.is_execution_trigger() && old(self).scraper is None ==> {
                &&& final(self).scraper == Some(request)
                &&& final(self).last_exit_code == old(self).last_exit_code
                &&& final(self).terminating == (old(self).terminating || request
                    == StartRequest::Single)
                &&& r.1@ =~= seq![InstanceAction::SpawnScraper(request)]
                &&& (request == StartRequest::Api ==> r.0 == Some(RequestResponse::Active(true)))
                &&& (request != StartRequest::Api ==> r.0 is None)
            },
            request == StartRequest::Logbook ==> (r.0 matches Some(RequestResponse::Logbook(lb))
                && lb == ctx.logbook),
            request == StartRequest::Name ==> (r.0 matches Some(RequestResponse::Name(n)) && n@
                == spec_display_name(
                ctx.cached_name,
                old(self).user.name,
                old(self).user.user_name@,
            )),
            request == StartRequest::IsActive ==> r.0 == Some(
                RequestResponse::Active(old(self).scraper is Some),
            ),
            request == StartRequest::ExitCode ==> (r.0 matches Some(RequestResponse::ExitCode(c))
                && c == old(self).last_exit_code),
            request == StartRequest::UserData ==> (r.0 matches Some(RequestResponse::UserData(u))
                && u == old(self).user),
            request == StartRequest::Calendar ==> (r.0 matches Some(RequestResponse::GenResponse(s))
                && s@ == spec_calendar_link(
                old(self).properties.ical_domain@,
                spec_ical_filename(old(self).user.user_name@, old(self).user.file_name@),
            )),
            request == StartRequest::Standing ==> r.0 == Some(
                RequestResponse::InstanceStanding(
                    spec_standing_information(
                        old(self).user.user_properties.auto_delete_account,
                        old(self).user.last_successful_sign_in_date,
                        old(self).user.last_execution_date,
                        old(self).user.creation_date,
                        ctx.now_minutes,
                    ),
                ),
            ),
            request == StartRequest::Welcome ==> *final(self) == *old(self) && (r.0 matches Some(
                RequestResponse::GenResponse(s),
            ) && s@ == "welkomstmail aangevraagd"@) && r.1@ =~= seq![
                InstanceAction::SendMail(MailEvent::Welcome(true)),
            ],
            request == StartRequest::Delete ==> {
                &&& final(self).scraper is None
                &&& final(self).terminating
                &&& final(self).last_exit_code == old(self).last_exit_code
                &&& r.1@ =~= if old(self).scraper is Some {
                    seq![
                        InstanceAction::DeleteAccount(DeletedReason::Manual),
                        InstanceAction::AbortScraper,
                    ]
                } else {
                    seq![InstanceAction::DeleteAccount(DeletedReason::Manual)]
                }
                &&& (r.0 matches Some(RequestResponse::GenResponse(s)) && s@
                    == "account verwijderd"@)
            },
            request matches StartRequest::ExecutionFinished(code) ==> {
                &&& final(self).scraper is None
                &&& final(self).last_exit_code == code
                &&& final(self).terminating == old(self).terminating
                &&& r.0 is None
                &&& r.1@ =~= spec_post_run_actions(
                    old(self).user,
                    old(self).last_exit_code,
                    code,
                    old(self).scraper == Some(StartRequest::Timer),
                    ctx.now_minutes,
                    ctx.warning_marker_exists,
                )
            },
    {
        match request {
            StartRequest::Logbook => (
                Some(RequestResponse::Logbook(ctx.logbook.dup())),
                Vec::new(),
            ),
            StartRequest::Name => {
                let (name, _write_back) = crate::variables::get_set_name(
                    None,
                    ctx.cached_name.as_ref(),
                    self.user.name.as_ref(),
                    self.user.user_name.as_str(),
                );
                (Some(RequestResponse::Name(name)), Vec::new())
            },
            StartRequest::IsActive => (
                Some(RequestResponse::Active(self.scraper.is_some())),
                Vec::new(),
            ),
            StartRequest::ExitCode => (
                Some(RequestResponse::ExitCode(self.last_exit_code.dup())),
                Vec::new(),
            ),
            StartRequest::UserData => (
                Some(RequestResponse::UserData(self.user.dup())),
                Vec::new(),
            ),
            StartRequest::Calendar => {
                let filename = crate::email::create_ical_filename(
                    self.user.user_name.as_str(),
                    self.user.file_name.as_str(),
                );
                let link = crate::email::create_calendar_link(
                    self.properties.ical_domain.as_str(),
                    filename.as_str(),
                );
                (Some(RequestResponse::GenResponse(link)), Vec::new())
            },
            StartRequest::Standing => {
                let info = crate::deletion::standing_information(
                    self.user.user_properties.auto_delete_account,
                    self.user.last_successful_sign_in_date,
                    self.user.last_execution_date,
                    self.user.creation_date,
                    ctx.now_minutes,
                );
                (Some(RequestResponse::InstanceStanding(info)), Vec::new())
            },
            StartRequest::Welcome => {
                let mut actions: Vec<InstanceAction> = Vec::new();
                actions.push(InstanceAction::SendMail(MailEvent::Welcome(true)));
                (
                    Some(RequestResponse::GenResponse(String::from_str("welkomstmail aangevraagd"))),
                    actions,
                )
            },
            StartRequest::Delete => {
                let mut actions: Vec<InstanceAction> = Vec::new();
                actions.push(InstanceAction::DeleteAccount(DeletedReason::Manual));
                if self.scraper.is_some() {
                    actions.push(InstanceAction::AbortScraper);
                }
                self.scraper = None;
                self.terminating = true;
                (
                    Some(RequestResponse::GenResponse(String::from_str("account verwijderd"))),
                    actions,
                )
            },
            StartRequest::ExecutionFinished(code) => {
                let trigger_was_timer = match &self.scraper {
                    Some(StartRequest::Timer) => true,
                    _ => false,
                };
                self.scraper = None;
                let prev = self.last_exit_code.dup();
                self.last_exit_code = code.dup();
                let actions = post_run_actions(
                    &self.user,
                    prev,
                    code,
                    trigger_was_timer,
                    ctx.now_minutes,
                    ctx.warning_marker_exists,
                );
                (None, actions)
            },
            _ => {
                // Timer, Api, Single, Force: the execution triggers.
                let terminating = self.terminating || match &request {
                    StartRequest::Single => true,
                    _ => false,
                };
                if self.scraper.is_some() {
                    self.terminating = terminating;
                    (Some(RequestResponse::Active(false)), Vec::new())
                } else {
                    let mut actions: Vec<InstanceAction> = Vec::new();
                    actions.push(InstanceAction::SpawnScraper(request.dup()));
                    let is_api = match &request {
                        StartRequest::Api => true,
                        _ => false,
                    };
                    self.scraper = Some(request);
                    self.terminating = terminating;
                    if is_api {
                        (Some(RequestResponse::Active(true)), actions)
                    } else {
                        (None, actions)
                    }
                }
            },
        }
    }
}

/// Assemble the post-run pipeline's actions.
fn post_run_actions(
    user: &UserData,
    prev: FailureType,
    code: FailureType,
    trigger_was_timer: bool,
    now: i64,
    marker: bool,
) -> (actions: Vec<InstanceAction>)
    requires
        user.wf(),
        ts_wf(now),
    ensures
        actions@ =~= spec_post_run_actions(*user, prev, code, trigger_was_timer, now, marker),
{
    let mut actions: Vec<InstanceAction> = Vec::new();
    actions.push(
        InstanceAction::UpdateTimestamps(update_instance_timestamps(&code, trigger_was_timer, now)),
    );
    let standing = compute_standing(
        user.user_properties.auto_delete_account,
        user.last_successful_sign_in_date,
        user.last_execution_date,
        user.creation_date,
        now,
    );
    match standing {
        InstanceStanding::MustDelete => {
            actions.push(InstanceAction::DeleteAccount(DeletedReason::OldAge));
            actions.push(InstanceAction::SendMail(MailEvent::AccountDeleted(DeletedReason::OldAge)));
            actions.push(InstanceAction::EnqueueDelete);
            return actions;
        },
        InstanceStanding::MustDeleteFresh => {
            actions.push(InstanceAction::DeleteAccount(DeletedReason::NewDead));
            actions.push(InstanceAction::SendMail(MailEvent::AccountDeleted(DeletedReason::NewDead)));
            actions.push(InstanceAction::EnqueueDelete);
            return actions;
        },
        InstanceStanding::Safe => {
            if marker {
                actions.push(InstanceAction::RemoveWarningMarker);
            }
        },
        InstanceStanding::AlmostDeleted => {
            if !marker {
                actions.push(InstanceAction::SendMail(MailEvent::DeletionWarning));
                actions.push(InstanceAction::CreateWarningMarker);
            }
        },
        _ => {},
    }
    if !prev.same_as(&code) {
        let code_for_patch = code.dup();
        let code_for_heartbeat = code.dup();
        actions.push(InstanceAction::PatchCalendarExitCode(prev, code_for_patch));
        actions.push(InstanceAction::Heartbeat(code_for_heartbeat));
    }
    actions.push(InstanceAction::PersistLogbook(code));
    actions
}

impl UserInstance {
    /// An equal copy.
    pub fn dup(&self) -> (r: UserInstance)
        ensures
            r == *self,
    {
        UserInstance {
            user: self.user.dup(),
            properties: self.properties.dup(),
            scraper: match &self.scraper {
                Some(t) => Some(t.dup()),
                None => None,
            },
            last_exit_code: self.last_exit_code.dup(),
            execution_time: self.execution_time,
            terminating: self.terminating,
        }
    }
}

/// Whether some instance in the sequence carries this user name.
pub open spec fn spec_has_in(s: Seq<UserInstance>, n: Seq<char>) -> bool {
    exists|i: int| 0 <= i < s.len() && s[i].user.user_name@ == n
}

/// Whether some string in the sequence reads as this name.
pub open spec fn seq_contains_str(v: Seq<String>, n: Seq<char>) -> bool {
    exists|i: int| 0 <= i < v.len() && v[i]@ == n
}

/// No two instances carry the same user name.
pub open spec fn distinct_names(s: Seq<UserInstance>) -> bool {
    forall|i: int, j: int|
        0 <= i < j < s.len() ==> s[i].user.user_name@ != s[j].user.user_name@
}

/// Appending an instance adds exactly its name.
pub proof fn lemma_has_in_push(s: Seq<UserInstance>, e: UserInstance, n: Seq<char>)
    ensures
        spec_has_in(s.push(e), n) == (spec_has_in(s, n) || e.user.user_name@ == n),
{
    if spec_has_in(s, n) {
        let i = choose|i: int| 0 <= i < s.len() && s[i].user.user_name@ == n;
        assert(s.push(e)[i] == s[i]);
        assert(spec_has_in(s.push(e), n));
    }
    if e.user.user_name@ == n {
        assert(s.push(e)[s.len() as int] == e);
        assert(spec_has_in(s.push(e), n));
    }
    if spec_has_in(s.push(e), n) {
        let i = choose|i: int| 0 <= i < s.push(e).len() && s.push(e)[i].user.user_name@ == n;
        if i < s.len() {
            assert(s[i] == s.push(e)[i]);
            assert(spec_has_in(s, n));
        } else {
            assert(s.push(e)[i] == e);
        }
    }
}

/// Appending an instance adds exactly itself to the contents.
pub proof fn lemma_contains_push(s: Seq<UserInstance>, e: UserInstance, x: UserInstance)
    ensures
        s.push(e).contains(x) == (s.contains(x) || x == e),
{
    if s.contains(x) {
        let i = choose|i: int| 0 <= i < s.len() && s[i] == x;
        assert(s.push(e)[i] == s[i]);
        assert(s.push(e).contains(x));
    }
    if x == e {
        assert(s.push(e)[s.len() as int] == e);
        assert(s.push(e).contains(x));
    }
    if s.push(e).contains(x) {
        let i = choose|i: int| 0 <= i < s.push(e).len() && s.push(e)[i] == x;
        if i < s.len() {
            assert(s[i] == s.push(e)[i]);
            assert(s.contains(x));
        } else {
            assert(s.push(e)[i] == e);
        }
    }
}

/// Whether the list of user names holds this one.
fn vec_contains_str(v: &Vec<String>, s: &String) -> (r: bool)
    ensures
        r == seq_contains_str(v@, s@),
{
    let mut i: usize = 0;
    while i < v.len()
        invariant
            i <= v@.len(),
            forall|j: int| 0 <= j < i ==> v@[j]@ != s@,
        decreases v@.len() - i,
    {
        if v[i] == *s {
            return true;
        }
        i = i + 1;
    }
    false
}

/// The set of live instances, one per user name.
pub struct Fleet {
    pub instances: Vec<UserInstance>,
}

/// At most one instance per user name, each well-formed.
pub open spec fn fleet_wf(f: Fleet) -> bool {
    &&& distinct_names(f.instances@)
    &&& forall|i: int| 0 <= i < f.instances@.len() ==> (#[trigger] f.instances@[i]).wf()
}

impl Fleet {
    /// Whether an instance with this name is live.
    pub open spec fn spec_has(self, n: Seq<char>) -> bool {
        spec_has_in(self.instances@, n)
    }

    pub fn new() -> (r: Fleet)
        ensures
            fleet_wf(r),
            r.instances@ =~= Seq::<UserInstance>::empty(),
    {
        Fleet { instances: Vec::new() }
    }

    /// The position of the instance with this name, where one is live.
    pub fn find_index(&self, name: &String) -> (r: Option<usize>)
        ensures
            match r {
                Some(i) => i < self.instances@.len() && self.instances@[
                    i as int
                ].user.user_name@ == name@,
                None => !self.spec_has(name@),
            },
    {
        let mut i: usize = 0;
        while i < self.instances.len()
            invariant
                i <= self.instances@.len(),
                forall|j: int| 0 <= j < i ==> self.instances@[j].user.user_name@ != name@,
            decreases self.instances@.len() - i,
        {
            if self.instances[i].user.user_name == *name {
                return Some(i);
            }
            i = i + 1;
        }
        None
    }
}

/// Retire every instance whose user has left storage: keep exactly the
/// instances whose names the user list still holds.
pub fn stop_instances(fleet: &mut Fleet, db_users: &Vec<String>)
    requires
        fleet_wf(*old(fleet)),
    ensures
        fleet_wf(*final(fleet)),
        forall|n: Seq<char>|
            #![trigger spec_has_in(final(fleet).instances@, n)]
            spec_has_in(final(fleet).instances@, n) == (spec_has_in(old(fleet).instances@, n)
                && seq_contains_str(db_users@, n)),
        forall|j: int|
            0 <= j < old(fleet).instances@.len() && seq_contains_str(
                db_users@,
                (#[trigger] old(fleet).instances@[j]).user.user_name@,
            ) ==> final(fleet).instances@.contains(old(fleet).instances@[j]),
        forall|j: int|
            0 <= j < final(fleet).instances@.len() ==> old(fleet).instances@.contains(
                #[trigger] final(fleet).instances@[j],
            ),
{
    let ghost orig = fleet.instances@;
    let mut kept: Vec<UserInstance> = Vec::new();
    let mut i: usize = 0;
    proof {
        assert(orig.take(0) =~= Seq::<UserInstance>::empty());
    }
    while i < fleet.instances.len()
        invariant
            i <= orig.len(),
            fleet.instances@ == orig,
            fleet_wf(*fleet),
            forall|n: Seq<char>|
                #![trigger spec_has_in(kept@, n)]
                spec_has_in(kept@, n) == (spec_has_in(orig.take(i as int), n) && seq_contains_str(
                    db_users@,
                    n,
                )),
            forall|j: int|
                0 <= j < i && seq_contains_str(
                    db_users@,
                    (#[trigger] orig[j]).user.user_name@,
                ) ==> kept@.contains(orig[j]),
            forall|j: int| 0 <= j < kept@.len() ==> orig.contains(#[trigger] kept@[j]),
            distinct_names(kept@),
            forall|j: int| 0 <= j < kept@.len() ==> (#[trigger] kept@[j]).wf(),
        decreases orig.len() - i,
    {
        let ghost kept_before = kept@;
        let in_db = vec_contains_str(db_users, &fleet.instances[i].user.user_name);
        if in_db {
            let copy = fleet.instances[i].dup();
            kept.push(copy);
        }
        proof {
            assert(orig.take(i as int + 1) =~= orig.take(i as int).push(orig[i as int]));
            assert forall|n: Seq<char>|
                spec_has_in(kept@, n) == (spec_has_in(orig.take(i as int + 1), n)
                    && seq_contains_str(db_users@, n)) by {
                lemma_has_in_push(orig.take(i as int), orig[i as int], n);
                if in_db {
                    lemma_has_in_push(kept_before, orig[i as int], n);
                }
            }
            if in_db {
                assert forall|j: int| 0 <= j < kept@.len() implies orig.contains(
                    #[trigger] kept@[j],
                ) by {
                    lemma_contains_push(kept_before, orig[i as int], kept@[j]);
                }
                assert forall|j: int|
                    0 <= j < i + 1 && seq_contains_str(
                        db_users@,
                        (#[trigger] orig[j]).user.user_name@,
                    ) implies kept@.contains(orig[j]) by {
                    lemma_contains_push(kept_before, orig[i as int], orig[j]);
                }
                assert(distinct_names(kept@)) by {
                    assert forall|a: int, b: int| 0 <= a < b < kept@.len() implies kept@[
                        a
                    ].user.user_name@ != kept@[b].user.user_name@ by {
                        if b == kept@.len() - 1 {
                            assert(kept@[b] == orig[i as int]);
                            assert(!spec_has_in(kept_before, orig[i as int].user.user_name@));
                            assert(kept@[a] == kept_before[a]);
                        }
                    }
                }
                assert forall|j: int| 0 <= j < kept@.len() implies (#[trigger] kept@[j]).wf() by {
                    if j == kept@.len() - 1 {
                        assert(kept@[j] == orig[i as int]);
                    }
                }
            } else {
                assert forall|j: int|
                    0 <= j < i + 1 && seq_contains_str(
                        db_users@,
                        (#[trigger] orig[j]).user.user_name@,
                    ) implies kept@.contains(orig[j]) by {}
            }
        }
        i = i + 1;
    }
    proof {
        assert(orig.take(orig.len() as int) =~= orig);
    }
    fleet.instances = kept;
}

/// Bring the freshly created instances into the fleet.
pub fn add_instances(fleet: &mut Fleet, new_instances: Vec<UserInstance>)
    requires
        fleet_wf(*old(fleet)),
        forall|k: int| 0 <= k < new_instances@.len() ==> (#[trigger] new_instances@[k]).wf(),
        forall|k: int|
            0 <= k < new_instances@.len() ==> !spec_has_in(
                old(fleet).instances@,
                (#[trigger] new_instances@[k]).user.user_name@,
            ),
        distinct_names(new_instances@),
    ensures
        fleet_wf(*final(fleet)),
        forall|n: Seq<char>|
            #![trigger spec_has_in(final(fleet).instances@, n)]
            spec_has_in(final(fleet).instances@, n) == (spec_has_in(old(fleet).instances@, n)
                || spec_has_in(new_instances@, n)),
        forall|j: int|
            0 <= j < old(fleet).instances@.len() ==> final(fleet).instances@.contains(
                #[trigger] old(fleet).instances@[j],
            ),
        forall|k: int|
            0 <= k < new_instances@.len() ==> final(fleet).instances@.contains(
                #[trigger] new_instances@[k],
            ),
{
    let ghost adds0 = new_instances@;
    let ghost fleet0 = fleet.instances@;
    let mut adds = new_instances;
    while adds.len() > 0
        invariant
            adds@ == adds0.take(adds@.len() as int),
            adds@.len() <= adds0.len(),
            fleet_wf(*fleet),
            forall|n: Seq<char>|
                #![trigger spec_has_in(fleet.instances@, n)]
                spec_has_in(fleet.instances@, n) == (spec_has_in(fleet0, n) || exists|k: int|
                    adds@.len() <= k < adds0.len() && (#[trigger] adds0[k]).user.user_name@ == n),
            forall|j: int|
                0 <= j < fleet0.len() ==> fleet.instances@.contains(#[trigger] fleet0[j]),
            forall|k: int|
                adds@.len() <= k < adds0.len() ==> fleet.instances@.contains(
                    #[trigger] adds0[k],
                ),
            forall|k: int|
                0 <= k < adds@.len() ==> !spec_has_in(
                    fleet.instances@,
                    (#[trigger] adds0[k]).user.user_name@,
                ),
            forall|k: int| 0 <= k < adds0.len() ==> (#[trigger] adds0[k]).wf(),
            distinct_names(adds0),
            forall|k: int|
                0 <= k < adds0.len() ==> !spec_has_in(
                    fleet0,
                    (#[trigger] adds0[k]).user.user_name@,
                ),
        decreases adds@.len(),
    {
        let ghost m = adds@.len() as int;
        let ghost fleet_before = fleet.instances@;
        let inst = adds.pop().unwrap();
        proof {
            assert(adds0.take(m).drop_last() =~= adds0.take(m - 1));
            assert(inst == adds0[m - 1]);
        }
        fleet.instances.push(inst);
        proof {
            assert forall|n: Seq<char>|
                spec_has_in(fleet.instances@, n) == (spec_has_in(fleet0, n) || exists|k: int|
                    m - 1 <= k < adds0.len() && (#[trigger] adds0[k]).user.user_name@ == n) by {
                lemma_has_in_push(fleet_before, adds0[m - 1], n);
                if spec_has_in(fleet_before, n) {
                } else if adds0[m - 1].user.user_name@ == n {
                    assert(adds0[m - 1].user.user_name@ == n && m - 1 <= m - 1 < adds0.len());
                }
            }
            assert forall|j: int| 0 <= j < fleet0.len() implies fleet.instances@.contains(
                #[trigger] fleet0[j],
            ) by {
                lemma_contains_push(fleet_before, adds0[m - 1], fleet0[j]);
            }
            assert forall|k: int| m - 1 <= k < adds0.len() implies fleet.instances@.contains(
                #[trigger] adds0[k],
            ) by {
                lemma_contains_push(fleet_before, adds0[m - 1], adds0[k]);
            }
            assert forall|k: int| 0 <= k < m - 1 implies !spec_has_in(
                fleet.instances@,
                (#[trigger] adds0[k]).user.user_name@,
            ) by {
                lemma_has_in_push(fleet_before, adds0[m - 1], adds0[k].user.user_name@);
            }
            assert(distinct_names(fleet.instances@)) by {
                assert forall|a: int, b: int| 0 <= a < b < fleet.instances@.len() implies
                    fleet.instances@[a].user.user_name@ != fleet.instances@[b].user.user_name@ by {
                    if b == fleet.instances@.len() - 1 {
                        assert(fleet.instances@[b] == adds0[m - 1]);
                        assert(!spec_has_in(fleet_before, adds0[m - 1].user.user_name@));
                        assert(fleet.instances@[a] == fleet_before[a]);
                    }
                }
            }
            assert forall|i2: int| 0 <= i2 < fleet.instances@.len() implies (
            #[trigger] fleet.instances@[i2]).wf() by {
                if i2 == fleet.instances@.len() - 1 {
                    assert(fleet.instances@[i2] == adds0[m - 1]);
                }
            }
        }
    }
    proof {
        assert(adds0.take(0) =~= Seq::<UserInstance>::empty());
    }
}

/// Refresh one live instance's snapshots in place: the user row and the
/// effective properties change; the runtime state does not, and no
/// instance appears or disappears.
pub fn refresh_instances(
    fleet: &mut Fleet,
    name: &String,
    user: UserData,
    properties: GeneralProperties,
)
    requires
        fleet_wf(*old(fleet)),
        user.wf(),
        properties.wf(),
        user.user_name@ == name@,
    ensures
        fleet_wf(*final(fleet)),
        final(fleet).instances@.len() == old(fleet).instances@.len(),
        forall|j: int|
            0 <= j < old(fleet).instances@.len() ==> (#[trigger] final(fleet).instances@[
                j
            ]).user.user_name@ == old(fleet).instances@[j].user.user_name@,
        forall|j: int|
            0 <= j < old(fleet).instances@.len() && old(fleet).instances@[j].user.user_name@
                != name@ ==> #[trigger] final(fleet).instances@[j] == old(fleet).instances@[j],
        forall|j: int|
            0 <= j < old(fleet).instances@.len() && old(fleet).instances@[j].user.user_name@
                == name@ ==> #[trigger] final(fleet).instances@[j] == (UserInstance {
                user: user,
                properties: properties,
                scraper: old(fleet).instances@[j].scraper,
                last_exit_code: old(fleet).instances@[j].last_exit_code,
                execution_time: old(fleet).instances@[j].execution_time,
                terminating: old(fleet).instances@[j].terminating,
            }),
{
    let found = fleet.find_index(name);
    match found {
        None => {
            proof {
                assert forall|j: int|
                    0 <= j < fleet.instances@.len() implies fleet.instances@[j].user.user_name@
                    != name@ by {
                    if fleet.instances@[j].user.user_name@ == name@ {
                        assert(spec_has_in(fleet.instances@, name@));
                    }
                }
            }
        },
        Some(idx) => {
            let ghost before = fleet.instances@;
            let mut inst = fleet.instances.remove(idx);
            inst.user = user;
            inst.properties = properties;
            fleet.instances.insert(idx, inst);
            proof {
                assert(fleet.instances@ =~= before.update(
                    idx as int,
                    UserInstance {
                        user: user,
                        properties: properties,
                        scraper: before[idx as int].scraper,
                        last_exit_code: before[idx as int].last_exit_code,
                        execution_time: before[idx as int].execution_time,
                        terminating: before[idx as int].terminating,
                    },
                ));
                assert forall|j: int|
                    0 <= j < before.len() && before[j].user.user_name@ == name@ implies j
                    == idx as int by {
                    if j != idx as int {
                        assert(before[idx as int].user.user_name@ == name@);
                    }
                }
            }
        },
    }
}

/// A monitor-directory name a reconcile never touches: neither the name
/// nor the notification name of any freshly created instance, nor of any
/// instance whose user has left storage.
pub open spec fn spec_monitor_untouched(
    m: Seq<char>,
    old_fleet: Seq<UserInstance>,
    db: Seq<String>,
    adds: Seq<UserInstance>,
) -> bool {
    &&& forall|k: int|
        0 <= k < adds.len() ==> (#[trigger] adds[k]).user.user_name@ != m
            && crate::kuma::spec_mail_name(adds[k].user.user_name@) != m
    &&& forall|j: int|
        0 <= j < old_fleet.len() && !seq_contains_str(
            db,
            (#[trigger] old_fleet[j]).user.user_name@,
        ) ==> old_fleet[j].user.user_name@ != m && crate::kuma::spec_mail_name(
            old_fleet[j].user.user_name@,
        ) != m
}

/// One full reconcile: retire the instances of users no longer stored,
/// bring in the freshly loaded instances of new users, and, except on the
/// first run after boot, mirror the change into the monitor directory.
/// Afterwards the fleet's names are exactly the stored user names.
pub fn start_stop_instances(
    fleet: &mut Fleet,
    db_users: &Vec<String>,
    new_instances: Vec<UserInstance>,
    dir: &mut crate::kuma::MonitorDirectory,
    group_id: i32,
    first_run: bool,
)
    requires
        fleet_wf(*old(fleet)),
        crate::kuma::dir_wf(*old(dir)),
        old(dir).create_count + 2 * new_instances@.len() < 0x1000_0000_0000_0000,
        old(dir).next_id + 2 * new_instances@.len() < 0x4000_0000,
        forall|k: int| 0 <= k < new_instances@.len() ==> (#[trigger] new_instances@[k]).wf(),
        forall|k: int|
            0 <= k < new_instances@.len() ==> !spec_has_in(
                old(fleet).instances@,
                (#[trigger] new_instances@[k]).user.user_name@,
            ),
        forall|k: int|
            0 <= k < new_instances@.len() ==> seq_contains_str(
                db_users@,
                (#[trigger] new_instances@[k]).user.user_name@,
            ),
        distinct_names(new_instances@),
        forall|n: Seq<char>|
            seq_contains_str(db_users@, n) && !spec_has_in(old(fleet).instances@, n)
                ==> spec_has_in(new_instances@, n),
    ensures
        fleet_wf(*final(fleet)),
        crate::kuma::dir_wf(*final(dir)),
        forall|n: Seq<char>|
            #![trigger spec_has_in(final(fleet).instances@, n)]
            spec_has_in(final(fleet).instances@, n) == seq_contains_str(db_users@, n),
        forall|j: int|
            0 <= j < old(fleet).instances@.len() && seq_contains_str(
                db_users@,
                (#[trigger] old(fleet).instances@[j]).user.user_name@,
            ) ==> final(fleet).instances@.contains(old(fleet).instances@[j]),
        forall|m: Seq<char>, k: crate::kuma::EntryKind|
            #![trigger crate::kuma::spec_find(final(dir).entries@, m, k)]
            spec_monitor_untouched(m, old(fleet).instances@, db_users@, new_instances@)
                ==> crate::kuma::spec_find(final(dir).entries@, m, k) == crate::kuma::spec_find(
                old(dir).entries@,
                m,
                k,
            ),
        first_run ==> *final(dir) == *old(dir),
        !first_run ==> forall|k: int|
            0 <= k < new_instances@.len() ==> crate::kuma::spec_find(
                final(dir).entries@,
                (#[trigger] new_instances@[k]).user.user_name@,
                crate::kuma::EntryKind::Monitor,
            ) is Some,
        !first_run ==> forall|n: Seq<char>|
            #![trigger crate::kuma::spec_find(final(dir).entries@, n, crate::kuma::EntryKind::Monitor)]
            spec_has_in(old(fleet).instances@, n) && !seq_contains_str(db_users@, n)
                ==> crate::kuma::spec_find(
                final(dir).entries@,
                n,
                crate::kuma::EntryKind::Monitor,
            ) is None,
{
    let ghost fleet0 = fleet.instances@;

    // The names of the instances about to be retired, before anything moves.
    let mut removed: Vec<String> = Vec::new();
    let mut i: usize = 0;
    while i < fleet.instances.len()
        invariant
            i <= fleet.instances@.len(),
            fleet.instances@ == fleet0,
            forall|idx: int|
                0 <= idx < i && !seq_contains_str(
                    db_users@,
                    (#[trigger] fleet0[idx]).user.user_name@,
                ) ==> seq_contains_str(removed@, fleet0[idx].user.user_name@),
            forall|j: int|
                0 <= j < removed@.len() ==> spec_has_in(fleet0, (#[trigger] removed@[j])@)
                    && !seq_contains_str(db_users@, removed@[j]@),
        decreases fleet.instances@.len() - i,
    {
        let ghost removed_before = removed@;
        let in_db = vec_contains_str(db_users, &fleet.instances[i].user.user_name);
        if !in_db {
            removed.push(fleet.instances[i].user.user_name.clone());
            proof {
                assert(removed@ =~= removed_before.push(removed@.last()));
                assert(removed@.last()@ == fleet0[i as int].user.user_name@);
                assert forall|idx: int|
                    0 <= idx < i + 1 && !seq_contains_str(
                        db_users@,
                        (#[trigger] fleet0[idx]).user.user_name@,
                    ) implies seq_contains_str(removed@, fleet0[idx].user.user_name@) by {
                    if idx < i {
                        let w = choose|w: int|
                            0 <= w < removed_before.len() && removed_before[w]@ == fleet0[
                                idx
                            ].user.user_name@;
                        assert(removed@[w]@ == fleet0[idx].user.user_name@);
                    } else {
                        assert(removed@[removed@.len() - 1]@ == fleet0[idx].user.user_name@);
                    }
                }
            }
        } else {
            proof {
                assert forall|idx: int|
                    0 <= idx < i + 1 && !seq_contains_str(
                        db_users@,
                        (#[trigger] fleet0[idx]).user.user_name@,
                    ) implies seq_contains_str(removed@, fleet0[idx].user.user_name@) by {}
            }
        }
        i = i + 1;
    }

    // The monitors the new instances ask for.
    let mut to_create: Vec<crate::kuma::MonitorRequest> = Vec::new();
    let mut k: usize = 0;
    while k < new_instances.len()
        invariant
            k <= new_instances@.len(),
            to_create@.len() == k,
            forall|k: int| 0 <= k < new_instances@.len() ==> (#[trigger] new_instances@[k]).wf(),
            forall|j: int|
                0 <= j < k ==> (#[trigger] to_create@[j]).user_name@ == new_instances@[
                    j
                ].user.user_name@,
        decreases new_instances@.len() - k,
    {
        let inst = &new_instances[k];
        let interval = crate::kuma::monitor_interval(
            inst.user.user_properties.execution_interval_minutes,
            inst.properties.expected_execution_time_seconds,
        );
        to_create.push(
            crate::kuma::MonitorRequest {
                user_name: inst.user.user_name.clone(),
                interval_seconds: interval,
                max_retries: inst.properties.kuma_properties.hearbeat_retry,
            },
        );
        k = k + 1;
    }

    let ghost adds0 = new_instances@;
    stop_instances(fleet, db_users);
    add_instances(fleet, new_instances);
    proof {
        assert forall|n: Seq<char>| spec_has_in(fleet.instances@, n) == seq_contains_str(
            db_users@,
            n,
        ) by {
            if spec_has_in(adds0, n) {
                let w = choose|w: int| 0 <= w < adds0.len() && adds0[w].user.user_name@ == n;
                assert(seq_contains_str(db_users@, adds0[w].user.user_name@));
            }
        }
    }

    if !first_run {
        crate::kuma::manage_users(dir, group_id, &to_create, &removed);
        proof {
            assert forall|k2: int| 0 <= k2 < adds0.len() implies crate::kuma::spec_find(
                dir.entries@,
                (#[trigger] adds0[k2]).user.user_name@,
                crate::kuma::EntryKind::Monitor,
            ) is Some by {
                assert(to_create@[k2].user_name@ == adds0[k2].user.user_name@);
            }
            assert forall|n: Seq<char>|
                spec_has_in(fleet0, n) && !seq_contains_str(db_users@, n)
                    implies #[trigger] crate::kuma::spec_find(
                dir.entries@,
                n,
                crate::kuma::EntryKind::Monitor,
            ) is None by {
                let w = choose|w: int| 0 <= w < fleet0.len() && fleet0[w].user.user_name@ == n;
                assert(seq_contains_str(removed@, fleet0[w].user.user_name@));
                let j = choose|j: int| 0 <= j < removed@.len() && removed@[j]@ == n;
                assert forall|i2: int| 0 <= i2 < to_create@.len() implies (
                #[trigger] to_create@[i2]).user_name@ != removed@[j]@ by {
                    assert(seq_contains_str(db_users@, adds0[i2].user.user_name@));
                }
            }
        }
    }
}

} // verus!
