//! Execution-time planning.
//!
//! Every user instance carries a `next execution time` at minute precision.
//! Three rules produce these times: the re-plan rule applied after every
//! tick, the simple first-plan rule that smears cold-start load by a random
//! hour offset, and the initial-plan rule that restores a user's cadence
//! across process restarts.

use vstd::prelude::*;
use crate::errors::FailureType;

verus! {

/// One event in a user instance's inbox: the execution triggers, the pure
/// queries, control, and the completion report the scraper task posts back
/// into its own instance's inbox.
#[derive(Clone, Debug, PartialEq)]
pub enum StartRequest {
    Timer,
    Api,
    Single,
    Force,
    Logbook,
    Name,
    IsActive,
    ExitCode,
    UserData,
    Welcome,
    Calendar,
    Delete,
    Standing,
    ExecutionFinished(FailureType),
}

impl StartRequest {
    /// An equal copy.
    pub fn dup(&self) -> (r: StartRequest)
        ensures
            r == *self,
    {
        match self {
            StartRequest::Timer => StartRequest::Timer,
            StartRequest::Api => StartRequest::Api,
            StartRequest::Single => StartRequest::Single,
            StartRequest::Force => StartRequest::Force,
            StartRequest::Logbook => StartRequest::Logbook,
            StartRequest::Name => StartRequest::Name,
            StartRequest::IsActive => StartRequest::IsActive,
            StartRequest::ExitCode => StartRequest::ExitCode,
            StartRequest::UserData => StartRequest::UserData,
            StartRequest::Welcome => StartRequest::Welcome,
            StartRequest::Calendar => StartRequest::Calendar,
            StartRequest::Delete => StartRequest::Delete,
            StartRequest::Standing => StartRequest::Standing,
            StartRequest::ExecutionFinished(code) => StartRequest::ExecutionFinished(code.dup()),
        }
    }

    /// The four events that ask for a portal run.
    pub open spec fn is_execution_trigger(self) -> bool {
        ||| self == StartRequest::Timer
        ||| self == StartRequest::Api
        ||| self == StartRequest::Single
        ||| self == StartRequest::Force
    }

    /// The pure reads: they never change instance state.
    pub open spec fn is_query(self) -> bool {
        ||| self == StartRequest::Logbook
        ||| self == StartRequest::Name
        ||| self == StartRequest::IsActive
        ||| self == StartRequest::ExitCode
        ||| self == StartRequest::UserData
        ||| self == StartRequest::Calendar
        ||| self == StartRequest::Standing
    }
}

/// A wall-clock time of day at minute precision; planned execution times
/// always have zero seconds.
#[derive(Clone, Copy, Debug, PartialEq, Eq, Structural)]
pub struct TimeOfDay {
    pub hour: u8,
    pub minute: u8,
}

impl TimeOfDay {
    /// A valid time has an hour below 24 and a minute below 60.
    pub open spec fn wf(self) -> bool {
        self.hour < 24 && self.minute < 60
    }

    /// The minute of the day, in `[0, 1440)`.
    pub open spec fn minute_of_day(self) -> int {
        self.hour * 60 + self.minute
    }

    pub fn new(hour: u8, minute: u8) -> (r: TimeOfDay)
        requires
            hour < 24,
            minute < 60,
        ensures
            r.wf(),
            r.hour == hour,
            r.minute == minute,
    {
        TimeOfDay { hour, minute }
    }

    /// Advance by whole hours, wrapping at midnight; the minute is kept.
    pub fn plus_hours(self, h: u8) -> (r: TimeOfDay)
        requires
            self.wf(),
            h <= 24,
        ensures
            r.wf(),
            r.hour == (self.hour + h) % 24,
            r.minute == self.minute,
    {
        TimeOfDay { hour: (self.hour + h) % 24, minute: self.minute }
    }

    /// Advance by minutes, wrapping at midnight.
    pub fn plus_minutes(self, m: u16) -> (r: TimeOfDay)
        requires
            self.wf(),
            m <= 1440,
        ensures
            r.wf(),
            r.minute_of_day() == (self.minute_of_day() + m) % 1440,
    {
        let total: u16 = ((self.hour as u16) * 60 + (self.minute as u16) + m) % 1440;
        let r = TimeOfDay { hour: (total / 60) as u8, minute: (total % 60) as u8 };
        proof {
            assert(total / 60 < 24 && r.minute_of_day() == total);
        }
        r
    }

    /// Replace the minute field.
    pub fn with_minute(self, minute: u8) -> (r: TimeOfDay)
        requires
            self.wf(),
            minute < 60,
        ensures
            r.wf(),
            r.hour == self.hour,
            r.minute == minute,
    {
        TimeOfDay { hour: self.hour, minute }
    }
}

/// Minutes one has to wait, starting at `a`, until the clock next shows `b`.
pub open spec fn forward_minutes(a: TimeOfDay, b: TimeOfDay) -> int {
    (b.minute_of_day() - a.minute_of_day()) % 1440
}

/// Hours added by the re-plan rule: the interval in whole hours, at least one.
pub open spec fn spec_next_hours(interval_min: i32) -> int {
    if interval_min / 60 == 0 {
        1
    } else {
        interval_min / 60
    }
}

/// Hours drawn from by the first-plan rule: the interval in whole hours,
/// clamped to `[1, 2]` so a cold start never defers a user by more than
/// two hours.
pub open spec fn spec_first_hours(interval_min: i32) -> int {
    if interval_min / 60 <= 1 {
        1
    } else {
        2
    }
}

/// The minute chosen by the first-plan rule: the user's execution minute
/// when it still lies ahead or another hour was drawn, else the next minute.
pub open spec fn spec_first_minute(now: TimeOfDay, execution_minute: i32, k: int) -> int {
    if now.minute < execution_minute || k != 0 {
        execution_minute as int
    } else {
        (now.minute + 1) % 60
    }
}

/// The full first-plan result for a drawn hour offset `k`.
pub open spec fn spec_plan_first_simple(
    now: TimeOfDay,
    execution_minute: i32,
    k: int,
) -> TimeOfDay {
    TimeOfDay {
        hour: ((now.hour + k) % 24) as u8,
        minute: spec_first_minute(now, execution_minute, k) as u8,
    }
}

/// Relies on rand::random_range over `lo..=hi`: an integer drawn from the
/// inclusive range.  Nothing more can be promised of a random value.
#[verifier::external_body]
fn random_in_range(lo: i32, hi: i32) -> (r: i32)
    requires
        lo <= hi,
    ensures
        lo <= r <= hi,
{
    rand::random_range(lo..=hi)
}

/// The full re-plan result.
pub open spec fn spec_replan(now: TimeOfDay, interval_min: i32, execution_minute: i32) -> TimeOfDay {
    TimeOfDay {
        hour: ((now.hour + spec_next_hours(interval_min)) % 24) as u8,
        minute: execution_minute as u8,
    }
}

/// Re-plan rule, applied after every timer tick: advance by the interval in
/// whole hours (at least one) and normalize the minute to the user's
/// execution minute.  Seconds are always zeroed.
pub fn calculate_next_execution_time(
    now: TimeOfDay,
    interval_min: i32,
    execution_minute: i32,
) -> (r: TimeOfDay)
    requires
        now.wf(),
        1 <= interval_min <= 1440,
        0 <= execution_minute <= 59,
    ensures
        r.wf(),
        r == spec_replan(now, interval_min, execution_minute),
        r.hour == (now.hour + spec_next_hours(interval_min)) % 24,
        r.minute == execution_minute,
{
    let mut h: i32 = interval_min / 60;
    if h == 0 {
        h = 1;
    }
    now.plus_hours(h as u8).with_minute(execution_minute as u8)
}

/// First-plan rule with the drawn hour offset made explicit: advance `now`
/// by `k` hours, then set the minute to the execution minute when it still
/// lies ahead or `k` is nonzero, else to the next minute (wrapping at 60).
pub fn calculate_first_execution_time_simple_with(
    now: TimeOfDay,
    interval_min: i32,
    execution_minute: i32,
    k: i32,
) -> (r: TimeOfDay)
    requires
        now.wf(),
        1 <= interval_min <= 1440,
        0 <= execution_minute <= 59,
        0 <= k <= spec_first_hours(interval_min),
    ensures
        r.wf(),
        r == spec_plan_first_simple(now, execution_minute, k as int),
{
    let shifted = now.plus_hours(k as u8);
    if now.minute < execution_minute as u8 || k != 0 {
        shifted.with_minute(execution_minute as u8)
    } else {
        shifted.with_minute((now.minute + 1) % 60)
    }
}

/// First-plan rule: pick a random hour offset in `[0, h]` with `h` the
/// clamped interval in hours, then plan as the explicit rule does.
pub fn calculate_first_execution_time_simple(
    now: TimeOfDay,
    interval_min: i32,
    execution_minute: i32,
) -> (r: TimeOfDay)
    requires
        now.wf(),
        1 <= interval_min <= 1440,
        0 <= execution_minute <= 59,
    ensures
        r.wf(),
        exists|k: int|
            0 <= k <= spec_first_hours(interval_min) && r == spec_plan_first_simple(
                now,
                execution_minute,
                k,
            ),
{
    let mut h: i32 = interval_min / 60;
    if h < 1 {
        h = 1;
    }
    if h > 2 {
        h = 2;
    }
    let k = random_in_range(0, h);
    let r = calculate_first_execution_time_simple_with(now, interval_min, execution_minute, k);
    proof {
        assert(0 <= k as int <= spec_first_hours(interval_min) && r == spec_plan_first_simple(
            now,
            execution_minute,
            k as int,
        ));
    }
    r
}

/// Initial-plan rule, used when an instance is created: when the user was
/// last executed by the system within its interval, restore the cadence by
/// planning exactly the remaining minutes from now; otherwise (or when the
/// user was never executed) fall back to the simple first plan.
pub fn calculate_initial_execution_time(
    elapsed_minutes: Option<i64>,
    interval_min: i32,
    execution_minute: i32,
    now: TimeOfDay,
) -> (r: TimeOfDay)
    requires
        now.wf(),
        1 <= interval_min <= 1440,
        0 <= execution_minute <= 59,
        elapsed_minutes is Some ==> elapsed_minutes->0 >= 0,
    ensures
        r.wf(),
        match elapsed_minutes {
            Some(e) => if e < interval_min {
                r.minute_of_day() == (now.minute_of_day() + (interval_min - e)) % 1440
            } else {
                exists|k: int|
                    0 <= k <= spec_first_hours(interval_min) && r == spec_plan_first_simple(
                        now,
                        execution_minute,
                        k,
                    )
            },
            None => exists|k: int|
                0 <= k <= spec_first_hours(interval_min) && r == spec_plan_first_simple(
                    now,
                    execution_minute,
                    k,
                ),
        },
{
    match elapsed_minutes {
        None => calculate_first_execution_time_simple(now, interval_min, execution_minute),
        Some(e) => {
            let remaining: i64 = (interval_min as i64) - e;
            if remaining > 0 {
                now.plus_minutes(remaining as u16)
            } else {
                calculate_first_execution_time_simple(now, interval_min, execution_minute)
            }
        },
    }
}

/// A planned time is due exactly when the clock shows its hour and minute.
pub fn is_due(next: TimeOfDay, now: TimeOfDay) -> (r: bool)
    ensures
        r == (next.hour == now.hour && next.minute == now.minute),
{
    next.hour == now.hour && next.minute == now.minute
}

/// Whether an instance's planned time is due at this clock reading.
pub open spec fn spec_instance_due(now: TimeOfDay) -> spec_fn(
    crate::watchdog::UserInstance,
) -> bool {
    |inst: crate::watchdog::UserInstance|
        inst.execution_time.hour == now.hour && inst.execution_time.minute == now.minute
}

/// One scheduler tick, taken at every whole minute: every instance whose
/// planned time shows this hour and minute is started (its name is
/// returned, in fleet order, for a `Timer` request) and re-planned by the
/// re-plan rule; every other instance is untouched.
pub fn execution_timer(fleet: &mut crate::watchdog::Fleet, now: TimeOfDay) -> (due: Vec<String>)
    requires
        crate::watchdog::fleet_wf(*old(fleet)),
        now.wf(),
    ensures
        crate::watchdog::fleet_wf(*final(fleet)),
        final(fleet).instances@.len() == old(fleet).instances@.len(),
        forall|j: int|
            0 <= j < old(fleet).instances@.len() && !spec_instance_due(now)(
                old(fleet).instances@[j],
            ) ==> #[trigger] final(fleet).instances@[j] == old(fleet).instances@[j],
        forall|j: int|
            0 <= j < old(fleet).instances@.len() && spec_instance_due(now)(
                old(fleet).instances@[j],
            ) ==> #[trigger] final(fleet).instances@[j] == (crate::watchdog::UserInstance {
                execution_time: spec_replan(
                    now,
                    old(fleet).instances@[j].user.user_properties.execution_interval_minutes,
                    old(fleet).instances@[j].user.user_properties.execution_minute,
                ),
                ..old(fleet).instances@[j]
            }),
        due@ == old(fleet).instances@.filter(spec_instance_due(now)).map_values(
            |inst: crate::watchdog::UserInstance| inst.user.user_name,
        ),
{
    let ghost orig = old(fleet).instances@;
    let ghost pred = spec_instance_due(now);
    let ghost to_name = |inst: crate::watchdog::UserInstance| inst.user.user_name;
    let mut due: Vec<String> = Vec::new();
    let mut i: usize = 0;
    proof {
        assert(orig.take(0) =~= Seq::<crate::watchdog::UserInstance>::empty());
        reveal_with_fuel(Seq::filter, 1);
        assert(orig.take(0).filter(pred).map_values(to_name) =~= Seq::<String>::empty());
    }
    while i < fleet.instances.len()
        invariant
            i <= orig.len(),
            fleet.instances@.len() == orig.len(),
            now.wf(),
            forall|j: int| i <= j < orig.len() ==> #[trigger] fleet.instances@[j] == orig[j],
            forall|j: int|
                0 <= j < i && !pred(orig[j]) ==> #[trigger] fleet.instances@[j] == orig[j],
            forall|j: int|
                0 <= j < i && pred(orig[j]) ==> #[trigger] fleet.instances@[j] == (
                crate::watchdog::UserInstance {
                    execution_time: spec_replan(
                        now,
                        orig[j].user.user_properties.execution_interval_minutes,
                        orig[j].user.user_properties.execution_minute,
                    ),
                    ..orig[j]
                }),
            crate::watchdog::fleet_wf(*fleet),
            forall|j: int| 0 <= j < orig.len() ==> (#[trigger] orig[j]).wf(),
            pred == spec_instance_due(now),
            to_name == (|inst: crate::watchdog::UserInstance| inst.user.user_name),
            due@ == orig.take(i as int).filter(pred).map_values(to_name),
        decreases orig.len() - i,
    {
        let ghost due_before = due@;
        proof {
            assert(orig.take(i as int + 1) =~= orig.take(i as int).push(orig[i as int]));
            crate::email::lemma_filter_push(orig.take(i as int), orig[i as int], pred);
        }
        let inst_due = is_due(fleet.instances[i].execution_time, now);
        if inst_due {
            due.push(fleet.instances[i].user.user_name.clone());
            let new_time = calculate_next_execution_time(
                now,
                fleet.instances[i].user.user_properties.execution_interval_minutes,
                fleet.instances[i].user.user_properties.execution_minute,
            );
            let ghost before = fleet.instances@;
            let mut inst = fleet.instances.remove(i);
            inst.execution_time = new_time;
            fleet.instances.insert(i, inst);
            proof {
                assert(fleet.instances@ =~= before.update(
                    i as int,
                    (crate::watchdog::UserInstance { execution_time: new_time, ..orig[i as int] }),
                ));
                assert(due@ =~= orig.take(i as int + 1).filter(pred).map_values(to_name));
                assert(crate::watchdog::distinct_names(fleet.instances@)) by {
                    assert forall|a: int, b: int|
                        0 <= a < b < fleet.instances@.len() implies fleet.instances@[
                        a
                    ].user.user_name@ != fleet.instances@[b].user.user_name@ by {
                        assert(fleet.instances@[a].user.user_name@ == before[a].user.user_name@);
                        assert(fleet.instances@[b].user.user_name@ == before[b].user.user_name@);
                    }
                }
                assert forall|j: int| 0 <= j < fleet.instances@.len() implies (
                #[trigger] fleet.instances@[j]).wf() by {
                    if j != i as int {
                        assert(fleet.instances@[j] == before[j]);
                    }
                }
            }
        } else {
            proof {
                assert(due@ =~= orig.take(i as int + 1).filter(pred).map_values(to_name));
            }
        }
        i = i + 1;
    }
    proof {
        assert(orig.take(orig.len() as int) =~= orig);
    }
    due
}

/// A plan restored from a last execution within the cadence window lies no
/// more than `interval_min` minutes past `now`.
pub proof fn lemma_initial_plan_within_interval(
    now: TimeOfDay,
    r: TimeOfDay,
    interval_min: i32,
    elapsed: i64,
)
    requires
        now.wf(),
        r.wf(),
        1 <= interval_min <= 1440,
        0 <= elapsed < interval_min,
        r.minute_of_day() == (now.minute_of_day() + (interval_min - elapsed)) % 1440,
    ensures
        forward_minutes(now, r) <= interval_min,
{
    let a = now.minute_of_day();
    let rem = interval_min - elapsed;
    assert(0 < rem <= 1440);
    assert(r.minute_of_day() == (a + rem) % 1440);
    assert((r.minute_of_day() - a) % 1440 == rem % 1440) by (nonlinear_arith)
        requires
            0 <= a < 1440,
            0 < rem <= 1440,
            r.minute_of_day() == (a + rem) % 1440,
    ;
    assert(rem % 1440 <= interval_min);
}

} // verus!
