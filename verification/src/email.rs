//! The notifier surface and the mail-adjacent pure helpers.
//!
//! The core never talks SMTP: it emits `MailEvent` values and the mailing
//! layer renders and sends them.  The helpers here compose the published
//! calendar link and the password-reset fragment that several mails embed.

use vstd::prelude::*;
use crate::shift::{Shift, ShiftState};

verus! {

/// Why an account was deleted; decides the wording of the farewell mail.
#[derive(Clone, Copy, Debug, PartialEq, Eq, Structural)]
pub enum DeletedReason {
    OldAge,
    NewDead,
    Manual,
}

impl DeletedReason {
    /// The explanation shown in the account-deleted mail.
    pub fn to_str(&self) -> (r: &'static str)
        ensures
            r@ == spec_deleted_reason_text(*self),
    {
        match self {
            DeletedReason::OldAge => "Er kon al een maand niet worden ingelogd op je account. We gaan er daarom vanuit dat je er geen gebruik meer van wilt maken.<br>Daarom hebben we je <b>account verwijderd.</b>",
            DeletedReason::NewDead => "Je hebt je recent aangemeld, maar je hebt geen juiste inloggegevens doorgegeven.<br>Daarom hebben we je <b>account verwijderd.</b>",
            DeletedReason::Manual => "We hebben je account verwijderd",
        }
    }
}

/// The wording chosen for each deletion reason.
pub open spec fn spec_deleted_reason_text(reason: DeletedReason) -> Seq<char> {
    match reason {
        DeletedReason::OldAge => "Er kon al een maand niet worden ingelogd op je account. We gaan er daarom vanuit dat je er geen gebruik meer van wilt maken.<br>Daarom hebben we je <b>account verwijderd.</b>"@,
        DeletedReason::NewDead => "Je hebt je recent aangemeld, maar je hebt geen juiste inloggegevens doorgegeven.<br>Daarom hebben we je <b>account verwijderd.</b>"@,
        DeletedReason::Manual => "We hebben je account verwijderd"@,
    }
}

/// One typed notification for the mailing layer to render and send.
/// Sending is best-effort; the core only decides what is owed.
#[derive(Clone, Debug, PartialEq)]
pub enum MailEvent {
    NewShifts(Vec<Shift>),
    UpdatedShifts(Vec<Shift>),
    RemovedShifts(Vec<Shift>),
    Welcome(bool),
    DeletionWarning,
    AccountDeleted(DeletedReason),
    SignInFailed(i32, bool),
    SignInRecovered,
    IncorrectNewPassword,
    OperatorErrors(Vec<String>),
}

impl MailEvent {
    /// Whether this is the first-failure sign-in mail.
    pub open spec fn is_first_signin_failure(self) -> bool {
        self matches MailEvent::SignInFailed(_, first) && first
    }
}

/// Whether the user's settings let this mail go out.  Shift mails and
/// sign-in mails honour their flags; lifecycle mails always go; a forced
/// welcome goes even where welcome mails are off.
pub fn mail_enabled(event: &MailEvent, properties: &crate::variables::UserProperties) -> (r: bool)
    ensures
        r == match *event {
            MailEvent::NewShifts(_) => properties.send_mail_new_shift,
            MailEvent::UpdatedShifts(_) => properties.send_mail_updated_shift,
            MailEvent::RemovedShifts(_) => properties.send_mail_removed_shift,
            MailEvent::Welcome(force) => force || properties.send_welcome_mail,
            MailEvent::DeletionWarning => true,
            MailEvent::AccountDeleted(_) => true,
            MailEvent::SignInFailed(_, _) => properties.send_failed_signin_mail,
            MailEvent::SignInRecovered => properties.send_failed_signin_mail,
            MailEvent::IncorrectNewPassword => properties.send_failed_signin_mail,
            MailEvent::OperatorErrors(_) => properties.send_error_mail,
        },
{
    match event {
        MailEvent::NewShifts(_) => properties.send_mail_new_shift,
        MailEvent::UpdatedShifts(_) => properties.send_mail_updated_shift,
        MailEvent::RemovedShifts(_) => properties.send_mail_removed_shift,
        MailEvent::Welcome(force) => *force || properties.send_welcome_mail,
        MailEvent::DeletionWarning => true,
        MailEvent::AccountDeleted(_) => true,
        MailEvent::SignInFailed(_, _) => properties.send_failed_signin_mail,
        MailEvent::SignInRecovered => properties.send_failed_signin_mail,
        MailEvent::IncorrectNewPassword => properties.send_failed_signin_mail,
        MailEvent::OperatorErrors(_) => properties.send_error_mail,
    }
}

/// The published calendar address: the calendar file appended to the
/// configured domain, with a separating slash where the domain lacks one.
pub open spec fn spec_calendar_link(domain: Seq<char>, filename: Seq<char>) -> Seq<char> {
    crate::variables::spec_path_join(domain, filename)
}

/// Compose the URL under which a user's calendar is published.
pub fn create_calendar_link(ical_domain: &str, ical_filename: &str) -> (r: String)
    ensures
        r@ == spec_calendar_link(ical_domain@, ical_filename@),
{
    crate::variables::path_join(ical_domain, ical_filename)
}

/// The calendar file name: the user's chosen file name, or the user name
/// where none is set, with the calendar extension appended.
pub open spec fn spec_ical_filename(user_name: Seq<char>, file_name: Seq<char>) -> Seq<char> {
    if file_name.len() == 0 {
        user_name + ".ics"@
    } else {
        file_name + ".ics"@
    }
}

/// Compose the calendar file name for a user.
pub fn create_ical_filename(user_name: &str, file_name: &str) -> (r: String)
    ensures
        r@ == spec_ical_filename(user_name@, file_name@),
{
    if file_name.is_empty() {
        String::from_str(user_name).concat(".ics")
    } else {
        String::from_str(file_name).concat(".ics")
    }
}

/// The first shift with this fingerprint, by position.
pub open spec fn spec_find_magic(s: Seq<Shift>, magic: i64) -> Option<int>
    decreases s.len(),
{
    if s.len() == 0 {
        None
    } else if s[0].magic_number == magic {
        Some(0int)
    } else {
        match spec_find_magic(s.drop_first(), magic) {
            Some(i) => Some(i + 1),
            None => None,
        }
    }
}

/// The first shift on this date, by position.
pub open spec fn spec_find_date(s: Seq<Shift>, date: i64) -> Option<int>
    decreases s.len(),
{
    if s.len() == 0 {
        None
    } else if s[0].date == date {
        Some(0int)
    } else {
        match spec_find_date(s.drop_first(), date) {
            Some(i) => Some(i + 1),
            None => None,
        }
    }
}



/// Fold one freshly loaded shift into the known set: a known fingerprint
/// marks the known record unchanged; a new fingerprint on a known date
/// replaces that day's record as changed; anything else is a new shift.
pub open spec fn spec_merge_one(prev: Seq<Shift>, s: Shift) -> Seq<Shift> {
    match spec_find_magic(prev, s.magic_number) {
        Some(i) => prev.update(i, (Shift { state: ShiftState::Unchanged, ..prev[i] })),
        None => match spec_find_date(prev, s.date) {
            Some(i) => prev.remove(i).push((Shift { state: ShiftState::Changed, ..s })),
            None => prev.push((Shift { state: ShiftState::New, ..s })),
        },
    }
}

/// Fold every freshly loaded shift into the known set, in order.
pub open spec fn spec_merge(prev: Seq<Shift>, new: Seq<Shift>) -> Seq<Shift>
    decreases new.len(),
{
    if new.len() == 0 {
        prev
    } else {
        spec_merge(spec_merge_one(prev, new[0]), new.drop_first())
    }
}

/// Folding one more shift at the end folds it into the merged set.
pub proof fn lemma_merge_push(prev: Seq<Shift>, new: Seq<Shift>, x: Shift)
    ensures
        spec_merge(prev, new.push(x)) == spec_merge_one(spec_merge(prev, new), x),
    decreases new.len(),
{
    if new.len() == 0 {
        assert(new.push(x)[0] == x);
        assert(new.push(x).drop_first() =~= Seq::<Shift>::empty());
        assert(new =~= Seq::<Shift>::empty());
        assert(spec_merge(prev, Seq::<Shift>::empty()) == prev);
        assert(spec_merge(spec_merge_one(prev, x), Seq::<Shift>::empty()) == spec_merge_one(
            prev,
            x,
        ));
        assert(spec_merge(prev, new.push(x)) == spec_merge(
            spec_merge_one(prev, x),
            new.push(x).drop_first(),
        ));
    } else {
        assert(new.push(x)[0] == new[0]);
        assert(new.push(x).drop_first() =~= new.drop_first().push(x));
        lemma_merge_push(spec_merge_one(prev, new[0]), new.drop_first(), x);
    }
}

/// Filtering one more element keeps it exactly when the predicate holds.
pub proof fn lemma_filter_push<A>(s: Seq<A>, x: A, pred: spec_fn(A) -> bool)
    ensures
        s.push(x).filter(pred) == s.filter(pred) + (if pred(x) {
            seq![x]
        } else {
            Seq::<A>::empty()
        }),
{
    reveal_with_fuel(Seq::filter, 2);
    assert(s.push(x).drop_last() =~= s);
    assert(s.push(x).last() == x);
    if pred(x) {
        assert(s.filter(pred) + seq![x] =~= s.filter(pred).push(x));
    } else {
        assert(s.filter(pred) + Seq::<A>::empty() =~= s.filter(pred));
    }
}

fn find_magic_from(v: &Vec<Shift>, i: usize, magic: i64) -> (r: Option<usize>)
    requires
        i <= v@.len(),
    ensures
        match r {
            Some(j) => i <= j < v@.len() && spec_find_magic(v@.skip(i as int), magic) == Some(
                j - i,
            ),
            None => spec_find_magic(v@.skip(i as int), magic) is None,
        },
    decreases v@.len() - i,
{
    if i == v.len() {
        proof {
            assert(v@.skip(i as int) =~= Seq::<Shift>::empty());
        }
        None
    } else {
        proof {
            assert(v@.skip(i as int)[0] == v@[i as int]);
            assert(v@.skip(i as int).drop_first() =~= v@.skip(i as int + 1));
        }
        if v[i].magic_number == magic {
            Some(i)
        } else {
            find_magic_from(v, i + 1, magic)
        }
    }
}

fn find_date_from(v: &Vec<Shift>, i: usize, date: i64) -> (r: Option<usize>)
    requires
        i <= v@.len(),
    ensures
        match r {
            Some(j) => i <= j < v@.len() && spec_find_date(v@.skip(i as int), date) == Some(j - i),
            None => spec_find_date(v@.skip(i as int), date) is None,
        },
    decreases v@.len() - i,
{
    if i == v.len() {
        proof {
            assert(v@.skip(i as int) =~= Seq::<Shift>::empty());
        }
        None
    } else {
        proof {
            assert(v@.skip(i as int)[0] == v@[i as int]);
            assert(v@.skip(i as int).drop_first() =~= v@.skip(i as int + 1));
        }
        if v[i].date == date {
            Some(i)
        } else {
            find_date_from(v, i + 1, date)
        }
    }
}

/// A shift in the merged set that lies ahead and is marked so.
pub open spec fn spec_upcoming(state: ShiftState, today: i64) -> spec_fn(Shift) -> bool {
    |s: Shift| s.state == state && s.date >= today
}

/// The diff's verdict and the shift-mail contents it asks for.
#[derive(Clone, Debug, PartialEq)]
pub struct ShiftMailPlan {
    /// The known set after the diff, with vanished shifts dropped.
    pub shifts: Vec<Shift>,
    /// The new shifts to announce, where a mail is owed.
    pub new_shifts_mail: Option<Vec<Shift>>,
    /// The changed shifts to announce, where a mail is owed.
    pub updated_shifts_mail: Option<Vec<Shift>>,
    /// The vanished shifts to announce, where a mail is owed.
    pub removed_shifts_mail: Option<Vec<Shift>>,
}

/// Diff the freshly loaded shifts against the previously known ones and
/// decide which shift mails are owed.
///
/// Each mail is owed exactly when its kind is enabled, shifts of that
/// kind exist, and (the mail's content) shifts of that kind on or after
/// today exist; its content are those upcoming shifts.  The returned set
/// holds everything but the vanished shifts.
pub fn find_send_shift_mails(
    previous_shifts: Vec<Shift>,
    new_shifts: Vec<Shift>,
    today: i64,
    send_new_mail: bool,
    send_updated_mail: bool,
    send_removed_mail: bool,
) -> (r: ShiftMailPlan)
    ensures
        r.shifts@ == spec_merge(previous_shifts@, new_shifts@).filter(
            |s: Shift| s.state != ShiftState::Deleted,
        ),
        ({
            let new_up = spec_merge(previous_shifts@, new_shifts@).filter(
                spec_upcoming(ShiftState::New, today),
            );
            &&& (send_new_mail && new_up.len() > 0) ==> (r.new_shifts_mail matches Some(v) && v@
                == new_up)
            &&& !(send_new_mail && new_up.len() > 0) ==> r.new_shifts_mail is None
        }),
        ({
            let upd_up = spec_merge(previous_shifts@, new_shifts@).filter(
                spec_upcoming(ShiftState::Changed, today),
            );
            &&& (send_updated_mail && upd_up.len() > 0) ==> (r.updated_shifts_mail matches Some(v)
                && v@ == upd_up)
            &&& !(send_updated_mail && upd_up.len() > 0) ==> r.updated_shifts_mail is None
        }),
        ({
            let del_all = spec_merge(previous_shifts@, new_shifts@).filter(
                |s: Shift| s.state == ShiftState::Deleted,
            );
            let del_up = spec_merge(previous_shifts@, new_shifts@).filter(
                spec_upcoming(ShiftState::Deleted, today),
            );
            &&& (send_removed_mail && del_all.len() > 0 && del_up.len() > 0) ==> (
            r.removed_shifts_mail matches Some(v) && v@ == del_up)
            &&& !(send_removed_mail && del_all.len() > 0 && del_up.len() > 0)
                ==> r.removed_shifts_mail is None
        }),
{
    let ghost prev0 = previous_shifts@;
    let ghost new0 = new_shifts@;
    let mut merged = previous_shifts;
    let mut i: usize = 0;
    proof {
        assert(new0.take(0) =~= Seq::<Shift>::empty());
    }
    while i < new_shifts.len()
        invariant
            i <= new0.len(),
            new_shifts@ == new0,
            merged@ == spec_merge(prev0, new0.take(i as int)),
        decreases new0.len() - i,
    {
        let ghost merged_before = merged@;
        proof {
            assert(new0.take(i as int + 1) =~= new0.take(i as int).push(new0[i as int]));
            lemma_merge_push(prev0, new0.take(i as int), new0[i as int]);
        }
        let s = new_shifts[i].dup();
        let found_magic = find_magic_from(&merged, 0, s.magic_number);
        proof {
            assert(merged@.skip(0) =~= merged@);
        }
        match found_magic {
            Some(idx) => {
                let mut entry = merged.remove(idx);
                entry.state = ShiftState::Unchanged;
                merged.insert(idx, entry);
                proof {
                    assert(merged@ =~= merged_before.update(
                        idx as int,
                        (Shift { state: ShiftState::Unchanged, ..merged_before[idx as int] }),
                    ));
                }
            },
            None => {
                let found_date = find_date_from(&merged, 0, s.date);
                match found_date {
                    Some(idx) => {
                        let _gone = merged.remove(idx);
                        merged.push(s.with_state(ShiftState::Changed));
                    },
                    None => {
                        merged.push(s.with_state(ShiftState::New));
                    },
                }
            },
        }
        i = i + 1;
    }
    proof {
        assert(new0.take(new0.len() as int) =~= new0);
    }

    let ghost merged_view = merged@;
    let mut kept: Vec<Shift> = Vec::new();
    let mut new_up: Vec<Shift> = Vec::new();
    let mut upd_up: Vec<Shift> = Vec::new();
    let mut del_up: Vec<Shift> = Vec::new();
    let mut del_any: bool = false;
    let mut j: usize = 0;
    proof {
        assert(merged_view.take(0) =~= Seq::<Shift>::empty());
        reveal_with_fuel(Seq::filter, 1);
    }
    while j < merged.len()
        invariant
            j <= merged_view.len(),
            merged@ == merged_view,
            kept@ == merged_view.take(j as int).filter(|s: Shift| s.state != ShiftState::Deleted),
            new_up@ == merged_view.take(j as int).filter(spec_upcoming(ShiftState::New, today)),
            upd_up@ == merged_view.take(j as int).filter(spec_upcoming(ShiftState::Changed, today)),
            del_up@ == merged_view.take(j as int).filter(spec_upcoming(ShiftState::Deleted, today)),
            del_any == (merged_view.take(j as int).filter(
                |s: Shift| s.state == ShiftState::Deleted,
            ).len() > 0),
        decreases merged_view.len() - j,
    {
        proof {
            assert(merged_view.take(j as int + 1) =~= merged_view.take(j as int).push(
                merged_view[j as int],
            ));
            lemma_filter_push(
                merged_view.take(j as int),
                merged_view[j as int],
                |s: Shift| s.state != ShiftState::Deleted,
            );
            lemma_filter_push(
                merged_view.take(j as int),
                merged_view[j as int],
                spec_upcoming(ShiftState::New, today),
            );
            lemma_filter_push(
                merged_view.take(j as int),
                merged_view[j as int],
                spec_upcoming(ShiftState::Changed, today),
            );
            lemma_filter_push(
                merged_view.take(j as int),
                merged_view[j as int],
                spec_upcoming(ShiftState::Deleted, today),
            );
            lemma_filter_push(
                merged_view.take(j as int),
                merged_view[j as int],
                |s: Shift| s.state == ShiftState::Deleted,
            );
        }
        let s = &merged[j];
        let upcoming = s.date >= today;
        match s.state {
            ShiftState::Deleted => {
                del_any = true;
                if upcoming {
                    del_up.push(s.dup());
                }
            },
            ShiftState::New => {
                kept.push(s.dup());
                if upcoming {
                    new_up.push(s.dup());
                }
            },
            ShiftState::Changed => {
                kept.push(s.dup());
                if upcoming {
                    upd_up.push(s.dup());
                }
            },
            ShiftState::Unchanged => {
                kept.push(s.dup());
            },
        }
        j = j + 1;
    }
    proof {
        assert(merged_view.take(merged_view.len() as int) =~= merged_view);
    }

    let send_new = send_new_mail && new_up.len() > 0;
    let send_updated = send_updated_mail && upd_up.len() > 0;
    let send_removed = send_removed_mail && del_any && del_up.len() > 0;
    ShiftMailPlan {
        shifts: kept,
        new_shifts_mail: if send_new {
            Some(new_up)
        } else {
            None
        },
        updated_shifts_mail: if send_updated {
            Some(upd_up)
        } else {
            None
        },
        removed_shifts_mail: if send_removed {
            Some(del_up)
        } else {
            None
        },
    }
}

/// Diff and decide shift mails, with the cold-start rule in front: when
/// nothing was previously known the freshly loaded shifts are all new,
/// and no mail is owed that time.
pub fn send_emails(
    current_shifts: Vec<Shift>,
    previous_shifts: Vec<Shift>,
    today: i64,
    send_new_mail: bool,
    send_updated_mail: bool,
    send_removed_mail: bool,
) -> (r: ShiftMailPlan)
    ensures
        previous_shifts@.len() == 0 ==> r.shifts@ == current_shifts@.map_values(
            |s: Shift| (Shift { state: ShiftState::New, ..s }),
        ) && r.new_shifts_mail is None && r.updated_shifts_mail is None && r.removed_shifts_mail
            is None,
        previous_shifts@.len() > 0 ==> r.shifts@ == spec_merge(
            previous_shifts@,
            current_shifts@,
        ).filter(|s: Shift| s.state != ShiftState::Deleted),
        previous_shifts@.len() > 0 ==> ({
            let new_up = spec_merge(previous_shifts@, current_shifts@).filter(
                spec_upcoming(ShiftState::New, today),
            );
            &&& (send_new_mail && new_up.len() > 0) ==> (r.new_shifts_mail matches Some(v) && v@
                == new_up)
            &&& !(send_new_mail && new_up.len() > 0) ==> r.new_shifts_mail is None
        }),
        previous_shifts@.len() > 0 ==> ({
            let upd_up = spec_merge(previous_shifts@, current_shifts@).filter(
                spec_upcoming(ShiftState::Changed, today),
            );
            &&& (send_updated_mail && upd_up.len() > 0) ==> (r.updated_shifts_mail matches Some(v)
                && v@ == upd_up)
            &&& !(send_updated_mail && upd_up.len() > 0) ==> r.updated_shifts_mail is None
        }),
        previous_shifts@.len() > 0 ==> ({
            let del_all = spec_merge(previous_shifts@, current_shifts@).filter(
                |s: Shift| s.state == ShiftState::Deleted,
            );
            let del_up = spec_merge(previous_shifts@, current_shifts@).filter(
                spec_upcoming(ShiftState::Deleted, today),
            );
            &&& (send_removed_mail && del_all.len() > 0 && del_up.len() > 0) ==> (
            r.removed_shifts_mail matches Some(v) && v@ == del_up)
            &&& !(send_removed_mail && del_all.len() > 0 && del_up.len() > 0)
                ==> r.removed_shifts_mail is None
        }),
{
    if previous_shifts.is_empty() {
        let ghost cur0 = current_shifts@;
        let mut all_new: Vec<Shift> = Vec::new();
        let mut i: usize = 0;
        proof {
            assert(cur0.take(0).map_values(|s: Shift| (Shift { state: ShiftState::New, ..s }))
                =~= Seq::<Shift>::empty());
        }
        while i < current_shifts.len()
            invariant
                i <= cur0.len(),
                current_shifts@ == cur0,
                all_new@ == cur0.take(i as int).map_values(
                    |s: Shift| (Shift { state: ShiftState::New, ..s }),
                ),
            decreases cur0.len() - i,
        {
            all_new.push(current_shifts[i].with_state(ShiftState::New));
            proof {
                assert(all_new@ =~= cur0.take(i as int + 1).map_values(
                    |s: Shift| (Shift { state: ShiftState::New, ..s }),
                ));
            }
            i = i + 1;
        }
        proof {
            assert(cur0.take(cur0.len() as int) =~= cur0);
        }
        ShiftMailPlan {
            shifts: all_new,
            new_shifts_mail: None,
            updated_shifts_mail: None,
            removed_shifts_mail: None,
        }
    } else {
        find_send_shift_mails(
            previous_shifts,
            current_shifts,
            today,
            send_new_mail,
            send_updated_mail,
            send_removed_mail,
        )
    }
}

/// The HTML fragment that points a user at the password-reset form.
pub fn create_new_password_form_html(password_reset_link: &str) -> (r: String)
    ensures
        r@ == "
<tr>
    <td>
        Als je je wachtwoord hebt veranderd, vul je nieuwe wachtwoord in met behulp van de volgende link: <br>
        <a href=\""@ + password_reset_link@ + "\" style=\"color:#003366; text-decoration:underline;\">"@
            + password_reset_link@ + "</a>
    </td>
</tr>"@,
{
    String::from_str(
        "
<tr>
    <td>
        Als je je wachtwoord hebt veranderd, vul je nieuwe wachtwoord in met behulp van de volgende link: <br>
        <a href=\"",
    ).concat(password_reset_link).concat(
        "\" style=\"color:#003366; text-decoration:underline;\">",
    ).concat(password_reset_link).concat(
        "</a>
    </td>
</tr>",
    )
}

} // verus!
