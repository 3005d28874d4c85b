//! The uptime-monitor directory and its idempotent synchronisation.
//!
//! The external monitoring service holds, per user, one push monitor and
//! one mail notification, both found by name.  This module models that
//! directory and the ensure/delete operations against it: every operation
//! is idempotent, and after a sync the directory mirrors the fleet.  The
//! process that talks to the real service replays the same operations and
//! keeps the model in step with what the RPCs report.

use vstd::prelude::*;

verus! {

/// A monitor-directory action requested over the API.
#[derive(Clone, Copy, Debug, PartialEq, Eq, Structural)]
pub enum KumaAction {
    Add,
    Reset,
    Delete,
}

/// Whom a monitor-directory action applies to.
#[derive(Clone, Debug, PartialEq)]
pub enum KumaUserRequest {
    All,
    Users(Vec<String>),
}

/// What one directory entry is.
#[derive(Clone, Copy, Debug, PartialEq, Eq, Structural)]
pub enum EntryKind {
    Group,
    Monitor,
    Notification,
}

/// One named entry of the monitoring service, as the core models it.
#[derive(Clone, Debug, PartialEq)]
pub struct DirEntry {
    pub id: i32,
    pub name: String,
    pub kind: EntryKind,
    /// Seconds between expected heartbeats (monitors only).
    pub interval_seconds: i32,
    /// Missed heartbeats before the monitor turns red (monitors only).
    pub max_retries: i32,
    /// The notification the monitor alerts through (monitors only).
    pub notification_id: i32,
    /// The group the entry hangs under (monitors only).
    pub parent_id: i32,
}

/// The first entry with the given name and kind, scanning front to back.
pub open spec fn spec_find(s: Seq<DirEntry>, name: Seq<char>, kind: EntryKind) -> Option<i32>
    decreases s.len(),
{
    if s.len() == 0 {
        None
    } else if s[0].name@ == name && s[0].kind == kind {
        Some(s[0].id)
    } else {
        spec_find(s.drop_first(), name, kind)
    }
}

/// The sequence with every entry of the given name and kind taken out.
pub open spec fn spec_remove(s: Seq<DirEntry>, name: Seq<char>, kind: EntryKind) -> Seq<DirEntry>
    decreases s.len(),
{
    if s.len() == 0 {
        Seq::<DirEntry>::empty()
    } else {
        let rest = spec_remove(s.drop_first(), name, kind);
        if s[0].name@ == name && s[0].kind == kind {
            rest
        } else {
            seq![s[0]] + rest
        }
    }
}

/// Appending an entry is invisible to every lookup that already succeeds,
/// and answers exactly the lookups that match the new entry.
pub proof fn lemma_find_push(s: Seq<DirEntry>, e: DirEntry, name: Seq<char>, kind: EntryKind)
    ensures
        spec_find(s.push(e), name, kind) == match spec_find(s, name, kind) {
            Some(id) => Some(id),
            None => if e.name@ == name && e.kind == kind {
                Some(e.id)
            } else {
                None::<i32>
            },
        },
    decreases s.len(),
{
    if s.len() == 0 {
        assert(s.push(e)[0] == e);
        assert(s.push(e).drop_first() =~= Seq::<DirEntry>::empty());
        assert(spec_find(Seq::<DirEntry>::empty(), name, kind) is None);
        assert(spec_find(s, name, kind) is None);
    } else {
        assert(s.push(e)[0] == s[0]);
        assert(s.push(e).drop_first() =~= s.drop_first().push(e));
        lemma_find_push(s.drop_first(), e, name, kind);
    }
}

/// Removal kills exactly the removed lookups and leaves the rest alone.
pub proof fn lemma_find_remove(
    s: Seq<DirEntry>,
    name: Seq<char>,
    kind: EntryKind,
    m: Seq<char>,
    k: EntryKind,
)
    ensures
        spec_find(spec_remove(s, name, kind), m, k) == if m == name && k == kind {
            None::<i32>
        } else {
            spec_find(s, m, k)
        },
    decreases s.len(),
{
    if s.len() == 0 {
    } else {
        let rest = spec_remove(s.drop_first(), name, kind);
        lemma_find_remove(s.drop_first(), name, kind, m, k);
        if s[0].name@ == name && s[0].kind == kind {
        } else {
            assert((seq![s[0]] + rest)[0] == s[0]);
            assert((seq![s[0]] + rest).drop_first() =~= rest);
        }
    }
}

/// Removing from a sequence one entry longer removes from the prefix and
/// then treats the last entry on its own.
pub proof fn lemma_remove_push(s: Seq<DirEntry>, e: DirEntry, name: Seq<char>, kind: EntryKind)
    ensures
        spec_remove(s.push(e), name, kind) == if e.name@ == name && e.kind == kind {
            spec_remove(s, name, kind)
        } else {
            spec_remove(s, name, kind).push(e)
        },
    decreases s.len(),
{
    if s.len() == 0 {
        assert(s.push(e)[0] == e);
        assert(s.push(e).drop_first() =~= Seq::<DirEntry>::empty());
        assert(spec_remove(Seq::<DirEntry>::empty(), name, kind) =~= Seq::<DirEntry>::empty());
        assert(spec_remove(s, name, kind) =~= Seq::<DirEntry>::empty());
        if !(e.name@ == name && e.kind == kind) {
            assert(seq![e] + Seq::<DirEntry>::empty() =~= spec_remove(s, name, kind).push(e));
        }
    } else {
        assert(s.push(e)[0] == s[0]);
        assert(s.push(e).drop_first() =~= s.drop_first().push(e));
        lemma_remove_push(s.drop_first(), e, name, kind);
        let rest = spec_remove(s.drop_first(), name, kind);
        if s[0].name@ == name && s[0].kind == kind {
        } else {
            if e.name@ == name && e.kind == kind {
            } else {
                assert(seq![s[0]] + rest.push(e) =~= (seq![s[0]] + rest).push(e));
            }
        }
    }
}

/// The model of the external monitoring service's directory.  `next_id`
/// stands in for the ids the service assigns; `create_count` counts the
/// create calls that actually went out.
#[derive(Clone, Debug, PartialEq)]
pub struct MonitorDirectory {
    pub entries: Vec<DirEntry>,
    pub next_id: i32,
    pub create_count: u64,
}

/// The directory can still assign ids and count creations.
pub open spec fn dir_wf(d: MonitorDirectory) -> bool {
    &&& 0 <= d.next_id < 0x4000_0000
    &&& d.create_count < 0x1000_0000_0000_0000
}

fn dup_entry(e: &DirEntry) -> (r: DirEntry)
    ensures
        r == *e,
{
    DirEntry {
        id: e.id,
        name: e.name.clone(),
        kind: e.kind,
        interval_seconds: e.interval_seconds,
        max_retries: e.max_retries,
        notification_id: e.notification_id,
        parent_id: e.parent_id,
    }
}

fn find_entry_from(entries: &Vec<DirEntry>, i: usize, name: &String, kind: EntryKind) -> (r: Option<
    i32,
>)
    requires
        i <= entries@.len(),
    ensures
        r == spec_find(entries@.skip(i as int), name@, kind),
    decreases entries@.len() - i,
{
    if i == entries.len() {
        proof {
            assert(entries@.skip(i as int) =~= Seq::<DirEntry>::empty());
        }
        None
    } else {
        proof {
            assert(entries@.skip(i as int)[0] == entries@[i as int]);
            assert(entries@.skip(i as int).drop_first() =~= entries@.skip(i as int + 1));
        }
        let e = &entries[i];
        if e.name == *name && e.kind == kind {
            Some(e.id)
        } else {
            find_entry_from(entries, i + 1, name, kind)
        }
    }
}

impl MonitorDirectory {
    /// An empty directory.
    pub fn new() -> (r: MonitorDirectory)
        ensures
            r.entries@ =~= Seq::<DirEntry>::empty(),
            r.next_id == 1,
            r.create_count == 0,
            dir_wf(r),
    {
        MonitorDirectory { entries: Vec::new(), next_id: 1, create_count: 0 }
    }

    /// Look an entry up by name and kind.
    pub fn find_id(&self, name: &String, kind: EntryKind) -> (r: Option<i32>)
        ensures
            r == spec_find(self.entries@, name@, kind),
    {
        proof {
            assert(self.entries@.skip(0) =~= self.entries@);
        }
        find_entry_from(&self.entries, 0, name, kind)
    }

    /// Ensure an entry exists: return the existing id and touch nothing,
    /// or create the entry with a fresh id.  Exactly one create call goes
    /// out per entry that was absent, however often this is repeated.
    pub fn ensure_entry(
        &mut self,
        name: &String,
        kind: EntryKind,
        interval_seconds: i32,
        max_retries: i32,
        notification_id: i32,
        parent_id: i32,
    ) -> (r: i32)
        requires
            dir_wf(*old(self)),
            old(self).next_id + 1 < 0x4000_0000,
            old(self).create_count + 1 < 0x1000_0000_0000_0000,
        ensures
            dir_wf(*final(self)),
            spec_find(final(self).entries@, name@, kind) == Some(r),
            forall|m: Seq<char>, k: EntryKind|
                #![trigger spec_find(final(self).entries@, m, k)]
                !(m == name@ && k == kind) ==> spec_find(final(self).entries@, m, k) == spec_find(
                    old(self).entries@,
                    m,
                    k,
                ),
            match spec_find(old(self).entries@, name@, kind) {
                Some(id) => r == id && *final(self) == *old(self),
                None => {
                    &&& r == old(self).next_id
                    &&& final(self).next_id == old(self).next_id + 1
                    &&& final(self).create_count == old(self).create_count + 1
                    &&& final(self).entries@.len() == old(self).entries@.len() + 1
                    &&& final(self).entries@.last().name@ == name@
                    &&& final(self).entries@.last().kind == kind
                    &&& final(self).entries@.last().interval_seconds == interval_seconds
                    &&& final(self).entries@.last().max_retries == max_retries
                    &&& final(self).entries@.last().notification_id == notification_id
                    &&& final(self).entries@.last().parent_id == parent_id
                    &&& final(self).entries@.drop_last() == old(self).entries@
                },
            },
    {
        let found = self.find_id(name, kind);
        match found {
            Some(id) => id,
            None => {
                let id = self.next_id;
                let entry = DirEntry {
                    id,
                    name: name.clone(),
                    kind,
                    interval_seconds,
                    max_retries,
                    notification_id,
                    parent_id,
                };
                proof {
                    lemma_find_push(self.entries@, entry, name@, kind);
                    assert forall|m: Seq<char>, k: EntryKind|
                        !(m == name@ && k == kind) implies spec_find(
                        self.entries@.push(entry),
                        m,
                        k,
                    ) == spec_find(self.entries@, m, k) by {
                        lemma_find_push(self.entries@, entry, m, k);
                    }
                    assert(self.entries@.push(entry).drop_last() =~= self.entries@);
                }
                self.entries.push(entry);
                self.next_id = self.next_id + 1;
                self.create_count = self.create_count + 1;
                id
            },
        }
    }

    /// Delete every entry of this name and kind; a no-op where none is.
    pub fn delete_entry(&mut self, name: &String, kind: EntryKind)
        ensures
            final(self).entries@ == spec_remove(old(self).entries@, name@, kind),
            spec_find(final(self).entries@, name@, kind) is None,
            forall|m: Seq<char>, k: EntryKind|
                #![trigger spec_find(final(self).entries@, m, k)]
                !(m == name@ && k == kind) ==> spec_find(final(self).entries@, m, k) == spec_find(
                    old(self).entries@,
                    m,
                    k,
                ),
            final(self).next_id == old(self).next_id,
            final(self).create_count == old(self).create_count,
    {
        let mut out: Vec<DirEntry> = Vec::new();
        let mut i: usize = 0;
        proof {
            assert(self.entries@.take(0) =~= Seq::<DirEntry>::empty());
        }
        while i < self.entries.len()
            invariant
                i <= self.entries@.len(),
                out@ == spec_remove(self.entries@.take(i as int), name@, kind),
            decreases self.entries@.len() - i,
        {
            let e = &self.entries[i];
            proof {
                lemma_remove_push(self.entries@.take(i as int), self.entries@[i as int], name@, kind);
                assert(self.entries@.take(i as int + 1) =~= self.entries@.take(i as int).push(
                    self.entries@[i as int],
                ));
            }
            if !(e.name == *name && e.kind == kind) {
                let kept = dup_entry(e);
                out.push(kept);
            }
            i = i + 1;
        }
        proof {
            assert(self.entries@.take(self.entries@.len() as int) =~= self.entries@);
            lemma_find_remove(self.entries@, name@, kind, name@, kind);
            assert forall|m: Seq<char>, k: EntryKind|
                !(m == name@ && k == kind) implies spec_find(
                spec_remove(self.entries@, name@, kind),
                m,
                k,
            ) == spec_find(self.entries@, m, k) by {
                lemma_find_remove(self.entries@, name@, kind, m, k);
            }
        }
        self.entries = out;
    }
}

/// Ensuring an entry a directory already holds returns its id and changes
/// nothing; so a second ensure with the same arguments yields the id the
/// first one did, and only the first causes a create call.
pub proof fn lemma_ensure_idempotent(s: Seq<DirEntry>, e: DirEntry)
    requires
        spec_find(s, e.name@, e.kind) is None,
    ensures
        spec_find(s.push(e), e.name@, e.kind) == Some(e.id),
{
    lemma_find_push(s, e, e.name@, e.kind);
}

/// The heartbeat interval a user's monitor is created with: the execution
/// interval in seconds plus the expected duration of one run.
pub fn monitor_interval(execution_interval_minutes: i32, expected_execution_time_seconds: i32) -> (r:
    i32)
    requires
        1 <= execution_interval_minutes <= 1440,
        0 <= expected_execution_time_seconds,
        expected_execution_time_seconds + 86400 <= 0x7FFF_FFFF,
    ensures
        r == execution_interval_minutes * 60 + expected_execution_time_seconds,
{
    execution_interval_minutes * 60 + expected_execution_time_seconds
}

/// What one user's monitor must look like.
#[derive(Clone, Debug, PartialEq)]
pub struct MonitorRequest {
    pub user_name: String,
    pub interval_seconds: i32,
    pub max_retries: i32,
}

/// The notification entries are named after the user with this suffix.
pub open spec fn spec_mail_name(user: Seq<char>) -> Seq<char> {
    user + "_mail"@
}

/// Two users' notification names coincide only when the users do.
pub proof fn lemma_mail_name_injective(a: Seq<char>, b: Seq<char>)
    requires
        spec_mail_name(a) == spec_mail_name(b),
    ensures
        a == b,
{
    assert((a + "_mail"@).len() == a.len() + "_mail"@.len());
    assert((b + "_mail"@).len() == b.len() + "_mail"@.len());
    assert(a.len() == b.len());
    assert forall|i: int| 0 <= i < a.len() implies a[i] == b[i] by {
        assert(spec_mail_name(a)[i] == a[i]);
        assert(spec_mail_name(b)[i] == b[i]);
    }
    assert(a =~= b);
}

/// A directory name the sync never touches: neither the name nor the
/// notification name of any requested or any retired user.
pub open spec fn spec_sync_untouched(
    m: Seq<char>,
    to_create: Seq<MonitorRequest>,
    to_remove: Seq<String>,
) -> bool {
    &&& forall|i: int|
        0 <= i < to_create.len() ==> (#[trigger] to_create[i]).user_name@ != m && spec_mail_name(
            to_create[i].user_name@,
        ) != m
    &&& forall|j: int|
        0 <= j < to_remove.len() ==> (#[trigger] to_remove[j])@ != m && spec_mail_name(
            to_remove[j]@,
        ) != m
}

/// Bring the directory in line with the fleet: first tear down the
/// monitors and notifications of retired users, then ensure one
/// notification and one push monitor per live user, under the group.
/// After the sync every requested user is present, every retired user
/// not also requested is gone, and every other entry stands untouched.
pub fn manage_users(
    dir: &mut MonitorDirectory,
    group_id: i32,
    to_create: &Vec<MonitorRequest>,
    to_remove: &Vec<String>,
) -> (created: bool)
    requires
        dir_wf(*old(dir)),
        old(dir).create_count + 2 * to_create@.len() < 0x1000_0000_0000_0000,
        old(dir).next_id + 2 * to_create@.len() < 0x4000_0000,
    ensures
        dir_wf(*final(dir)),
        created == (final(dir).create_count > old(dir).create_count),
        forall|m: Seq<char>, k: EntryKind|
            #![trigger spec_find(final(dir).entries@, m, k)]
            spec_sync_untouched(m, to_create@, to_remove@) ==> spec_find(
                final(dir).entries@,
                m,
                k,
            ) == spec_find(old(dir).entries@, m, k),
        forall|j: int|
            0 <= j < to_create@.len() ==> spec_find(
                final(dir).entries@,
                #[trigger] to_create@[j].user_name@,
                EntryKind::Monitor,
            ) is Some,
        forall|j: int|
            0 <= j < to_create@.len() ==> spec_find(
                final(dir).entries@,
                spec_mail_name(#[trigger] to_create@[j].user_name@),
                EntryKind::Notification,
            ) is Some,
        forall|j: int|
            0 <= j < to_remove@.len() && (forall|i: int|
                0 <= i < to_create@.len() ==> #[trigger] to_create@[i].user_name@
                    != to_remove@[j]@) ==> spec_find(
                final(dir).entries@,
                #[trigger] to_remove@[j]@,
                EntryKind::Monitor,
            ) is None,
        forall|j: int|
            0 <= j < to_remove@.len() && (forall|i: int|
                0 <= i < to_create@.len() ==> #[trigger] to_create@[i].user_name@
                    != to_remove@[j]@) ==> spec_find(
                final(dir).entries@,
                spec_mail_name(#[trigger] to_remove@[j]@),
                EntryKind::Notification,
            ) is None,
{
    let mut i: usize = 0;
    while i < to_remove.len()
        invariant
            i <= to_remove@.len(),
            dir_wf(*dir),
            dir.create_count == old(dir).create_count,
            dir.next_id == old(dir).next_id,
            forall|j: int|
                0 <= j < i ==> spec_find(
                    dir.entries@,
                    #[trigger] to_remove@[j]@,
                    EntryKind::Monitor,
                ) is None,
            forall|j: int|
                0 <= j < i ==> spec_find(
                    dir.entries@,
                    spec_mail_name(#[trigger] to_remove@[j]@),
                    EntryKind::Notification,
                ) is None,
            forall|m: Seq<char>, k: EntryKind|
                #![trigger spec_find(dir.entries@, m, k)]
                spec_sync_untouched(m, to_create@, to_remove@) ==> spec_find(dir.entries@, m, k)
                    == spec_find(old(dir).entries@, m, k),
        decreases to_remove@.len() - i,
    {
        let ghost before_ops = dir.entries@;
        let name = &to_remove[i];
        dir.delete_entry(name, EntryKind::Monitor);
        let ghost mid_ops = dir.entries@;
        let mail_name = name.clone().concat("_mail");
        dir.delete_entry(&mail_name, EntryKind::Notification);
        proof {
            assert forall|m: Seq<char>, k: EntryKind|
                spec_sync_untouched(m, to_create@, to_remove@) implies #[trigger] spec_find(
                dir.entries@,
                m,
                k,
            ) == spec_find(old(dir).entries@, m, k) by {
                assert(to_remove@[i as int]@ != m && spec_mail_name(to_remove@[i as int]@) != m);
                assert(spec_find(dir.entries@, m, k) == spec_find(mid_ops, m, k));
                assert(spec_find(mid_ops, m, k) == spec_find(before_ops, m, k));
            }
        }
        i = i + 1;
    }

    let ghost dir_after_removals = *dir;
    let mut created_any = false;
    let mut c: usize = 0;
    while c < to_create.len()
        invariant
            c <= to_create@.len(),
            dir_wf(*dir),
            created_any == (dir.create_count > dir_after_removals.create_count),
            dir.create_count >= dir_after_removals.create_count,
            dir.create_count <= dir_after_removals.create_count + 2 * c,
            dir_after_removals.create_count == old(dir).create_count,
            dir.next_id <= dir_after_removals.next_id + 2 * c,
            dir_after_removals.next_id == old(dir).next_id,
            old(dir).create_count + 2 * to_create@.len() < 0x1000_0000_0000_0000,
            old(dir).next_id + 2 * to_create@.len() < 0x4000_0000,
            forall|j: int|
                0 <= j < c ==> spec_find(
                    dir.entries@,
                    #[trigger] to_create@[j].user_name@,
                    EntryKind::Monitor,
                ) is Some,
            forall|j: int|
                0 <= j < c ==> spec_find(
                    dir.entries@,
                    spec_mail_name(#[trigger] to_create@[j].user_name@),
                    EntryKind::Notification,
                ) is Some,
            forall|j: int|
                0 <= j < to_remove@.len() && (forall|i2: int|
                    0 <= i2 < to_create@.len() ==> #[trigger] to_create@[i2].user_name@
                        != to_remove@[j]@) ==> spec_find(
                    dir.entries@,
                    #[trigger] to_remove@[j]@,
                    EntryKind::Monitor,
                ) is None,
            forall|j: int|
                0 <= j < to_remove@.len() && (forall|i2: int|
                    0 <= i2 < to_create@.len() ==> #[trigger] to_create@[i2].user_name@
                        != to_remove@[j]@) ==> spec_find(
                    dir.entries@,
                    spec_mail_name(#[trigger] to_remove@[j]@),
                    EntryKind::Notification,
                ) is None,
            forall|m: Seq<char>, k: EntryKind|
                #![trigger spec_find(dir.entries@, m, k)]
                spec_sync_untouched(m, to_create@, to_remove@) ==> spec_find(dir.entries@, m, k)
                    == spec_find(old(dir).entries@, m, k),
        decreases to_create@.len() - c,
    {
        let ghost before_ops = dir.entries@;
        let request = &to_create[c];
        let mail_name = request.user_name.clone().concat("_mail");
        let count_before_notification: u64 = dir.create_count;
        let notification_id = dir.ensure_entry(&mail_name, EntryKind::Notification, 0, 0, 0, 0);
        if dir.create_count > count_before_notification {
            created_any = true;
        }
        let ghost mid_ops = dir.entries@;
        let count_before_monitor: u64 = dir.create_count;
        let _monitor_id = dir.ensure_entry(
            &request.user_name,
            EntryKind::Monitor,
            request.interval_seconds,
            request.max_retries,
            notification_id,
            group_id,
        );
        if dir.create_count > count_before_monitor {
            created_any = true;
        }
        proof {
            assert forall|j: int|
                0 <= j < to_remove@.len() && (forall|i2: int|
                    0 <= i2 < to_create@.len() ==> #[trigger] to_create@[i2].user_name@
                        != to_remove@[j]@) implies spec_find(
                dir.entries@,
                spec_mail_name(#[trigger] to_remove@[j]@),
                EntryKind::Notification,
            ) is None by {
                if spec_mail_name(to_remove@[j]@) == mail_name@ {
                    lemma_mail_name_injective(to_remove@[j]@, request.user_name@);
                }
            }
            assert forall|m: Seq<char>, k: EntryKind|
                spec_sync_untouched(m, to_create@, to_remove@) implies #[trigger] spec_find(
                dir.entries@,
                m,
                k,
            ) == spec_find(old(dir).entries@, m, k) by {
                assert(to_create@[c as int].user_name@ != m && spec_mail_name(
                    to_create@[c as int].user_name@,
                ) != m);
                assert(spec_find(dir.entries@, m, k) == spec_find(mid_ops, m, k));
                assert(spec_find(mid_ops, m, k) == spec_find(before_ops, m, k));
            }
        }
        c = c + 1;
    }
    created_any
}

} // verus!
