use mijn_bussie::kuma::{
    EntryKind, MonitorDirectory, MonitorRequest, manage_users, monitor_interval,
};

#[test]
fn ensure_monitor_is_idempotent() {
    // Two ensures with identical arguments: the same id comes back and
    // only one create call went out.
    let mut dir = MonitorDirectory::new();
    let name = "alice".to_owned();
    let first = dir.ensure_entry(&name, EntryKind::Monitor, 3720, 3, 9, 1);
    let creates_after_first = dir.create_count;
    let second = dir.ensure_entry(&name, EntryKind::Monitor, 3720, 3, 9, 1);
    assert_eq!(first, second);
    assert_eq!(dir.create_count, creates_after_first);
    assert_eq!(creates_after_first, 1);
}

#[test]
fn entries_of_different_kinds_do_not_collide() {
    let mut dir = MonitorDirectory::new();
    let name = "alice".to_owned();
    let monitor = dir.ensure_entry(&name, EntryKind::Monitor, 3720, 3, 0, 1);
    let group = dir.ensure_entry(&name, EntryKind::Group, 0, 0, 0, 0);
    assert_ne!(monitor, group);
    assert_eq!(dir.find_id(&name, EntryKind::Monitor), Some(monitor));
    assert_eq!(dir.find_id(&name, EntryKind::Group), Some(group));
}

#[test]
fn delete_is_idempotent() {
    let mut dir = MonitorDirectory::new();
    let name = "alice".to_owned();
    dir.ensure_entry(&name, EntryKind::Monitor, 3720, 3, 0, 1);
    dir.delete_entry(&name, EntryKind::Monitor);
    assert_eq!(dir.find_id(&name, EntryKind::Monitor), None);
    // Deleting again is a no-op.
    dir.delete_entry(&name, EntryKind::Monitor);
    assert_eq!(dir.find_id(&name, EntryKind::Monitor), None);
}

#[test]
fn heartbeat_interval_formula() {
    assert_eq!(monitor_interval(60, 120), 3720);
    assert_eq!(monitor_interval(1, 0), 60);
    assert_eq!(monitor_interval(1440, 86400), 1440 * 60 + 86400);
}

#[test]
fn sync_mirrors_the_fleet() {
    // After a sync each live user has its monitor and notification, and
    // each retired user has neither.
    let mut dir = MonitorDirectory::new();
    let group = dir.ensure_entry(&"orchestrator".to_owned(), EntryKind::Group, 0, 0, 0, 0);
    dir.ensure_entry(&"old".to_owned(), EntryKind::Monitor, 60, 3, 0, group);
    dir.ensure_entry(&"old_mail".to_owned(), EntryKind::Notification, 0, 0, 0, 0);

    // A user in neither list: the sync must leave every one of its
    // entries exactly as it found them.
    let bystander = dir.ensure_entry(&"carol".to_owned(), EntryKind::Monitor, 60, 3, 0, group);
    let bystander_mail =
        dir.ensure_entry(&"carol_mail".to_owned(), EntryKind::Notification, 0, 0, 0, 0);

    let to_create = vec![
        MonitorRequest { user_name: "alice".to_owned(), interval_seconds: 3720, max_retries: 3 },
        MonitorRequest { user_name: "bob".to_owned(), interval_seconds: 120, max_retries: 5 },
    ];
    let to_remove = vec!["old".to_owned()];
    let created = manage_users(&mut dir, group, &to_create, &to_remove);
    assert!(created);

    assert_eq!(dir.find_id(&"carol".to_owned(), EntryKind::Monitor), Some(bystander));
    assert_eq!(dir.find_id(&"carol_mail".to_owned(), EntryKind::Notification), Some(bystander_mail));
    assert_eq!(dir.find_id(&"orchestrator".to_owned(), EntryKind::Group), Some(group));
    assert!(dir.find_id(&"alice".to_owned(), EntryKind::Monitor).is_some());
    assert!(dir.find_id(&"alice_mail".to_owned(), EntryKind::Notification).is_some());
    assert!(dir.find_id(&"bob".to_owned(), EntryKind::Monitor).is_some());
    assert_eq!(dir.find_id(&"old".to_owned(), EntryKind::Monitor), None);
    assert_eq!(dir.find_id(&"old_mail".to_owned(), EntryKind::Notification), None);

    // Running the same sync again changes nothing and creates nothing.
    let count_before = dir.create_count;
    let created = manage_users(&mut dir, group, &to_create, &Vec::new());
    assert!(!created);
    assert_eq!(dir.create_count, count_before);
}
