use triagebot::manage_notifs::{Identifier, NotifCommandKind};
use triagebot::notifications::{
    acknowledged_reply, execute, Notification, NotificationList, NotificationStore, StoreError,
};

fn list_of(urls: &[&str]) -> NotificationList {
    let mut l = NotificationList::new();
    for (i, u) in urls.iter().enumerate() {
        l.add(u.to_string(), String::new(), i as i64);
    }
    l
}

fn urls(l: &NotificationList) -> Vec<String> {
    (1..=l.len()).map(|p| l.get(p).unwrap().origin_url.clone()).collect()
}

#[test]
fn acknowledge_renumbers_without_gaps() {
    let mut l = list_of(&["a", "b", "c", "d"]);
    let removed = l.acknowledge(&Identifier::Index(2)).unwrap();
    assert_eq!(removed.len(), 1);
    assert_eq!(removed[0].origin_url, "b");
    assert_eq!(l.len(), 3);
    assert_eq!(urls(&l), vec!["a", "c", "d"]);
    assert!(l.get(4).is_none());
    assert!(l.get(0).is_none());
}

#[test]
fn acknowledge_out_of_range_is_not_found() {
    let mut l = list_of(&["a"]);
    assert_eq!(l.acknowledge(&Identifier::Index(2)), Err(StoreError::NotFound));
    assert_eq!(l.acknowledge(&Identifier::Index(0)), Err(StoreError::NotFound));
    assert_eq!(urls(&l), vec!["a"]);
}

#[test]
fn acknowledge_by_url_removes_every_match() {
    let mut l = list_of(&["a", "b", "a", "c"]);
    let removed = l.acknowledge(&Identifier::Url("a".to_string())).unwrap();
    assert_eq!(removed.len(), 2);
    assert_eq!(urls(&l), vec!["b", "c"]);
    let none = l.acknowledge(&Identifier::Url("zzz".to_string())).unwrap();
    assert!(none.is_empty());
    assert_eq!(urls(&l), vec!["b", "c"]);
}

#[test]
fn move_is_a_permutation_and_moving_back_restores() {
    let mut l = list_of(&["a", "b", "c", "d", "e"]);
    l.move_entry(4, 2).unwrap();
    assert_eq!(urls(&l), vec!["a", "d", "b", "c", "e"]);
    l.move_entry(2, 4).unwrap();
    assert_eq!(urls(&l), vec!["a", "b", "c", "d", "e"]);
    l.move_entry(1, 5).unwrap();
    assert_eq!(urls(&l), vec!["b", "c", "d", "e", "a"]);
    l.move_entry(3, 3).unwrap();
    assert_eq!(urls(&l), vec!["b", "c", "d", "e", "a"]);
}

#[test]
fn move_rejects_bad_positions() {
    let mut l = list_of(&["a", "b"]);
    assert_eq!(l.move_entry(0, 1), Err(StoreError::InvalidPosition));
    assert_eq!(l.move_entry(1, 3), Err(StoreError::InvalidPosition));
    assert_eq!(urls(&l), vec!["a", "b"]);
}

#[test]
fn add_then_acknowledge_last_round_trips() {
    let mut l = list_of(&["a", "b"]);
    let before = urls(&l);
    l.add("new".to_string(), "desc".to_string(), 7);
    assert_eq!(l.get(3).unwrap().short_description, Some("desc".to_string()));
    l.acknowledge(&Identifier::Index(3)).unwrap();
    assert_eq!(urls(&l), before);
}

#[test]
fn metadata_replaces_and_empty_clears() {
    let mut l = list_of(&["a"]);
    l.add_metadata(1, "first".to_string()).unwrap();
    l.add_metadata(1, "second".to_string()).unwrap();
    assert_eq!(l.get(1).unwrap().metadata, Some("second".to_string()));
    l.add_metadata(1, String::new()).unwrap();
    assert_eq!(l.get(1).unwrap().metadata, None);
    assert_eq!(l.add_metadata(2, "x".to_string()), Err(StoreError::InvalidPosition));
}

#[test]
fn acknowledgement_reply_lists_entries() {
    let removed = vec![
        Notification {
            origin_url: "https://x/1".to_string(),
            short_description: Some("one".to_string()),
            metadata: Some("m".to_string()),
            time: 0,
        },
        Notification {
            origin_url: "https://x/2".to_string(),
            short_description: None,
            metadata: None,
            time: 0,
        },
    ];
    assert_eq!(
        acknowledged_reply(&removed),
        "Acknowledged:\n * [one](https://x/1) (m)\n * [https://x/2](https://x/2)\n"
    );
}

#[test]
fn execute_replies() {
    let mut l = NotificationList::new();
    assert_eq!(
        execute(&mut l, NotifCommandKind::Add("https://x/1".to_string(), String::new()), 5),
        "Created!"
    );
    assert_eq!(l.get(1).unwrap().short_description, None);
    assert_eq!(l.get(1).unwrap().time, 5);
    execute(&mut l, NotifCommandKind::Add("https://x/2".to_string(), "two".to_string()), 6);
    assert_eq!(execute(&mut l, NotifCommandKind::Move(2, 1), 0), "Moved 2 to 1.");
    assert_eq!(
        execute(&mut l, NotifCommandKind::Move(3, 1), 0),
        "Failed to move: InvalidPosition."
    );
    assert_eq!(execute(&mut l, NotifCommandKind::Meta(1, "m".to_string()), 0), "Added metadata!");
    assert_eq!(
        execute(&mut l, NotifCommandKind::Meta(9, "m".to_string()), 0),
        "Failed to add: InvalidPosition"
    );
    assert_eq!(
        execute(&mut l, NotifCommandKind::Acknowledge(Identifier::Index(10)), 0),
        "Failed to acknowledge 10: NotFound."
    );
    assert_eq!(
        execute(&mut l, NotifCommandKind::Acknowledge(Identifier::Index(1)), 0),
        "Acknowledged:\n * [two](https://x/2) (m)\n"
    );
    assert_eq!(l.len(), 1);
}

#[test]
fn store_keeps_owners_apart() {
    let mut s = NotificationStore::new();
    assert_eq!(s.len(1), 0);
    s.execute_at(1, NotifCommandKind::Add("a".to_string(), String::new()), 0);
    s.execute_at(2, NotifCommandKind::Add("b".to_string(), String::new()), 0);
    s.execute(1, NotifCommandKind::Add("c".to_string(), "d".to_string()));
    assert_eq!(s.len(1), 2);
    assert_eq!(s.len(2), 1);
    assert_eq!(
        s.execute_at(2, NotifCommandKind::Acknowledge(Identifier::Index(1)), 0),
        "Acknowledged:\n * [b](b)\n"
    );
    assert_eq!(s.len(2), 0);
    assert_eq!(s.len(1), 2);
    assert_eq!(s.get(1, 2).unwrap().origin_url, "c");
    assert!(s.get(1, 2).unwrap().time > 0);
}
