use std::collections::HashMap;
use triagebot::team::{to_github_id, to_zulip_id, ZulipMapping};

fn mapping() -> ZulipMapping {
    let mut users = HashMap::new();
    users.insert(10usize, 500usize);
    users.insert(11usize, 501usize);
    ZulipMapping { users }
}

#[test]
fn chat_user_to_code_hosting_user() {
    let m = mapping();
    assert_eq!(to_github_id(&m, 10), Some(500));
    assert_eq!(to_github_id(&m, 12), None);
}

#[test]
fn code_hosting_user_to_chat_user() {
    let m = mapping();
    assert_eq!(to_zulip_id(&m, 501), Some(11));
    assert_eq!(to_zulip_id(&m, 7), None);
}
