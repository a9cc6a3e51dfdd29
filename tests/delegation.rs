use triagebot::delegation::{
    delegated_command, delegation_step, sender_owner, Delegation, DelegationAction,
    DelegationEvent, Member,
};

fn step(state: Delegation, event: DelegationEvent) -> (Option<Delegation>, DelegationAction) {
    delegation_step(state, event, "ack 1", "Ann Lee", "ann")
}

fn finish(reply: &str) -> DelegationAction {
    DelegationAction::Finish { reply: reply.to_string(), notice: None }
}

#[test]
fn sender_without_code_hosting_id() {
    assert_eq!(sender_owner(7, Ok(Some(42))), Ok(42));
    assert_eq!(
        sender_owner(7, Ok(None)),
        Err("Unknown Zulip user. Please add `zulip-id = 7` to your file in rust-lang/team."
            .to_string())
    );
    assert_eq!(
        sender_owner(7, Err("timeout".to_string())),
        Err("Failed to query team API: timeout".to_string())
    );
}

#[test]
fn command_text_after_prefix() {
    assert_eq!(delegated_command("as alice   ack 1"), Some("ack 1"));
    assert_eq!(delegated_command("as alice"), Some(""));
    assert_eq!(delegated_command("ack 1"), None);
    assert_eq!(delegated_command("as ;"), None);
}

#[test]
fn delegation_runs_the_command_as_the_delegate() {
    let (s, a) = step(Delegation::AwaitGithubId, DelegationEvent::GithubId(Ok(Some(500))));
    assert_eq!(a, DelegationAction::FetchMembers);
    let members = vec![
        Member { email: "x@y".to_string(), user_id: 3 },
        Member { email: "b@c".to_string(), user_id: 11 },
    ];
    let (s, a) = step(s.unwrap(), DelegationEvent::Members(Ok(members)));
    assert_eq!(a, DelegationAction::FetchZulipId(500));
    let (s, a) = step(s.unwrap(), DelegationEvent::ZulipId(Ok(Some(11))));
    assert_eq!(a, DelegationAction::Run(500));
    let (s, a) = step(s.unwrap(), DelegationEvent::Output("Acknowledged:\n".to_string()));
    assert!(s.is_none());
    assert_eq!(
        a,
        DelegationAction::Finish {
            reply: "Acknowledged:\n".to_string(),
            notice: Some((
                11,
                "b@c".to_string(),
                "Ann Lee (ann) ran `ack 1` with output `Acknowledged:\n` as you.".to_string()
            )),
        }
    );
}

#[test]
fn delegation_failures_reply() {
    let (s, a) = step(Delegation::AwaitGithubId, DelegationEvent::GithubId(Ok(None)));
    assert!(s.is_none());
    assert_eq!(a, finish("Can only authorize for other GitHub users."));
    let (_, a) = step(Delegation::AwaitGithubId, DelegationEvent::GithubId(Err("e".to_string())));
    assert_eq!(a, DelegationAction::Fail("getting ID of github user: e".to_string()));
    let (_, a) = step(
        Delegation::AwaitMembers { github_id: 5 },
        DelegationEvent::Members(Err("down".to_string())),
    );
    assert_eq!(a, finish("Failed to get list of zulip users: down."));
    let (_, a) = step(
        Delegation::AwaitZulipId { github_id: 5, members: vec![] },
        DelegationEvent::ZulipId(Ok(None)),
    );
    assert_eq!(a, finish("Could not find Zulip ID for GitHub ID: 5"));
    let (_, a) = step(
        Delegation::AwaitZulipId { github_id: -5, members: vec![] },
        DelegationEvent::ZulipId(Err("x".to_string())),
    );
    assert_eq!(a, finish("Could not find Zulip ID for GitHub id -5: x"));
    let (_, a) = step(
        Delegation::AwaitZulipId { github_id: 5, members: vec![] },
        DelegationEvent::ZulipId(Ok(Some(9))),
    );
    assert_eq!(a, finish("Could not find Zulip user email."));
    let (_, a) = step(Delegation::AwaitGithubId, DelegationEvent::Output("o".to_string()));
    assert_eq!(
        a,
        DelegationAction::Fail(
            "unexpected event while running a command for another user".to_string()
        )
    );
}
