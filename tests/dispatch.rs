use triagebot::handlers::{
    gate_feature, github_step, response_content, zulip_step, ConfigurationError, Dispatch,
    HandlerError,
};

const NOT_ENABLED: &str = "The feature `relabel` is not enabled in this repository.\nTo enable it add its section in the `triagebot.toml` in the root of the repository.";

#[test]
fn disabled_feature_is_reported() {
    match github_step(Ok(Some(5u32)), "relabel", None, false) {
        Dispatch::Abort(HandlerError::Message(m)) => assert_eq!(m, NOT_ENABLED),
        other => panic!("unexpected {:?}", other),
    }
}

#[test]
fn enabled_feature_executes() {
    assert!(matches!(github_step(Ok(Some(5u32)), "relabel", None, true), Dispatch::Execute(5)));
    assert!(gate_feature("x", None, true).is_ok());
}

#[test]
fn parse_errors_and_no_input() {
    match github_step::<u32>(Err("bad".to_string()), "relabel", None, true) {
        Dispatch::Abort(HandlerError::Message(m)) => assert_eq!(m, "bad"),
        other => panic!("unexpected {:?}", other),
    }
    let missing = ConfigurationError::Missing;
    assert!(matches!(github_step::<u32>(Ok(None), "relabel", Some(&missing), false), Dispatch::Skip));
    assert!(matches!(zulip_step::<u32>(Ok(None)), Dispatch::Skip));
    assert!(matches!(zulip_step(Ok(Some(1u8))), Dispatch::Execute(1)));
    match zulip_step::<u8>(Err("oops".to_string())) {
        Dispatch::Abort(HandlerError::Message(m)) => assert_eq!(m, "oops"),
        other => panic!("unexpected {:?}", other),
    }
}

#[test]
fn configuration_failures() {
    let missing = ConfigurationError::Missing;
    match gate_feature("relabel", Some(&missing), true) {
        Err(HandlerError::Message(m)) => assert_eq!(
            m,
            "This repository is not enabled to use triagebot.\nAdd a `triagebot.toml` in the root of the master branch to enable it."
        ),
        other => panic!("unexpected {:?}", other),
    }
    let toml = ConfigurationError::Toml("line 3".to_string());
    match gate_feature("relabel", Some(&toml), true) {
        Err(HandlerError::Message(m)) => {
            assert_eq!(m, "Malformed `triagebot.toml` in master branch.\nline 3")
        }
        other => panic!("unexpected {:?}", other),
    }
    let http = ConfigurationError::Http("timeout".to_string());
    let e = gate_feature("relabel", Some(&http), true).unwrap_err();
    assert!(matches!(e, HandlerError::Other(_)));
    assert_eq!(e.message(), "An internal error occurred.");
}

#[test]
fn chat_responses() {
    assert_eq!(response_content(false, &Ok(())), Some("Invalid authorization.".to_string()));
    assert_eq!(response_content(true, &Ok(())), None);
    assert_eq!(
        response_content(true, &Err(HandlerError::Message("m".to_string()))),
        Some("m".to_string())
    );
    assert_eq!(
        response_content(true, &Err(HandlerError::Other(anyhow::Error::msg("x")))),
        Some("handling failed, error logged".to_string())
    );
}

use triagebot::handlers::{finish_github, github_plan, github_result, zulip_plan};

#[test]
fn github_handlers_run_in_order_until_an_abort() {
    let turns = vec![
        Dispatch::Execute(1u8),
        Dispatch::Skip,
        Dispatch::Execute(2u8),
        Dispatch::Abort(HandlerError::Message("stop".to_string())),
        Dispatch::Execute(3u8),
    ];
    let (runs, stop) = github_plan(turns);
    assert_eq!(runs, vec![1, 2]);
    match github_result(stop, None) {
        Err(HandlerError::Message(m)) => assert_eq!(m, "stop"),
        other => panic!("unexpected {:?}", other),
    }
    let (runs, stop) = github_plan(vec![Dispatch::Skip, Dispatch::Execute(4u8)]);
    assert_eq!(runs, vec![4]);
    assert!(stop.is_none());
    assert!(github_result(None, None).is_ok());
    assert!(matches!(
        github_result(None, Some(anyhow::Error::msg("boom"))),
        Err(HandlerError::Other(_))
    ));
}

#[test]
fn post_processing_failures_do_not_change_the_result() {
    let (r, logs) = finish_github(
        Ok(()),
        vec![Err("first".to_string()), Ok(()), Err("second".to_string())],
    );
    assert!(r.is_ok());
    assert_eq!(logs, vec!["first".to_string(), "second".to_string()]);
    let (r, logs) = finish_github(Err(HandlerError::Message("m".to_string())), vec![Ok(())]);
    assert!(matches!(r, Err(HandlerError::Message(m)) if m == "m"));
    assert!(logs.is_empty());
}

#[test]
fn chat_first_match_wins() {
    let r = zulip_plan(vec![
        Dispatch::Skip,
        Dispatch::Execute(1u8),
        Dispatch::Abort(HandlerError::Message("later".to_string())),
        Dispatch::Execute(2u8),
    ]);
    assert!(matches!(r, Ok(Some(1))));
    let r = zulip_plan(vec![Dispatch::Abort(HandlerError::Message("bad".to_string())), Dispatch::Execute(2u8)]);
    assert!(matches!(r, Err(HandlerError::Message(m)) if m == "bad"));
    assert!(matches!(zulip_plan::<u8>(vec![Dispatch::Skip]), Ok(None)));
}
