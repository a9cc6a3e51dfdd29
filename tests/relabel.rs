use triagebot::relabel::{
    check_filter, match_pattern, CheckFilterResult, MatchPatternResult, RelabelConfig,
    TeamMembership,
};

#[test]
fn test_match_pattern() -> anyhow::Result<()> {
    assert_eq!(match_pattern("I-*", "I-nominated")?, MatchPatternResult::Allow);
    assert_eq!(match_pattern("!I-no*", "I-nominated")?, MatchPatternResult::Deny);
    assert_eq!(match_pattern("I-*", "T-infra")?, MatchPatternResult::NoMatch);
    assert_eq!(match_pattern("!I-no*", "T-infra")?, MatchPatternResult::NoMatch);
    Ok(())
}

#[test]
fn test_check_filter() -> anyhow::Result<()> {
    let config = RelabelConfig {
        allow_unauthenticated: vec!["T-*".into(), "I-*".into(), "!I-nominated".into()],
    };
    let cases = [
        (TeamMembership::Member, "T-release", CheckFilterResult::Allow),
        (TeamMembership::Member, "I-slow", CheckFilterResult::Allow),
        (TeamMembership::Member, "I-nominated", CheckFilterResult::Allow),
        (TeamMembership::Member, "A-spurious", CheckFilterResult::Allow),
        (TeamMembership::Outsider, "T-release", CheckFilterResult::Allow),
        (TeamMembership::Outsider, "I-slow", CheckFilterResult::Allow),
        (TeamMembership::Outsider, "I-nominated", CheckFilterResult::Deny),
        (TeamMembership::Outsider, "A-spurious", CheckFilterResult::Deny),
        (TeamMembership::Unknown, "T-release", CheckFilterResult::Allow),
        (TeamMembership::Unknown, "I-slow", CheckFilterResult::Allow),
        (TeamMembership::Unknown, "I-nominated", CheckFilterResult::DenyUnknown),
        (TeamMembership::Unknown, "A-spurious", CheckFilterResult::DenyUnknown),
    ];
    for (member, label, res) in cases {
        assert_eq!(check_filter(label, &config, member), Ok(res));
    }
    Ok(())
}

#[test]
fn malformed_pattern_is_reported() {
    assert!(match_pattern("[", "x").is_err());
    let config = RelabelConfig { allow_unauthenticated: vec!["[".into()] };
    assert_eq!(
        check_filter("x", &config, TeamMembership::Outsider),
        Err("failed to match pattern [".to_string())
    );
}

#[test]
fn malformed_pattern_after_denial_is_not_reached() {
    let config = RelabelConfig {
        allow_unauthenticated: vec!["!x".into(), "[".into()],
    };
    assert_eq!(
        check_filter("x", &config, TeamMembership::Outsider),
        Ok(CheckFilterResult::Deny)
    );
}

#[test]
fn member_skips_the_allow_list() {
    let config = RelabelConfig { allow_unauthenticated: vec!["[".into()] };
    assert_eq!(
        check_filter("x", &config, TeamMembership::Member),
        Ok(CheckFilterResult::Allow)
    );
}

use triagebot::relabel::{apply_label_deltas, membership, LabelDelta};

fn strings(v: &[&str]) -> Vec<String> {
    v.iter().map(|s| s.to_string()).collect()
}

#[test]
fn membership_from_check() {
    assert_eq!(membership(Some(true)), TeamMembership::Member);
    assert_eq!(membership(Some(false)), TeamMembership::Outsider);
    assert_eq!(membership(None), TeamMembership::Unknown);
}

#[test]
fn label_deltas_apply_in_order() {
    let config = RelabelConfig { allow_unauthenticated: vec!["T-*".into()] };
    let deltas = vec![
        LabelDelta::Add("T-lang".to_string()),
        LabelDelta::Remove("T-compiler".to_string()),
        LabelDelta::Add("T-lang".to_string()),
    ];
    let r = apply_label_deltas(strings(&["A-x", "T-compiler"]), &deltas, &config, TeamMembership::Outsider);
    assert_eq!(r, Ok((strings(&["A-x", "T-lang"]), true)));
    let r = apply_label_deltas(
        strings(&["A-x"]),
        &vec![LabelDelta::Remove("T-y".to_string())],
        &config,
        TeamMembership::Outsider,
    );
    assert_eq!(r, Ok((strings(&["A-x"]), false)));
}

#[test]
fn label_deltas_stop_at_a_denied_label() {
    let config = RelabelConfig { allow_unauthenticated: vec!["T-*".into()] };
    let deltas = vec![
        LabelDelta::Add("T-lang".to_string()),
        LabelDelta::Add("I-nominated".to_string()),
    ];
    assert_eq!(
        apply_label_deltas(Vec::new(), &deltas, &config, TeamMembership::Outsider),
        Err("Label I-nominated can only be set by Rust team members".to_string())
    );
    assert_eq!(
        apply_label_deltas(Vec::new(), &deltas, &config, TeamMembership::Unknown),
        Err("Label I-nominated can only be set by Rust team members;we were unable to check if you are a team member.".to_string())
    );
    assert_eq!(
        apply_label_deltas(Vec::new(), &deltas, &config, TeamMembership::Member),
        Ok((strings(&["T-lang", "I-nominated"]), true))
    );
}

#[test]
fn relabel_not_enabled_reply() {
    assert_eq!(
        triagebot::relabel::not_enabled_in("rust-lang/rust"),
        "The feature `relabel` is not enabled in the `rust-lang/rust` repository."
    );
}
