use puressh::config::match_block::{
    address_matches, all_match, evaluate, parse_address_list, parse_match_line,
    parse_match_line_server, parse_match_pattern_list, ExecPolicy, MatchCondition, MatchContext,
};
use puressh::config::ConfigError;

fn ctx<'a>(host: &'a str) -> MatchContext<'a> {
    MatchContext {
        host,
        original_host: None,
        user: None,
        local_user: None,
        ..MatchContext::default()
    }
}

#[test]
fn parse_all_alone() {
    let args = vec!["all".to_string()];
    let conds = parse_match_line(&args, 1).unwrap();
    assert_eq!(conds, vec![MatchCondition::All]);
}

#[test]
fn parse_host_with_pattern_list() {
    let args = vec!["host".to_string(), "*.example.com,!secret.*".to_string()];
    let conds = parse_match_line(&args, 1).unwrap();
    match &conds[0] {
        MatchCondition::Host(p) => {
            assert_eq!(p.len(), 2);
        }
        _ => panic!("wrong cond"),
    }
}

#[test]
fn parse_missing_argument_errors() {
    let args = vec!["host".to_string()];
    let err = parse_match_line(&args, 7).unwrap_err();
    match err {
        ConfigError::BadValue { line, .. } => assert_eq!(line, 7),
        _ => panic!("wrong err: {err:?}"),
    }
}

#[test]
fn parse_unknown_criterion_errors() {
    let args = vec!["address".to_string(), "1.2.3.4".to_string()];
    let err = parse_match_line(&args, 3).unwrap_err();
    match err {
        ConfigError::BadValue { line, .. } => assert_eq!(line, 3),
        _ => panic!("wrong err: {err:?}"),
    }
}

#[test]
fn parse_empty_errors() {
    let err = parse_match_line(&[], 1).unwrap_err();
    match err {
        ConfigError::BadValue { .. } => {}
        _ => panic!("wrong err: {err:?}"),
    }
}

#[test]
fn evaluate_all_matches() {
    let c = ctx("anything");
    assert!(evaluate(&MatchCondition::All, &c, ExecPolicy::Deny));
}

#[test]
fn evaluate_canonical_never_matches() {
    let c = ctx("anything");
    assert!(!evaluate(&MatchCondition::Canonical, &c, ExecPolicy::Deny));
    assert!(!evaluate(&MatchCondition::Final, &c, ExecPolicy::Deny));
}

#[test]
fn evaluate_user_missing_in_context_is_no_match() {
    let conds = parse_match_line(&["user".to_string(), "alice".to_string()], 1).unwrap();
    let c = ctx("h"); // no user
    assert!(!all_match(&conds, &c, ExecPolicy::Deny));
}

#[test]
fn evaluate_exec_denied_by_default() {
    let conds = parse_match_line(&["exec".to_string(), "true".to_string()], 1).unwrap();
    let c = ctx("h");
    assert!(!all_match(&conds, &c, ExecPolicy::Deny));
}

#[test]
fn parse_match_pattern_list_skips_empties() {
    let pats = parse_match_pattern_list("a,,b");
    assert_eq!(pats.len(), 2);
}

// ---- server-side criteria --------------------------------------------

#[test]
fn server_parses_address_group_localport() {
    let args = vec![
        "address".to_string(),
        "192.0.2.0/24,!192.0.2.7".to_string(),
        "group".to_string(),
        "admin,wheel".to_string(),
        "localport".to_string(),
        "22,2222".to_string(),
    ];
    let conds = parse_match_line_server(&args, 1).unwrap();
    assert_eq!(conds.len(), 3);
    assert!(matches!(conds[0], MatchCondition::Address(_)));
    assert!(matches!(conds[1], MatchCondition::Group(_)));
    assert!(matches!(&conds[2], MatchCondition::LocalPort(p) if p == &[22, 2222]));
}

#[test]
fn server_rejects_client_only_criteria() {
    for kw in ["host", "originalhost", "localuser"] {
        let args = vec![kw.to_string(), "x".to_string()];
        let err = parse_match_line_server(&args, 3).unwrap_err();
        assert!(
            matches!(err, ConfigError::Unsupported { line: 3, .. }),
            "{kw}: got {err:?}"
        );
    }
}

#[test]
fn server_rejects_rdomain_connection() {
    for kw in ["rdomain", "connection"] {
        let args = vec![kw.to_string(), "x".to_string()];
        let err = parse_match_line_server(&args, 5).unwrap_err();
        assert!(matches!(err, ConfigError::Unsupported { line: 5, .. }));
    }
}

#[test]
fn client_still_rejects_server_criteria() {
    // `address` is a server criterion; the client parser must treat it as
    // an unknown criterion (BadValue).
    let args = vec!["address".to_string(), "1.2.3.4".to_string()];
    let err = parse_match_line(&args, 1).unwrap_err();
    assert!(matches!(err, ConfigError::BadValue { line: 1, .. }));
}

#[test]
fn address_cidr_v4_match() {
    let pats = parse_address_list("192.0.2.0/24");
    assert!(address_matches(&pats, "192.0.2.7"));
    assert!(!address_matches(&pats, "192.0.3.7"));
}

#[test]
fn address_bare_v4_is_host_route() {
    let pats = parse_address_list("192.0.2.7");
    assert!(address_matches(&pats, "192.0.2.7"));
    assert!(!address_matches(&pats, "192.0.2.8"));
}

#[test]
fn address_negation() {
    let pats = parse_address_list("192.0.2.0/24,!192.0.2.7");
    assert!(address_matches(&pats, "192.0.2.1"));
    assert!(!address_matches(&pats, "192.0.2.7"));
}

#[test]
fn address_v6_cidr() {
    let pats = parse_address_list("2001:db8::/32");
    assert!(address_matches(&pats, "2001:db8::1"));
    assert!(!address_matches(&pats, "2001:dba::1"));
    // Mixed family never matches.
    assert!(!address_matches(&pats, "192.0.2.1"));
}

#[test]
fn address_glob_fallback() {
    let pats = parse_address_list("192.0.2.*");
    assert!(address_matches(&pats, "192.0.2.55"));
    assert!(!address_matches(&pats, "192.0.3.55"));
}

#[test]
fn address_zero_prefix_matches_family() {
    let pats = parse_address_list("0.0.0.0/0");
    assert!(address_matches(&pats, "8.8.8.8"));
    assert!(!address_matches(&pats, "::1"));
}

#[test]
fn evaluate_group_any_member() {
    let conds =
        parse_match_line_server(&["group".to_string(), "wheel".to_string()], 1).unwrap();
    let groups = vec!["users".to_string(), "wheel".to_string()];
    let c = MatchContext {
        host: "h",
        groups: Some(&groups),
        ..MatchContext::default()
    };
    assert!(all_match(&conds, &c, ExecPolicy::Deny));
    // No groups in context ⇒ never matches.
    let c2 = ctx("h");
    assert!(!all_match(&conds, &c2, ExecPolicy::Deny));
}
