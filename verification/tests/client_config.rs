use puressh::config::client::{RequestTty, SshClientConfig, StrictMode};
use puressh::config::match_block::MatchContext;
use puressh::config::ConfigError;

#[test]
fn client_parse_minimal() {
    let src = "\
Host gw
  HostName 198.51.100.7
  User admin
  Port 2222
";
    let cfg = SshClientConfig::parse(src).unwrap();
    let eff = cfg.lookup("gw");
    assert_eq!(eff.host_name.as_deref(), Some("198.51.100.7"));
    assert_eq!(eff.port, Some(2222));
    assert_eq!(eff.user.as_deref(), Some("admin"));
}

#[test]
fn global_block_applies() {
    let src = "\
User globaluser
IdentitiesOnly yes
Host gw
  Port 2222
";
    let cfg = SshClientConfig::parse(src).unwrap();
    let eff = cfg.lookup("gw");
    assert_eq!(eff.user.as_deref(), Some("globaluser"));
    assert_eq!(eff.port, Some(2222));
    assert_eq!(eff.identities_only, Some(true));
}

#[test]
fn first_match_wins_for_scalars() {
    // Two matching blocks; the FIRST set wins.
    let src = "\
Host *.example.com
  User firstuser
Host *
  User otheruser
";
    let cfg = SshClientConfig::parse(src).unwrap();
    let eff = cfg.lookup("host.example.com");
    assert_eq!(eff.user.as_deref(), Some("firstuser"));
}

#[test]
fn identity_files_cumulative() {
    let src = "\
Host *
  IdentityFile ~/.ssh/id_a
Host gw
  IdentityFile ~/.ssh/id_b
";
    let cfg = SshClientConfig::parse(src).unwrap();
    let eff = cfg.lookup("gw");
    assert_eq!(eff.identity_files, vec!["~/.ssh/id_a", "~/.ssh/id_b"]);
}

#[test]
fn local_forward_parses() {
    let src = "\
Host gw
  LocalForward 8080 example.com:80
  LocalForward 127.0.0.1:9090 backend:443
";
    let cfg = SshClientConfig::parse(src).unwrap();
    let eff = cfg.lookup("gw");
    assert_eq!(eff.local_forwards.len(), 2);
    assert_eq!(eff.local_forwards[0].bind_addr, None);
    assert_eq!(eff.local_forwards[0].listen_port, 8080);
    assert_eq!(eff.local_forwards[0].remote_host, "example.com");
    assert_eq!(eff.local_forwards[0].remote_port, 80);
    assert_eq!(
        eff.local_forwards[1].bind_addr.as_deref(),
        Some("127.0.0.1")
    );
    assert_eq!(eff.local_forwards[1].listen_port, 9090);
}

#[test]
fn ipv6_bracketed_bind() {
    let src = "\
Host gw
  LocalForward [::1]:8080 example.com:80
";
    let cfg = SshClientConfig::parse(src).unwrap();
    let eff = cfg.lookup("gw");
    assert_eq!(eff.local_forwards[0].bind_addr.as_deref(), Some("::1"));
    assert_eq!(eff.local_forwards[0].listen_port, 8080);
}

#[test]
fn negated_host_excludes() {
    let src = "\
Host *.example.com !secret.example.com
  User foo
";
    let cfg = SshClientConfig::parse(src).unwrap();
    assert_eq!(cfg.lookup("ok.example.com").user.as_deref(), Some("foo"));
    assert_eq!(cfg.lookup("secret.example.com").user, None);
}

#[test]
fn client_unknown_keyword_errors() {
    let src = "Host gw\n  CompressionLevel 9\n";
    let err = SshClientConfig::parse(src).unwrap_err();
    match err {
        ConfigError::UnknownKeyword { keyword, line } => {
            assert_eq!(keyword, "compressionlevel");
            assert_eq!(line, 2);
        }
        _ => panic!("wrong error: {err:?}"),
    }
}

#[test]
fn strict_host_key_values() {
    for (s, want) in [
        ("yes", StrictMode::Yes),
        ("no", StrictMode::No),
        ("off", StrictMode::No),
        ("accept-new", StrictMode::AcceptNew),
        ("ask", StrictMode::Ask),
    ] {
        let src = format!("StrictHostKeyChecking {s}\n");
        let cfg = SshClientConfig::parse(&src).unwrap();
        assert_eq!(cfg.lookup("anything").strict_host_key, Some(want));
    }
}

#[test]
fn request_tty_values() {
    for (s, want) in [
        ("no", RequestTty::No),
        ("yes", RequestTty::Yes),
        ("force", RequestTty::Force),
        ("auto", RequestTty::Auto),
    ] {
        let src = format!("RequestTTY {s}\n");
        let cfg = SshClientConfig::parse(&src).unwrap();
        assert_eq!(cfg.lookup("anything").request_tty, Some(want));
    }
}

#[test]
fn equals_separator_accepted() {
    let src = "Host gw\n  Port=2222\n";
    let cfg = SshClientConfig::parse(src).unwrap();
    assert_eq!(cfg.lookup("gw").port, Some(2222));
}

// ----- Match-block tests --------------------------------------------

#[test]
fn match_host_glob() {
    let src = "\
Match host *.example.com
  User alice
";
    let cfg = SshClientConfig::parse(src).unwrap();
    assert_eq!(cfg.lookup("web.example.com").user.as_deref(), Some("alice"));
    assert_eq!(cfg.lookup("web.other.com").user, None);
}

#[test]
fn match_negated_host() {
    let src = "\
Match host *.example.com,!internal.example.com
  User alice
";
    let cfg = SshClientConfig::parse(src).unwrap();
    assert_eq!(cfg.lookup("web.example.com").user.as_deref(), Some("alice"));
    assert_eq!(cfg.lookup("internal.example.com").user, None);
}

#[test]
fn match_user_combined_with_host() {
    let src = "\
Match host *.example.com user alice
  Port 2222
";
    let cfg = SshClientConfig::parse(src).unwrap();
    // No user supplied → does not match.
    assert_eq!(cfg.lookup("web.example.com").port, None);
    // Wrong user → does not match.
    let ctx = MatchContext {
        host: "web.example.com",
        original_host: None,
        user: Some("bob"),
        local_user: None,
        ..MatchContext::default()
    };
    assert_eq!(cfg.lookup_with(ctx).port, None);
    // Right user → matches.
    let ctx = MatchContext {
        host: "web.example.com",
        original_host: None,
        user: Some("alice"),
        local_user: None,
        ..MatchContext::default()
    };
    assert_eq!(cfg.lookup_with(ctx).port, Some(2222));
}

#[test]
fn match_all_matches_everything() {
    let src = "\
Match all
  Port 4242
";
    let cfg = SshClientConfig::parse(src).unwrap();
    assert_eq!(cfg.lookup("anything").port, Some(4242));
    assert_eq!(cfg.lookup("other").port, Some(4242));
}

#[test]
fn match_canonical_never_matches_in_first_pass() {
    let src = "\
Match canonical
  Port 4242
";
    let cfg = SshClientConfig::parse(src).unwrap();
    assert_eq!(cfg.lookup("anything").port, None);
}

#[test]
fn match_final_never_matches_in_first_pass() {
    let src = "\
Match final
  Port 4242
";
    let cfg = SshClientConfig::parse(src).unwrap();
    assert_eq!(cfg.lookup("anything").port, None);
}

#[test]
fn match_exec_disabled_by_default() {
    // Even with a command that would succeed on every platform, the
    // block must be silently skipped while the default policy is in
    // effect.
    let src = "\
Match exec true
  Port 4242
";
    let cfg = SshClientConfig::parse(src).unwrap();
    assert!(!cfg.is_match_exec_enabled());
    assert_eq!(cfg.lookup("anything").port, None);
}

#[test]
fn match_originalhost_uses_pre_substitution_name() {
    let src = "\
Match originalhost prod
  Port 2200
";
    let cfg = SshClientConfig::parse(src).unwrap();
    let ctx = MatchContext {
        host: "10.0.0.1",
        original_host: Some("prod"),
        user: None,
        local_user: None,
        ..MatchContext::default()
    };
    assert_eq!(cfg.lookup_with(ctx).port, Some(2200));
}

#[test]
fn match_localuser() {
    let src = "\
Match localuser alice
  Port 2200
";
    let cfg = SshClientConfig::parse(src).unwrap();
    let ctx = MatchContext {
        host: "h",
        original_host: None,
        user: None,
        local_user: Some("alice"),
        ..MatchContext::default()
    };
    assert_eq!(cfg.lookup_with(ctx).port, Some(2200));
    let ctx = MatchContext {
        host: "h",
        original_host: None,
        user: None,
        local_user: Some("bob"),
        ..MatchContext::default()
    };
    assert_eq!(cfg.lookup_with(ctx).port, None);
}

#[test]
fn match_block_with_settings_parses() {
    // Sanity: settings inside a Match block actually get applied when
    // the block matches.
    let src = "\
Match host gw
  HostName 10.0.0.1
  Port 2222
  User admin
";
    let cfg = SshClientConfig::parse(src).unwrap();
    let eff = cfg.lookup("gw");
    assert_eq!(eff.host_name.as_deref(), Some("10.0.0.1"));
    assert_eq!(eff.port, Some(2222));
    assert_eq!(eff.user.as_deref(), Some("admin"));
}

#[test]
fn match_unknown_criterion_errors() {
    let src = "Match address 1.2.3.4\n  Port 22\n";
    let err = SshClientConfig::parse(src).unwrap_err();
    match err {
        ConfigError::BadValue { line, .. } => assert_eq!(line, 1),
        _ => panic!("wrong err: {err:?}"),
    }
}

#[test]
fn match_empty_args_errors() {
    let src = "Match\n  Port 22\n";
    let err = SshClientConfig::parse(src).unwrap_err();
    match err {
        ConfigError::BadValue { line, .. } => assert_eq!(line, 1),
        _ => panic!("wrong err: {err:?}"),
    }
}

// ----- Include-directive tests -------------------------------------

#[test]
fn include_unsupported_in_string_parse() {
    // parse(&str) cannot resolve Include — it should surface a friendly
    // diagnostic rather than UnknownKeyword.
    let src = "Include /etc/ssh/somefile\n";
    let err = SshClientConfig::parse(src).unwrap_err();
    match err {
        ConfigError::Unsupported { line, msg } => {
            assert_eq!(line, 1);
            assert!(msg.contains("Include"), "msg = {msg}");
        }
        _ => panic!("wrong err: {err:?}"),
    }
}
