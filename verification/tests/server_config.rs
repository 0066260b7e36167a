use puressh::config::match_block::{ExecPolicy, MatchContext};
use puressh::config::server::{
    AddressFamily, Compression, GatewayPorts, PermitRootLogin, RekeyLimit, SshServerConfig,
    TcpForwarding,
};
use puressh::config::ConfigError;

#[test]
fn server_parse_minimal() {
    let src = "\
Port 2222
ListenAddress 127.0.0.1
HostKey /etc/ssh/ssh_host_ed25519_key
AuthorizedKeysFile /etc/authkeys
AllowUsers alice bob
StrictModes yes
";
    let cfg = SshServerConfig::parse(src).unwrap().global;
    assert_eq!(cfg.port, Some(2222));
    assert_eq!(cfg.listen_addresses, vec!["127.0.0.1".to_string()]);
    assert_eq!(
        cfg.host_key_files,
        vec!["/etc/ssh/ssh_host_ed25519_key".to_string()]
    );
    assert_eq!(cfg.authorized_keys_file.as_deref(), Some("/etc/authkeys"));
    assert_eq!(
        cfg.allow_users,
        vec!["alice".to_string(), "bob".to_string()]
    );
    assert_eq!(cfg.strict_modes, Some(true));
}

#[test]
fn cumulative_fields() {
    let src = "\
HostKey /a
HostKey /b
ListenAddress 127.0.0.1
ListenAddress ::1
AllowUsers alice
AllowUsers bob carol
";
    let cfg = SshServerConfig::parse(src).unwrap().global;
    assert_eq!(cfg.host_key_files, vec!["/a".to_string(), "/b".to_string()]);
    assert_eq!(
        cfg.listen_addresses,
        vec!["127.0.0.1".to_string(), "::1".to_string()]
    );
    assert_eq!(
        cfg.allow_users,
        vec!["alice".to_string(), "bob".to_string(), "carol".to_string()]
    );
}

#[test]
fn match_block_parses_and_resolves() {
    let src = "Port 22\nMatch User alice\n  AllowAgentForwarding no\n";
    let cfg = SshServerConfig::parse(src).unwrap();
    assert_eq!(cfg.global.port, Some(22));
    assert_eq!(cfg.match_blocks.len(), 1);
    // No user in context ⇒ block does not apply.
    let base = cfg.resolve(&MatchContext::default(), ExecPolicy::Deny);
    assert_eq!(base.allow_agent_forwarding, None);
    // alice ⇒ block applies, AllowAgentForwarding no is merged.
    let ctx = MatchContext {
        host: "h",
        user: Some("alice"),
        ..MatchContext::default()
    };
    let eff = cfg.resolve(&ctx, ExecPolicy::Deny);
    assert_eq!(eff.allow_agent_forwarding, Some(false));
    assert_eq!(eff.port, Some(22)); // global scalar preserved
}

#[test]
fn match_first_match_wins_and_cumulative() {
    let src = "\
Match User alice
  MaxAuthTries 1
  AcceptEnv FOO
Match Group dev
  MaxAuthTries 2
  AcceptEnv BAR
";
    let cfg = SshServerConfig::parse(src).unwrap();
    let groups = vec!["dev".to_string()];
    let ctx = MatchContext {
        host: "h",
        user: Some("alice"),
        groups: Some(&groups),
        ..MatchContext::default()
    };
    let eff = cfg.resolve(&ctx, ExecPolicy::Deny);
    // First matching block sets the scalar; the later one does not override.
    assert_eq!(eff.max_auth_tries, Some(1));
    // AcceptEnv concatenates across both matching blocks.
    assert_eq!(eff.accept_env, vec!["FOO".to_string(), "BAR".to_string()]);
}

#[test]
fn match_address_localport_gate() {
    let src = "\
Match Address 192.0.2.0/24
  X11Forwarding no
Match LocalPort 2222
  AllowAgentForwarding no
";
    let cfg = SshServerConfig::parse(src).unwrap();
    let ctx = MatchContext {
        host: "h",
        address: Some("192.0.2.50"),
        local_port: Some(2222),
        ..MatchContext::default()
    };
    let eff = cfg.resolve(&ctx, ExecPolicy::Deny);
    assert_eq!(eff.x11_forwarding, Some(false));
    assert_eq!(eff.allow_agent_forwarding, Some(false));
    // A peer outside the range / on another port matches neither.
    let ctx2 = MatchContext {
        host: "h",
        address: Some("198.51.100.1"),
        local_port: Some(22),
        ..MatchContext::default()
    };
    let eff2 = cfg.resolve(&ctx2, ExecPolicy::Deny);
    assert_eq!(eff2.x11_forwarding, None);
    assert_eq!(eff2.allow_agent_forwarding, None);
}

#[test]
fn match_password_auth_yes_unsupported() {
    let src = "Match User alice\n  PasswordAuthentication yes\n";
    let err = SshServerConfig::parse(src).unwrap_err();
    assert!(
        matches!(err, ConfigError::Unsupported { line: 2, .. }),
        "{err:?}"
    );
}

#[test]
fn match_host_on_server_unsupported() {
    let src = "Match Host example.com\n  X11Forwarding no\n";
    let err = SshServerConfig::parse(src).unwrap_err();
    assert!(
        matches!(err, ConfigError::Unsupported { line: 1, .. }),
        "{err:?}"
    );
}

#[test]
fn invalid_in_match_rejected() {
    // Port is valid at file scope but not inside a Match block.
    let src = "Match User alice\n  Port 2222\n";
    let err = SshServerConfig::parse(src).unwrap_err();
    assert!(
        matches!(err, ConfigError::Unsupported { line: 2, .. }),
        "{err:?}"
    );
}

#[test]
fn auth_access_keywords_parse() {
    let src = "\
PubkeyAuthentication yes
PasswordAuthentication no
KbdInteractiveAuthentication no
AuthenticationMethods publickey
MaxAuthTries 3
DenyUsers baduser eve*
AllowGroups wheel admins
DenyGroups nologin
Banner /etc/ssh/banner
";
    let cfg = SshServerConfig::parse(src).unwrap().global;
    assert_eq!(cfg.pubkey_authentication, Some(true));
    assert_eq!(cfg.password_authentication, Some(false));
    assert_eq!(cfg.kbd_interactive_authentication, Some(false));
    assert_eq!(
        cfg.authentication_methods.as_deref(),
        Some(&["publickey".to_string()][..])
    );
    assert_eq!(cfg.max_auth_tries, Some(3));
    assert_eq!(
        cfg.deny_users,
        vec!["baduser".to_string(), "eve*".to_string()]
    );
    assert_eq!(
        cfg.allow_groups,
        vec!["wheel".to_string(), "admins".to_string()]
    );
    assert_eq!(cfg.deny_groups, vec!["nologin".to_string()]);
    assert_eq!(cfg.banner.as_deref(), Some("/etc/ssh/banner"));
}

#[test]
fn authentication_methods_multifactor_unsupported() {
    let err = SshServerConfig::parse("AuthenticationMethods publickey,password\n").unwrap_err();
    assert!(
        matches!(err, ConfigError::Unsupported { line: 1, .. }),
        "{err:?}"
    );
    let err2 = SshServerConfig::parse("AuthenticationMethods password\n").unwrap_err();
    assert!(
        matches!(err2, ConfigError::Unsupported { line: 1, .. }),
        "{err2:?}"
    );
    // `any` and bare `publickey` are accepted.
    assert!(SshServerConfig::parse("AuthenticationMethods any\n").is_ok());
}

#[test]
fn permit_empty_passwords_yes_unsupported() {
    let err = SshServerConfig::parse("PermitEmptyPasswords yes\n").unwrap_err();
    assert!(matches!(err, ConfigError::Unsupported { line: 1, .. }));
    assert!(SshServerConfig::parse("PermitEmptyPasswords no\n").is_ok());
}

#[test]
fn allow_users_at_host_accepted() {
    // The `user@host` form is matched against the peer address at login
    // time; it is stored verbatim.
    let cfg = SshServerConfig::parse("AllowUsers alice@1.2.3.4 bob\n").unwrap();
    assert_eq!(
        cfg.global.allow_users,
        vec!["alice@1.2.3.4".to_string(), "bob".to_string()]
    );
    // A malformed half is still a hard error.
    assert!(matches!(
        SshServerConfig::parse("AllowUsers @1.2.3.4\n").unwrap_err(),
        ConfigError::BadValue { line: 1, .. }
    ));
    assert!(matches!(
        SshServerConfig::parse("AllowUsers alice@\n").unwrap_err(),
        ConfigError::BadValue { line: 1, .. }
    ));
    // DenyUsers honours the same form.
    let cfg = SshServerConfig::parse("DenyUsers eve@*.evil.example\n").unwrap();
    assert_eq!(
        cfg.global.deny_users,
        vec!["eve@*.evil.example".to_string()]
    );
}

#[test]
fn server_unknown_keyword_errors() {
    // `Tunnel` is a real OpenSSH keyword that this parser does not know.
    let src = "Port 22\nTunnel yes\n";
    let err = SshServerConfig::parse(src).unwrap_err();
    match err {
        ConfigError::UnknownKeyword { keyword, line } => {
            assert_eq!(keyword, "tunnel");
            assert_eq!(line, 2);
        }
        _ => panic!("wrong error: {err:?}"),
    }
}

#[test]
fn algorithm_keywords_parse() {
    let src = "\
Port 22
Ciphers aes256-ctr,aes128-ctr
MACs hmac-sha2-512
KexAlgorithms curve25519-sha256
HostKeyAlgorithms ssh-ed25519,rsa-sha2-512
";
    let cfg = SshServerConfig::parse(src).unwrap().global;
    assert_eq!(
        cfg.ciphers.as_deref(),
        Some(&["aes256-ctr".to_string(), "aes128-ctr".to_string()][..])
    );
    assert_eq!(
        cfg.macs.as_deref(),
        Some(&["hmac-sha2-512".to_string()][..])
    );
    assert_eq!(
        cfg.kex_algorithms.as_deref(),
        Some(&["curve25519-sha256".to_string()][..])
    );
    assert_eq!(
        cfg.host_key_algorithms.as_deref(),
        Some(&["ssh-ed25519".to_string(), "rsa-sha2-512".to_string()][..])
    );
}

#[test]
fn unknown_mac_rejected_with_line() {
    let src = "Port 22\nMACs hmac-bogus\n";
    let err = SshServerConfig::parse(src).unwrap_err();
    match err {
        ConfigError::BadValue { line, keyword, msg } => {
            assert_eq!(line, 2);
            assert_eq!(keyword, "MACs");
            assert!(msg.contains("hmac-bogus"));
        }
        other => panic!("expected BadValue, got {other:?}"),
    }
}

#[test]
fn server_casignaturealgorithms_unsupported() {
    let src = "Port 22\nCASignatureAlgorithms ssh-ed25519\n";
    let err = SshServerConfig::parse(src).unwrap_err();
    assert!(matches!(err, ConfigError::Unsupported { line: 2, .. }));
}

#[test]
fn kex_remove_modifier_keeps_nonempty() {
    // `-` removes by glob from the defaults; the result must be non-empty.
    let src = "Port 22\nKexAlgorithms -diffie-hellman-group*\n";
    let cfg = SshServerConfig::parse(src).unwrap().global;
    let kex = cfg.kex_algorithms.unwrap();
    assert!(kex.iter().all(|k| !k.starts_with("diffie-hellman-group")));
    assert!(kex.iter().any(|k| k == "curve25519-sha256"));
}

#[test]
fn login_grace_time_units() {
    for (s, want) in [
        ("30", 30u32),
        ("30s", 30),
        ("2m", 120),
        ("1h", 3600),
        ("1m30s", 90),
    ] {
        let src = format!("LoginGraceTime {s}\n");
        let cfg = SshServerConfig::parse(&src).unwrap().global;
        assert_eq!(cfg.login_grace_time, Some(want), "case {s:?}");
    }
}

#[test]
fn permit_root_login_values() {
    for (s, want) in [
        ("yes", PermitRootLogin::Yes),
        ("no", PermitRootLogin::No),
        ("prohibit-password", PermitRootLogin::ProhibitPassword),
        ("without-password", PermitRootLogin::ProhibitPassword),
    ] {
        let src = format!("PermitRootLogin {s}\n");
        let cfg = SshServerConfig::parse(&src).unwrap().global;
        assert_eq!(cfg.permit_root_login, Some(want), "case {s:?}");
    }
    assert!(PermitRootLogin::Yes.permits_publickey());
    assert!(PermitRootLogin::ProhibitPassword.permits_publickey());
    assert!(!PermitRootLogin::No.permits_publickey());
}

#[test]
fn permit_root_login_forced_commands_unsupported() {
    let err = SshServerConfig::parse("PermitRootLogin forced-commands-only\n").unwrap_err();
    assert!(
        matches!(err, ConfigError::Unsupported { line: 1, .. }),
        "got {err:?}"
    );
}

#[test]
fn permit_root_login_bad_value() {
    let err = SshServerConfig::parse("PermitRootLogin maybe\n").unwrap_err();
    assert!(
        matches!(err, ConfigError::BadValue { line: 1, .. }),
        "got {err:?}"
    );
}

#[test]
fn sftp_knobs() {
    let src = "\
SftpEnabled yes
SftpReadOnly no
SftpRoot /var/sftp
ScpEnabled yes
";
    let cfg = SshServerConfig::parse(src).unwrap().global;
    assert_eq!(cfg.sftp_enabled, Some(true));
    assert_eq!(cfg.sftp_read_only, Some(false));
    assert_eq!(cfg.sftp_root.as_deref(), Some("/var/sftp"));
    assert_eq!(cfg.scp_enabled, Some(true));
}

// ---- session / forwarding / policy keywords -----------------------

#[test]
fn session_forwarding_keywords_parse() {
    let src = "\
MaxSessions 4
AllowTcpForwarding local
PermitOpen 127.0.0.1:80 example.com:443
PermitListen 127.0.0.1:8080
GatewayPorts clientspecified
ForceCommand /usr/bin/uptime --pretty
ChrootDirectory /var/jail
ClientAliveInterval 30
ClientAliveCountMax 2
PrintMotd yes
Compression delayed
RekeyLimit 512M 1h
AddressFamily inet
PidFile /run/sshd.pid
Subsystem sftp internal-sftp
";
    let cfg = SshServerConfig::parse(src).unwrap().global;
    assert_eq!(cfg.max_sessions, Some(4));
    assert_eq!(cfg.allow_tcp_forwarding, Some(TcpForwarding::Local));
    let open = cfg.permit_open.unwrap();
    assert_eq!(open.len(), 2);
    assert!(open[0].matches("127.0.0.1", 80));
    assert!(open[1].matches("example.com", 443));
    assert!(!open[0].matches("127.0.0.1", 81));
    assert_eq!(cfg.permit_listen.unwrap()[0].port, Some(8080));
    assert_eq!(cfg.gateway_ports, Some(GatewayPorts::ClientSpecified));
    assert_eq!(
        cfg.force_command.as_deref(),
        Some("/usr/bin/uptime --pretty")
    );
    assert_eq!(cfg.chroot_directory.as_deref(), Some("/var/jail"));
    assert_eq!(cfg.client_alive_interval, Some(30));
    assert_eq!(cfg.client_alive_count_max, Some(2));
    assert_eq!(cfg.print_motd, Some(true));
    assert_eq!(cfg.compression, Some(Compression::Delayed));
    assert_eq!(
        cfg.rekey_limit,
        Some(RekeyLimit {
            max_bytes: Some(512 * 1024 * 1024),
            max_seconds: Some(3600),
        })
    );
    assert_eq!(cfg.address_family, Some(AddressFamily::Inet));
    assert!(cfg.pid_file_set);
    assert_eq!(cfg.pid_file.as_deref(), Some("/run/sshd.pid"));
    assert_eq!(cfg.subsystem_sftp, Some(true));
}

#[test]
fn permit_open_any_and_none() {
    let any = SshServerConfig::parse("PermitOpen any\n")
        .unwrap()
        .global
        .permit_open
        .unwrap();
    assert!(any[0].matches("anything", 9999));
    let none = SshServerConfig::parse("PermitOpen none\n")
        .unwrap()
        .global
        .permit_open
        .unwrap();
    assert!(none.is_empty());
}

#[test]
fn permit_open_malformed_bad_value() {
    // Bare host with no port.
    let err = SshServerConfig::parse("PermitOpen justhost\n").unwrap_err();
    assert!(
        matches!(err, ConfigError::BadValue { line: 1, .. }),
        "{err:?}"
    );
    // Non-numeric port.
    let err2 = SshServerConfig::parse("PermitOpen host:abc\n").unwrap_err();
    assert!(
        matches!(err2, ConfigError::BadValue { line: 1, .. }),
        "{err2:?}"
    );
    // PermitListen shares the parser.
    let err3 = SshServerConfig::parse("PermitListen :\n").unwrap_err();
    assert!(
        matches!(err3, ConfigError::BadValue { line: 1, .. }),
        "{err3:?}"
    );
}

#[test]
fn permit_open_ipv6_bracketed() {
    let cfg = SshServerConfig::parse("PermitOpen [::1]:22\n")
        .unwrap()
        .global
        .permit_open
        .unwrap();
    assert_eq!(cfg[0].host, "::1");
    assert_eq!(cfg[0].port, Some(22));
}

#[test]
fn force_command_empty_bad_value() {
    let err = SshServerConfig::parse("ForceCommand\n").unwrap_err();
    // A value-less line must not silently succeed.
    assert!(
        matches!(err, ConfigError::BadValue { line: 1, .. }),
        "{err:?}"
    );
}

#[test]
fn permit_tunnel_unsupported() {
    let err = SshServerConfig::parse("PermitTunnel yes\n").unwrap_err();
    assert!(
        matches!(err, ConfigError::Unsupported { line: 1, .. }),
        "{err:?}"
    );
}

#[test]
fn external_subsystem_unsupported() {
    let err =
        SshServerConfig::parse("Subsystem sftp /usr/lib/openssh/sftp-server\n").unwrap_err();
    assert!(
        matches!(err, ConfigError::Unsupported { line: 1, .. }),
        "{err:?}"
    );
}

#[test]
fn subsystem_missing_command_bad_value() {
    let err = SshServerConfig::parse("Subsystem sftp\n").unwrap_err();
    assert!(
        matches!(err, ConfigError::BadValue { line: 1, .. }),
        "{err:?}"
    );
}

#[test]
fn chroot_none_clears() {
    let cfg = SshServerConfig::parse("ChrootDirectory none\n")
        .unwrap()
        .global;
    assert_eq!(cfg.chroot_directory, None);
}

#[test]
fn rekey_limit_default_and_none() {
    let d = SshServerConfig::parse("RekeyLimit default\n")
        .unwrap()
        .global
        .rekey_limit
        .unwrap();
    assert_eq!(d.max_bytes, None);
    assert_eq!(d.max_seconds, None);
    let n = SshServerConfig::parse("RekeyLimit 1G none\n")
        .unwrap()
        .global
        .rekey_limit
        .unwrap();
    assert_eq!(n.max_bytes, Some(1024 * 1024 * 1024));
    assert_eq!(n.max_seconds, None);
}

#[test]
fn rekey_limit_bad_value() {
    let err = SshServerConfig::parse("RekeyLimit 5X\n").unwrap_err();
    assert!(
        matches!(err, ConfigError::BadValue { line: 1, .. }),
        "{err:?}"
    );
}

#[test]
fn startup_keywords_rejected_in_match() {
    for kw in [
        "AddressFamily inet",
        "PidFile /x",
        "Compression no",
        "RekeyLimit 1G",
        "Subsystem sftp internal-sftp",
        "PermitTunnel yes",
    ] {
        let src = format!("Match User alice\n  {kw}\n");
        let err = SshServerConfig::parse(&src).unwrap_err();
        assert!(
            matches!(err, ConfigError::Unsupported { line: 2, .. }),
            "expected reject for {kw:?}, got {err:?}"
        );
    }
}

#[test]
fn session_keywords_match_overridable() {
    // MaxSessions / AllowTcpForwarding / ForceCommand etc. are valid in a
    // Match block and resolve per-connection.
    let src = "\
MaxSessions 10
Match User alice
  MaxSessions 1
  AllowTcpForwarding no
  ForceCommand internal-sftp
";
    let cfg = SshServerConfig::parse(src).unwrap();
    let base = cfg.resolve(&MatchContext::default(), ExecPolicy::Deny);
    assert_eq!(base.max_sessions, Some(10));
    assert_eq!(base.allow_tcp_forwarding, None);
    let ctx = MatchContext {
        host: "h",
        user: Some("alice"),
        ..MatchContext::default()
    };
    let eff = cfg.resolve(&ctx, ExecPolicy::Deny);
    // First-match-wins: global set MaxSessions 10 first, so it stays.
    assert_eq!(eff.max_sessions, Some(10));
    assert_eq!(eff.allow_tcp_forwarding, Some(TcpForwarding::No));
    assert_eq!(eff.force_command.as_deref(), Some("internal-sftp"));
}

#[test]
fn max_startups_is_one_number() {
    let cfg = SshServerConfig::parse("MaxStartups 10\n").unwrap().global;
    assert_eq!(cfg.max_startups, Some(10));
    match SshServerConfig::parse("MaxStartups 10:30:100\n").unwrap_err() {
        ConfigError::BadValue { line, keyword, msg } => {
            assert_eq!(line, 1);
            assert_eq!(keyword, "maxstartups");
            assert_eq!(msg, "MaxStartups start:rate:full triple not yet supported");
        }
        other => panic!("{other:?}"),
    }
}
