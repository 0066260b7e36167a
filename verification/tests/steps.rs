use puressh::cipher::by_name;
use puressh::cipher::ctr::AesCtr;
use puressh::config::client::SshClientConfig;
use puressh::config::match_block::{
    all_match_step, evaluate_step, parse_match_line, ExecPolicy, ExecStep, MatchCondition,
    MatchContext,
};
use puressh::config::parser::tokenize;
use puressh::config::server::SshServerConfig;
use puressh::config::ConfigError;
use puressh::Error;

fn host(name: &str) -> MatchContext<'_> {
    MatchContext {
        host: name,
        ..MatchContext::default()
    }
}

const WITH_COMMANDS: &str = "Match host gw exec \"test -f /a\"\n  Port 2200\n\
                             Match exec test -f /b\n  User bee\n\
                             Host *\n  User fallback\n";

#[test]
fn match_exec_asks_for_each_command_in_turn() {
    let cfg = SshClientConfig::parse(WITH_COMMANDS).unwrap().enable_match_exec(true);
    let ctx = host("gw");
    let run = |answers: &[bool]| cfg.lookup_step(&ctx, answers);
    assert!(matches!(run(&[]), ExecStep::Run(c) if c == "test -f /a"));
    assert!(matches!(run(&[true]), ExecStep::Run(c) if c == "test -f /b"));
    match run(&[true, true]) {
        ExecStep::Done(o) => {
            assert_eq!(o.port, Some(2200));
            assert_eq!(o.user.as_deref(), Some("bee"));
        }
        other => panic!("{other:?}"),
    }
    match run(&[false, false]) {
        ExecStep::Done(o) => {
            assert_eq!(o.port, None);
            assert_eq!(o.user.as_deref(), Some("fallback"));
        }
        other => panic!("{other:?}"),
    }
    // A criterion that fails first spares the command behind it.
    let other = host("other");
    assert!(matches!(cfg.lookup_step(&other, &[]), ExecStep::Run(c) if c == "test -f /b"));
}

#[test]
fn match_exec_enabled_runs_command() {
    let run = |src: &str| {
        let cfg = SshClientConfig::parse(src).unwrap().enable_match_exec(true);
        assert!(cfg.is_match_exec_enabled());
        let ctx = host("anything");
        let mut answers: Vec<bool> = Vec::new();
        loop {
            match cfg.lookup_step(&ctx, &answers) {
                ExecStep::Done(o) => return o.port,
                // The two commands exit as their names say.
                ExecStep::Run(c) => answers.push(c == "true"),
            }
        }
    };
    let src = "\
Match exec true
  Port 4242
";
    assert_eq!(run(src), Some(4242));
    let src_false = "\
Match exec false
  Port 4242
";
    assert_eq!(run(src_false), None);
}

#[test]
fn match_exec_is_not_run_unless_enabled() {
    let cfg = SshClientConfig::parse(WITH_COMMANDS).unwrap();
    match cfg.lookup_step(&host("gw"), &[]) {
        ExecStep::Done(o) => assert_eq!(o.port, None),
        other => panic!("{other:?}"),
    }
    assert_eq!(cfg.lookup("gw").port, None);
}

#[test]
fn a_criterion_before_a_command_can_spare_it() {
    let args: Vec<String> = ["host", "gw", "exec", "true"].map(String::from).to_vec();
    let conds = parse_match_line(&args, 1).unwrap();
    let (step, used) = all_match_step(&conds, &host("other"), ExecPolicy::Allow, &[]);
    assert_eq!((step, used), (ExecStep::Done(false), 0));
    let (step, used) = all_match_step(&conds, &host("gw"), ExecPolicy::Allow, &[]);
    assert_eq!((step, used), (ExecStep::Run("true".to_string()), 0));
    let (step, used) = all_match_step(&conds, &host("gw"), ExecPolicy::Allow, &[true, false]);
    assert_eq!((step, used), (ExecStep::Done(true), 1));
    let (step, used) = all_match_step(&[], &host("gw"), ExecPolicy::Allow, &[true]);
    assert_eq!((step, used), (ExecStep::Done(false), 0));
    let cond = MatchCondition::Exec("x".to_string());
    assert_eq!(
        evaluate_step(&cond, &host("gw"), ExecPolicy::Deny, &[true]),
        ExecStep::Done(false)
    );
    assert_eq!(
        evaluate_step(&cond, &host("gw"), ExecPolicy::Allow, &[true]),
        ExecStep::Done(true)
    );
}

#[test]
fn server_blocks_resolve_step_by_step() {
    let src = "Port 22\nMatch User bob\n  X11Forwarding yes\n";
    let cfg = SshServerConfig::parse(src).unwrap();
    let bob = MatchContext {
        user: Some("bob"),
        ..MatchContext::default()
    };
    match cfg.resolve_step(&bob, ExecPolicy::Allow, &[]) {
        ExecStep::Done(o) => {
            assert_eq!(o.port, Some(22));
            assert_eq!(o.x11_forwarding, Some(true));
        }
        other => panic!("{other:?}"),
    }
}

#[test]
fn original_host_falls_back_to_the_host() {
    assert_eq!(host("gw").original_host_or_host(), "gw");
    let ctx = MatchContext {
        host: "10.0.0.1",
        original_host: Some("gw"),
        ..MatchContext::default()
    };
    assert_eq!(ctx.original_host_or_host(), "gw");
}

#[test]
fn errors_have_a_line_of_text() {
    let e = ConfigError::Syntax {
        line: 7,
        msg: "oops".to_string(),
    };
    assert_eq!(e.message(), "config: line 7: syntax: oops");
    let e = ConfigError::UnknownKeyword {
        line: 10,
        keyword: "frobnicate".to_string(),
    };
    assert_eq!(e.message(), "config: line 10: unknown keyword: frobnicate");
    let e = ConfigError::BadValue {
        line: 0,
        keyword: "port".to_string(),
        msg: "no".to_string(),
    };
    assert_eq!(e.message(), "config: line 0: bad value for port: no");
    let e = ConfigError::Unsupported {
        line: 123,
        msg: "later".to_string(),
    };
    assert_eq!(e.message(), "config: line 123: unsupported: later");
}

#[test]
fn equals_forms_and_comments() {
    for src in [
        "Port 22 # why\n",
        "PORT=22\n",
        "port =22\n",
        "Port= 22\n",
        "  Port = 22\r\n",
    ] {
        let lines = tokenize(src).unwrap();
        assert_eq!(lines.len(), 1, "{src:?}");
        assert_eq!(lines[0].keyword, "port");
        assert_eq!(lines[0].args, vec!["22"]);
    }
    let lines = tokenize("Host \"a \\\"b\\\\ #c\"\n").unwrap();
    assert_eq!(lines[0].args, vec!["a \"b\\ #c"]);
    assert!(tokenize("# nothing\n\n   \t# more\n").unwrap().is_empty());
}

#[test]
fn cipher_geometry() {
    let gcm = by_name("aes128-gcm@openssh.com").unwrap();
    assert_eq!((gcm.key_len, gcm.iv_len, gcm.block_size), (16, 12, 16));
    assert!(gcm.aead && gcm.tag_len == 16);
    let ctr = by_name("aes192-ctr").unwrap();
    assert_eq!((ctr.key_len, ctr.iv_len, ctr.aead, ctr.tag_len), (24, 16, false, 0));
    let chacha = by_name("chacha20-poly1305@openssh.com").unwrap();
    assert_eq!((chacha.key_len, chacha.iv_len, chacha.block_size), (64, 8, 8));
    assert!(by_name("3des-cbc").is_none());
}

#[test]
fn aes192_ctr_vector() {
    // NIST SP 800-38A, F.5.3.
    let key = [
        0x8e, 0x73, 0xb0, 0xf7, 0xda, 0x0e, 0x64, 0x52, 0xc8, 0x10, 0xf3, 0x2b, 0x80, 0x90, 0x79,
        0xe5, 0x62, 0xf8, 0xea, 0xd2, 0x52, 0x2c, 0x6b, 0x7b,
    ];
    let iv = [
        0xf0, 0xf1, 0xf2, 0xf3, 0xf4, 0xf5, 0xf6, 0xf7, 0xf8, 0xf9, 0xfa, 0xfb, 0xfc, 0xfd, 0xfe,
        0xff,
    ];
    let plain = [
        0x6b, 0xc1, 0xbe, 0xe2, 0x2e, 0x40, 0x9f, 0x96, 0xe9, 0x3d, 0x7e, 0x11, 0x73, 0x93, 0x17,
        0x2a,
    ];
    let cipher = [
        0x1a, 0xbc, 0x93, 0x24, 0x17, 0x52, 0x1c, 0xa2, 0x4f, 0x2b, 0x04, 0x59, 0xfe, 0x7e, 0x6e,
        0x0b,
    ];
    let mut data = plain;
    // The keystream runs on across calls.
    let mut stream = AesCtr::new_192(&key, &iv).unwrap();
    stream.apply_keystream(&mut data[..5]);
    stream.apply_keystream(&mut data[5..]);
    assert_eq!(data, cipher);
    AesCtr::new_192(&key, &iv).unwrap().apply_keystream(&mut data);
    assert_eq!(data, plain);
    assert!(matches!(
        AesCtr::new_192(&key[1..], &iv),
        Err(Error::Format("aes192-ctr key len"))
    ));
    assert!(matches!(
        AesCtr::new_192(&key, &iv[1..]),
        Err(Error::Format("aes-ctr iv len"))
    ));
}
