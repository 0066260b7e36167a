use puressh::config::algos::{default_list, known_names, resolve_algo_list, AlgoCategory};
use puressh::config::ConfigError;
use puressh::transport::kex::is_strict_kex_marker;

fn args(s: &str) -> Vec<String> {
    s.split_whitespace().map(|t| t.to_string()).collect()
}

#[test]
fn bare_list_replaces() {
    let got = resolve_algo_list(
        AlgoCategory::Cipher,
        &args("aes128-ctr,aes256-ctr"),
        1,
        "Ciphers",
    )
    .unwrap();
    assert_eq!(got, vec!["aes128-ctr", "aes256-ctr"]);
}

#[test]
fn append_modifier() {
    let defaults = default_list(AlgoCategory::Mac);
    let got = resolve_algo_list(AlgoCategory::Mac, &args("+hmac-sha2-256"), 1, "MACs").unwrap();
    // The default list is preserved, hmac-sha2-256 was already in it so
    // it is not duplicated.
    assert_eq!(got.len(), defaults.len());
    assert!(got.iter().any(|m| m == "hmac-sha2-256"));
}

#[test]
fn append_modifier_adds_new() {
    // Build a default list without one entry, then re-append it.
    let got =
        resolve_algo_list(AlgoCategory::Cipher, &args("+aes128-ctr"), 1, "Ciphers").unwrap();
    let count = got.iter().filter(|c| *c == "aes128-ctr").count();
    assert_eq!(count, 1, "append must not duplicate an existing entry");
}

#[test]
fn remove_glob() {
    let got = resolve_algo_list(AlgoCategory::Cipher, &args("-aes*"), 1, "Ciphers").unwrap();
    assert!(got.iter().all(|c| !c.starts_with("aes")));
    assert!(got.iter().any(|c| c == "chacha20-poly1305@openssh.com"));
}

#[test]
fn remove_glob_unmatched_is_ok() {
    // A glob that matches nothing is tolerated; the set is unchanged.
    let got = resolve_algo_list(
        AlgoCategory::Cipher,
        &args("-nonexistent-cipher"),
        1,
        "Ciphers",
    )
    .unwrap();
    assert_eq!(got.len(), default_list(AlgoCategory::Cipher).len());
}

#[test]
fn prepend_modifier() {
    let got =
        resolve_algo_list(AlgoCategory::Cipher, &args("^aes128-ctr"), 1, "Ciphers").unwrap();
    assert_eq!(got[0], "aes128-ctr");
    // The rest of the defaults follow, minus the duplicate we moved up.
    assert_eq!(got.len(), default_list(AlgoCategory::Cipher).len());
}

#[test]
fn unknown_name_rejected_with_line() {
    let err =
        resolve_algo_list(AlgoCategory::Cipher, &args("aes999-ctr"), 7, "Ciphers").unwrap_err();
    match err {
        ConfigError::BadValue { line, keyword, msg } => {
            assert_eq!(line, 7);
            assert_eq!(keyword, "Ciphers");
            assert!(
                msg.contains("aes999-ctr"),
                "msg should name the token: {msg}"
            );
        }
        other => panic!("expected BadValue, got {other:?}"),
    }
}

#[test]
fn append_unknown_rejected() {
    let err =
        resolve_algo_list(AlgoCategory::Mac, &args("+hmac-bogus"), 3, "MACs").unwrap_err();
    assert!(matches!(err, ConfigError::BadValue { line: 3, .. }));
}

#[test]
fn empty_directive_rejected() {
    let err = resolve_algo_list(AlgoCategory::Cipher, &[], 2, "Ciphers").unwrap_err();
    assert!(matches!(err, ConfigError::BadValue { line: 2, .. }));
}

#[test]
fn remove_everything_is_empty_error() {
    let err = resolve_algo_list(AlgoCategory::Cipher, &args("-*"), 4, "Ciphers").unwrap_err();
    match err {
        ConfigError::BadValue { line, msg, .. } => {
            assert_eq!(line, 4);
            assert!(msg.contains("empty"), "msg: {msg}");
        }
        other => panic!("expected BadValue, got {other:?}"),
    }
}

#[test]
fn comma_and_whitespace_tolerated() {
    // OpenSSH accepts spaces around commas when the whole thing is one
    // logical list; our tokenizer joins args then splits on commas.
    let got = resolve_algo_list(
        AlgoCategory::Cipher,
        &args("aes128-ctr, aes256-ctr , chacha20-poly1305@openssh.com"),
        1,
        "Ciphers",
    )
    .unwrap();
    assert_eq!(
        got,
        vec!["aes128-ctr", "aes256-ctr", "chacha20-poly1305@openssh.com"]
    );
}

#[test]
fn kex_markers_never_user_visible() {
    // The strict-kex markers are not in the known/default kex names, so a
    // user cannot name them and they cannot be removed.
    assert!(
        !known_names(AlgoCategory::Kex)
            .iter()
            .any(|n| is_strict_kex_marker(n))
    );
    assert!(
        !default_list(AlgoCategory::Kex)
            .iter()
            .any(|n| is_strict_kex_marker(n))
    );
    let err = resolve_algo_list(
        AlgoCategory::Kex,
        &args("kex-strict-c-v00@openssh.com"),
        1,
        "KexAlgorithms",
    )
    .unwrap_err();
    assert!(matches!(err, ConfigError::BadValue { .. }));
}

#[test]
fn hostkey_known_names_exclude_bare_ssh_rsa() {
    assert!(
        !known_names(AlgoCategory::HostKey)
            .iter()
            .any(|n| *n == "ssh-rsa")
    );
    assert!(
        known_names(AlgoCategory::HostKey)
            .iter()
            .any(|n| *n == "ssh-ed25519")
    );
}

#[test]
fn pubkey_accepted_uses_hostkey_catalogue() {
    let got = resolve_algo_list(
        AlgoCategory::PubkeyAccepted,
        &args("ssh-ed25519,rsa-sha2-512"),
        1,
        "PubkeyAcceptedAlgorithms",
    )
    .unwrap();
    assert_eq!(got, vec!["ssh-ed25519", "rsa-sha2-512"]);
}
