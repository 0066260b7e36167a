use puressh::config::parser::tokenize;
use puressh::config::ConfigError;

#[test]
fn skips_blank_and_comment_lines() {
    let p = tokenize("# comment\n\n   \n# another\n").unwrap();
    assert!(p.is_empty());
}

#[test]
fn lowercases_keyword() {
    let p = tokenize("HostName example.com").unwrap();
    assert_eq!(p.len(), 1);
    assert_eq!(p[0].keyword, "hostname");
    assert_eq!(p[0].args, vec!["example.com"]);
}

#[test]
fn accepts_equals_separator() {
    let cases = ["Port=2222", "Port =2222", "Port= 2222", "Port = 2222"];
    for src in cases {
        let p = tokenize(src).unwrap();
        assert_eq!(p.len(), 1, "case {src:?}");
        assert_eq!(p[0].keyword, "port", "case {src:?}");
        assert_eq!(p[0].args, vec!["2222"], "case {src:?}");
    }
}

#[test]
fn quoted_value_preserves_whitespace() {
    let p = tokenize(r#"User "alice bob""#).unwrap();
    assert_eq!(p[0].args, vec!["alice bob"]);
}

#[test]
fn backslash_escape_in_quotes() {
    let p = tokenize(r#"User "a\"b\\c""#).unwrap();
    assert_eq!(p[0].args, vec!["a\"b\\c"]);
}

#[test]
fn trailing_comment_after_value() {
    let p = tokenize("Port 22 # default").unwrap();
    assert_eq!(p[0].args, vec!["22"]);
}

#[test]
fn quoted_hash_is_not_comment() {
    let p = tokenize(r#"Host "weird#name""#).unwrap();
    assert_eq!(p[0].args, vec!["weird#name"]);
}

#[test]
fn multiple_args() {
    let p = tokenize("LocalForward 8080 example.com:80").unwrap();
    assert_eq!(p[0].args, vec!["8080", "example.com:80"]);
}

#[test]
fn unterminated_quote_errors() {
    let err = tokenize(r#"Host "unterminated"#).unwrap_err();
    match err {
        ConfigError::Syntax { line, .. } => assert_eq!(line, 1),
        _ => panic!("wrong error: {err:?}"),
    }
}
