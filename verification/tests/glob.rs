use puressh::config::glob::{glob_match, host_matches, HostPattern};

fn pat(tokens: &[&str]) -> Vec<HostPattern> {
    let v: Vec<String> = tokens.iter().map(|s| s.to_string()).collect();
    HostPattern::parse_all(&v)
}

#[test]
fn literal_match() {
    assert!(host_matches(&pat(&["example.com"]), "example.com"));
    assert!(!host_matches(&pat(&["example.com"]), "other.com"));
}

#[test]
fn star_matches_any() {
    assert!(host_matches(&pat(&["*"]), "anything"));
    assert!(host_matches(&pat(&["*"]), ""));
}

#[test]
fn star_partial() {
    assert!(host_matches(&pat(&["*.example.com"]), "host.example.com"));
    assert!(!host_matches(&pat(&["*.example.com"]), "example.com"));
}

#[test]
fn question_mark() {
    assert!(host_matches(&pat(&["host?"]), "hosta"));
    assert!(!host_matches(&pat(&["host?"]), "host"));
    assert!(!host_matches(&pat(&["host?"]), "hostab"));
}

#[test]
fn negation_excludes() {
    // `Host *.example.com !secret.example.com`
    assert!(host_matches(
        &pat(&["*.example.com", "!secret.example.com"]),
        "ok.example.com"
    ));
    assert!(!host_matches(
        &pat(&["*.example.com", "!secret.example.com"]),
        "secret.example.com"
    ));
}

#[test]
fn negation_alone_never_matches() {
    // Pure-negative lists have no positive token, so nothing matches.
    assert!(!host_matches(&pat(&["!foo"]), "bar"));
    assert!(!host_matches(&pat(&["!foo"]), "foo"));
}

#[test]
fn empty_never_matches() {
    assert!(!host_matches(&[], "anything"));
}
