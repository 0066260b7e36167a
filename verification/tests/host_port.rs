use puressh::config::{parse_host_port, parse_host_port_pattern};

#[test]
fn parse_v4_with_port() {
    let (h, p) = parse_host_port("192.0.2.1:22", 22).unwrap();
    assert_eq!(h, "192.0.2.1");
    assert_eq!(p, 22);
}

#[test]
fn parse_hostname_with_port() {
    let (h, p) = parse_host_port("example.com:2222", 22).unwrap();
    assert_eq!(h, "example.com");
    assert_eq!(p, 2222);
}

#[test]
fn parse_hostname_no_port_uses_default() {
    let (h, p) = parse_host_port("example.com", 22).unwrap();
    assert_eq!(h, "example.com");
    assert_eq!(p, 22);
    let (h, p) = parse_host_port("example.com", 2200).unwrap();
    assert_eq!(h, "example.com");
    assert_eq!(p, 2200);
}

#[test]
fn parse_v4_no_port_uses_default() {
    let (h, p) = parse_host_port("192.0.2.1", 22).unwrap();
    assert_eq!(h, "192.0.2.1");
    assert_eq!(p, 22);
}

#[test]
fn parse_v6_bracketed_with_port() {
    let (h, p) = parse_host_port("[2001:db8::1]:2222", 22).unwrap();
    assert_eq!(h, "2001:db8::1");
    assert_eq!(p, 2222);
}

#[test]
fn parse_v6_bracketed_no_port() {
    let (h, p) = parse_host_port("[2001:db8::1]", 22).unwrap();
    assert_eq!(h, "2001:db8::1");
    assert_eq!(p, 22);
}

#[test]
fn parse_v6_bare_uses_default() {
    // The common natural form on the CLI: `ssh 2001:db8::1`.
    let (h, p) = parse_host_port("2001:db8::1", 22).unwrap();
    assert_eq!(h, "2001:db8::1");
    assert_eq!(p, 22);
}

#[test]
fn parse_v6_loopback_bare() {
    let (h, p) = parse_host_port("::1", 22).unwrap();
    assert_eq!(h, "::1");
    assert_eq!(p, 22);
}

#[test]
fn parse_v6_full_form_bracketed() {
    let (h, p) = parse_host_port("[2001:0db8:0000:0000:0000:0000:0000:0001]:2222", 22).unwrap();
    assert_eq!(h, "2001:0db8:0000:0000:0000:0000:0000:0001");
    assert_eq!(p, 2222);
}

#[test]
fn reject_missing_close_bracket() {
    assert!(parse_host_port("[2001:db8::1", 22).is_err());
    assert!(parse_host_port("[2001:db8::1:22", 22).is_err());
}

#[test]
fn reject_bracketed_v4() {
    // Brackets are v6-only.
    assert!(parse_host_port("[192.0.2.1]:22", 22).is_err());
    assert!(parse_host_port("[192.0.2.1]", 22).is_err());
}

#[test]
fn reject_bracketed_hostname() {
    assert!(parse_host_port("[example.com]:22", 22).is_err());
    assert!(parse_host_port("[example.com]", 22).is_err());
}

#[test]
fn reject_bad_port() {
    assert!(parse_host_port("host:not-a-port", 22).is_err());
    assert!(parse_host_port("host:", 22).is_err());
    assert!(parse_host_port("[2001:db8::1]:not-a-port", 22).is_err());
    assert!(parse_host_port("[2001:db8::1]:", 22).is_err());
}

#[test]
fn reject_empty() {
    assert!(parse_host_port("", 22).is_err());
}

#[test]
fn reject_garbage_after_close_bracket() {
    // `[host]garbage` — `]` is followed by something other than `:port`.
    assert!(parse_host_port("[2001:db8::1]garbage", 22).is_err());
}

#[test]
fn reject_empty_host_with_port() {
    // `:22` — port-only with no host.
    assert!(parse_host_port(":22", 22).is_err());
}

// ---- parse_host_port_pattern (known_hosts grammar) --------------------

#[test]
fn pattern_plain_host_uses_default_port() {
    let (h, p) = parse_host_port_pattern("example.com", 22).unwrap();
    assert_eq!(h, "example.com");
    assert_eq!(p, 22);
}

#[test]
fn pattern_bracketed_hostname_with_port() {
    // OpenSSH writes [host]:port for any host when port != 22.
    let (h, p) = parse_host_port_pattern("[example.com]:2222", 22).unwrap();
    assert_eq!(h, "example.com");
    assert_eq!(p, 2222);
}

#[test]
fn pattern_bracketed_v4_with_port() {
    let (h, p) = parse_host_port_pattern("[192.0.2.1]:2222", 22).unwrap();
    assert_eq!(h, "192.0.2.1");
    assert_eq!(p, 2222);
}

#[test]
fn pattern_bracketed_v6_with_port() {
    let (h, p) = parse_host_port_pattern("[2001:db8::1]:2222", 22).unwrap();
    assert_eq!(h, "2001:db8::1");
    assert_eq!(p, 2222);
}

#[test]
fn pattern_bracketed_no_port_defaults() {
    let (h, p) = parse_host_port_pattern("[example.com]", 22).unwrap();
    assert_eq!(h, "example.com");
    assert_eq!(p, 22);
}

#[test]
fn pattern_bare_host_with_colon_taken_verbatim() {
    // Plain `host:2222` is no valid known_hosts pattern, and silently
    // splitting it would change the lookup target and mask a host-key
    // change.
    let (h, p) = parse_host_port_pattern("example.com:2222", 22).unwrap();
    assert_eq!(h, "example.com:2222");
    assert_eq!(p, 22);
}

#[test]
fn pattern_bare_v6_uses_default_port() {
    // A bare v6 in a known_hosts plain pattern is exactly how
    // OpenSSH writes a port-22 v6 entry.
    let (h, p) = parse_host_port_pattern("2001:db8::1", 22).unwrap();
    assert_eq!(h, "2001:db8::1");
    assert_eq!(p, 22);
}

#[test]
fn pattern_reject_missing_close_bracket() {
    assert!(parse_host_port_pattern("[host", 22).is_err());
}

#[test]
fn pattern_reject_bad_port() {
    assert!(parse_host_port_pattern("[host]:abc", 22).is_err());
    assert!(parse_host_port_pattern("[host]:", 22).is_err());
}

#[test]
fn pattern_reject_garbage_after_close_bracket() {
    assert!(parse_host_port_pattern("[host]xyz", 22).is_err());
}
