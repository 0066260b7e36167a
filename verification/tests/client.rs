use puressh::channel::{
    ChannelEvent, ChannelOpen, ChannelRequest, ConnectionState, GlobalRequest,
    SSH_OPEN_ADMINISTRATIVELY_PROHIBITED,
};
use puressh::client::asynchronous::{AsyncChannel, AsyncClient};
use puressh::client::fingerprint::{
    base64_text, fingerprint_b64_sha256, fingerprint_text, mismatch_banner,
};
use puressh::client::forward::ForwardStep;
use puressh::client::kexinit::{build_default_kexinit, build_kexinit};
use puressh::client::mio::{retry, MioClient, MioEvent, OutBuffer, Retry};
use puressh::client::pump::{
    handshake_read, packet_or_timeout, AuthRun, AuthStep, MAX_AUTH_STEPS, MAX_HANDSHAKE_READS,
};
use puressh::client::scp::{
    build_scp_from_cmd, build_scp_to_cmd, expected_name, scp_proto, single_quote_for_remote,
    target_is_file, ScpFault, ScpRecvOptions, ScpSendOptions,
};
use puressh::client::serve::{clamp_u16, Egress, Inbound, ServeAct, ServeState};
use puressh::client::session::{Next, Session, Step, MAX_EXEC_ITER};
use puressh::client::stream::{ChannelPump, ReadStep, WriteStep};
use puressh::client::termios::{encode_modes, Termios, TermiosLayout};
use puressh::client::verify::{
    answered, begin, begin_with_digest, certificate_parsed, looked_up, presented_key, HostKeyStep,
    LookupResult, StoreStep,
};
use puressh::client::{
    encode_termios_modes, AlgoOverrides, Client, ClientHandlers, Config, ExecOutput,
    HostKeyPolicy, KnownHostsPolicy, ServeCommand, TofuAction,
};
use puressh::config::algos::CA_SIGNATURE_DEFAULTS;
use puressh::error::IoErrorKind;
use puressh::transport::kex::{is_strict_kex_marker, CIPHERS, HOST_KEY};
use puressh::Error;
use std::sync::{Arc, Mutex};

const SSH_MSG_KEX_ECDH_REPLY: u8 = 31;

/// The entries of a known-hosts store, as far as these tests care.
struct KnownHosts {
    entries: Vec<String>,
}

impl KnownHosts {
    fn new() -> Self {
        KnownHosts { entries: Vec::new() }
    }
}

// ---- configuration ----

#[test]
fn config_insecure_constructor_is_accept_any() {
    let cfg: Config = Config::insecure();
    assert!(matches!(cfg.host_key_policy, HostKeyPolicy::AcceptAny));
    assert!(cfg.timeout.is_none());
}

#[test]
fn known_hosts_strict_constructor_defaults_reject_reject() {
    let store = Arc::new(Mutex::new(KnownHosts::new()));
    let p = KnownHostsPolicy::strict(store);
    assert!(matches!(p.on_unknown, TofuAction::Reject));
    assert!(matches!(p.on_mismatch, TofuAction::Reject));
    assert!(!p.hash_new);
    assert!(p.save_path.is_none());
    assert!(p.store.lock().unwrap().entries.is_empty());
}

#[test]
fn config_with_known_hosts_is_strict() {
    let cfg = Config::with_known_hosts("store");
    match cfg.host_key_policy {
        HostKeyPolicy::KnownHosts(p) => {
            assert_eq!(p.store, "store");
            assert_eq!(p.on_unknown, TofuAction::Reject);
            assert_eq!(p.on_mismatch, TofuAction::Reject);
        }
        _ => panic!("expected a known-hosts policy"),
    }
    assert!(cfg.timeout.is_none());
    assert_eq!(cfg.algorithms, AlgoOverrides::default());
}

#[test]
fn exec_output_constructible() {
    let _ = ExecOutput {
        stdout: Vec::new(),
        stderr: Vec::new(),
        exit_status: Some(0),
        exit_signal: None,
    };
}

// ---- host keys ----

#[test]
fn build_verifier_fails_hard_on_empty_host() {
    let store = Arc::new(Mutex::new(KnownHosts::new()));
    let policy = HostKeyPolicy::KnownHosts(KnownHostsPolicy::strict(store));
    let mut reply = vec![SSH_MSG_KEX_ECDH_REPLY];
    reply.extend_from_slice(&0u32.to_be_bytes());
    let err = begin(&reply, &policy, None, "", 22);
    assert!(matches!(err, Err(Error::Config(_))));
    let err = begin(&reply, &policy, None, "host", 0);
    assert!(matches!(err, Err(Error::Config(_))));
}

fn reply_with(key: &[u8]) -> Vec<u8> {
    let mut reply = vec![SSH_MSG_KEX_ECDH_REPLY];
    reply.extend_from_slice(&(key.len() as u32).to_be_bytes());
    reply.extend_from_slice(key);
    reply.extend_from_slice(b"signature");
    reply
}

#[test]
fn presented_key_is_cut_out_of_the_reply() {
    assert_eq!(presented_key(&reply_with(b"the key")).unwrap(), b"the key");
    assert_eq!(
        presented_key(&[31, 0, 0, 0]),
        Err(Error::Format("kex-ecdh-reply too short"))
    );
    assert_eq!(
        presented_key(&[31, 0, 0, 0, 2, 7]),
        Err(Error::Format("kex-ecdh-reply truncated"))
    );
}

/// SHA-256 of the empty string.
const EMPTY_DIGEST: [u8; 32] = [
    0xe3, 0xb0, 0xc4, 0x42, 0x98, 0xfc, 0x1c, 0x14, 0x9a, 0xfb, 0xf4, 0xc8, 0x99, 0x6f, 0xb9, 0x24,
    0x27, 0xae, 0x41, 0xe4, 0x64, 0x9b, 0x93, 0x4c, 0xa4, 0x95, 0x99, 0x1b, 0x78, 0x52, 0xb8, 0x55,
];

#[test]
fn fingerprint_policy_compares_the_digest() {
    let good: HostKeyPolicy = HostKeyPolicy::AcceptFingerprint(EMPTY_DIGEST);
    let bad: HostKeyPolicy = HostKeyPolicy::AcceptFingerprint([0xff; 32]);
    let reply = reply_with(b"");
    assert!(matches!(
        begin(&reply, &good, Some("ssh-ed25519"), "", 0),
        Ok(HostKeyStep::Accept)
    ));
    assert!(matches!(
        begin(&reply, &bad, Some("ssh-ed25519"), "", 0),
        Err(Error::HostKeyRejected)
    ));
    // A certificate is parsed before it is compared.
    let cert = "ssh-ed25519-cert-v01@openssh.com";
    assert!(matches!(
        begin(&reply, &bad, Some(cert), "", 0),
        Ok(HostKeyStep::ParseCertificate)
    ));
    assert!(matches!(
        certificate_parsed(b"", &bad, None),
        Err(Error::HostKeyRejected)
    ));
    assert!(matches!(
        certificate_parsed(b"", &good, None),
        Ok(HostKeyStep::CheckCertificate)
    ));
    // The digest decides, wherever it comes from.
    assert!(matches!(
        begin_with_digest(&reply, &bad, Some("ssh-ed25519"), "", 0, &[0xff; 32]),
        Ok(HostKeyStep::Accept)
    ));
}

#[test]
fn accept_any_and_missing_negotiation() {
    let any: HostKeyPolicy = HostKeyPolicy::AcceptAny;
    let reply = reply_with(b"k");
    assert!(matches!(
        begin(&reply, &any, Some("ssh-ed25519"), "", 0),
        Ok(HostKeyStep::Accept)
    ));
    assert!(matches!(
        begin(&reply, &any, None, "", 0),
        Err(Error::Protocol("kex: no negotiated algorithms"))
    ));
    assert!(matches!(
        certificate_parsed(b"k", &any, None),
        Ok(HostKeyStep::CheckCertificate)
    ));
}

#[test]
fn known_hosts_policy_looks_up_or_verifies() {
    let policy = HostKeyPolicy::KnownHosts(KnownHostsPolicy::strict(()));
    let reply = reply_with(b"k");
    assert!(matches!(
        begin(&reply, &policy, Some("ssh-ed25519"), "host", 22),
        Ok(HostKeyStep::LookUp)
    ));
    match certificate_parsed(b"k", &policy, None) {
        Ok(HostKeyStep::VerifyCertificate { ca_algorithms }) => {
            assert_eq!(ca_algorithms, CA_SIGNATURE_DEFAULTS.to_vec());
        }
        other => panic!("unexpected {other:?}"),
    }
    let list = vec!["ssh-ed25519".to_string()];
    match certificate_parsed(b"k", &policy, Some(&list)) {
        Ok(HostKeyStep::VerifyCertificate { ca_algorithms }) => assert_eq!(ca_algorithms, list),
        other => panic!("unexpected {other:?}"),
    }
}

#[test]
fn verdicts_follow_the_policy() {
    let mut p = KnownHostsPolicy::strict(());
    let v = looked_up(&p, LookupResult::Match);
    assert_eq!((v.warn, v.note, v.step), (false, false, StoreStep::Accept));
    let v = looked_up(&p, LookupResult::Mismatch);
    assert_eq!((v.warn, v.note, v.step), (true, false, StoreStep::Refuse));
    let v = looked_up(&p, LookupResult::Unknown);
    assert_eq!((v.warn, v.note, v.step), (false, false, StoreStep::Refuse));
    p.on_mismatch = TofuAction::AcceptWithWarning;
    p.on_unknown = TofuAction::AcceptWithWarning;
    let v = looked_up(&p, LookupResult::Mismatch);
    assert_eq!((v.warn, v.note, v.step), (true, true, StoreStep::Accept));
    assert_eq!(looked_up(&p, LookupResult::Unknown).step, StoreStep::Add);
    p.on_mismatch = TofuAction::Accept;
    p.on_unknown = TofuAction::Accept;
    assert_eq!(looked_up(&p, LookupResult::Mismatch).step, StoreStep::Replace);
    assert_eq!(looked_up(&p, LookupResult::Unknown).step, StoreStep::Add);
    p.on_mismatch = TofuAction::Prompt;
    p.on_unknown = TofuAction::Prompt;
    assert_eq!(looked_up(&p, LookupResult::Mismatch).step, StoreStep::Ask);
    assert_eq!(looked_up(&p, LookupResult::Unknown).step, StoreStep::Ask);
    assert_eq!(answered(LookupResult::Mismatch, true), StoreStep::Replace);
    assert_eq!(answered(LookupResult::Unknown, true), StoreStep::Add);
    assert_eq!(answered(LookupResult::Unknown, false), StoreStep::Refuse);
}

// ---- fingerprints ----

#[test]
fn fingerprint_of_the_empty_key() {
    assert_eq!(
        fingerprint_b64_sha256(b""),
        "SHA256:47DEQpj8HBSa+/TImW+5JCeuQeRkm5NMpJWZG3hSuFU"
    );
    assert_eq!(
        fingerprint_text(&EMPTY_DIGEST),
        "SHA256:47DEQpj8HBSa+/TImW+5JCeuQeRkm5NMpJWZG3hSuFU"
    );
}

#[test]
fn base64_has_no_padding() {
    assert_eq!(base64_text(b""), "");
    assert_eq!(base64_text(b"f"), "Zg");
    assert_eq!(base64_text(b"fo"), "Zm8");
    assert_eq!(base64_text(b"foo"), "Zm9v");
    assert_eq!(base64_text(b"foobar"), "Zm9vYmFy");
    assert_eq!(base64_text(&[0xff, 0xef, 0xbe]), "/+++");
}

#[test]
fn mismatch_banner_lists_old_and_new() {
    let expected = vec![("ssh-ed25519".to_string(), Vec::new())];
    let lines = mismatch_banner("example.com", 2222, &expected, "ssh-rsa", b"");
    assert_eq!(lines.len(), 9);
    assert_eq!(
        lines[1],
        "@    WARNING: REMOTE HOST IDENTIFICATION HAS CHANGED!     @"
    );
    assert_eq!(
        lines[6],
        "The host key for [example.com]:2222 has changed; the known_hosts entry does not match \
         what the server presented."
    );
    assert_eq!(
        lines[7],
        "Old fingerprint: SHA256:47DEQpj8HBSa+/TImW+5JCeuQeRkm5NMpJWZG3hSuFU (ssh-ed25519)"
    );
    assert_eq!(
        lines[8],
        "New fingerprint: SHA256:47DEQpj8HBSa+/TImW+5JCeuQeRkm5NMpJWZG3hSuFU (ssh-rsa)"
    );
    let lines = mismatch_banner("h", 22, &[], "t", b"");
    assert_eq!(lines[7], "Old fingerprint: <none on file>");
    assert!(lines[6].starts_with("The host key for h has changed;"));
}

// ---- algorithms ----

#[test]
fn client_advert_no_overrides_matches_defaults() {
    let advert = build_default_kexinit(&AlgoOverrides::default());
    let want_ciphers: Vec<String> = CIPHERS.iter().map(|s| s.to_string()).collect();
    assert_eq!(advert.ciphers_c2s, want_ciphers);
    assert_eq!(advert.ciphers_s2c, want_ciphers);
    let n = advert.kex.len();
    assert!(is_strict_kex_marker(&advert.kex[n - 1]));
    assert!(is_strict_kex_marker(&advert.kex[n - 2]));
}

#[test]
fn client_cipher_override_replaces_and_keeps_markers() {
    let over = AlgoOverrides {
        ciphers: Some(vec!["aes128-ctr".to_string()]),
        ..Default::default()
    };
    let advert = build_default_kexinit(&over);
    assert_eq!(advert.ciphers_c2s, vec!["aes128-ctr".to_string()]);
    assert_eq!(advert.ciphers_s2c, vec!["aes128-ctr".to_string()]);
    assert!(advert.kex.iter().any(|k| is_strict_kex_marker(k)));
}

#[test]
fn client_kex_override_reappends_markers() {
    let over = AlgoOverrides {
        kex_algorithms: Some(vec!["curve25519-sha256".to_string()]),
        ..Default::default()
    };
    let advert = build_default_kexinit(&over);
    assert_eq!(advert.kex[0], "curve25519-sha256");
    let markers = advert
        .kex
        .iter()
        .filter(|k| is_strict_kex_marker(k))
        .count();
    assert_eq!(markers, 2, "both strict-kex markers must be re-appended");
}

#[test]
fn a_marker_in_the_override_is_not_repeated() {
    let over = AlgoOverrides {
        kex_algorithms: Some(vec![
            "kex-strict-s-v00@openssh.com".to_string(),
            "curve25519-sha256".to_string(),
        ]),
        ..Default::default()
    };
    let advert = build_kexinit(&over, [7; 16]);
    assert_eq!(
        advert.kex,
        vec![
            "kex-strict-s-v00@openssh.com",
            "curve25519-sha256",
            "kex-strict-c-v00@openssh.com",
        ]
    );
    assert_eq!(advert.cookie, [7; 16]);
}

#[test]
fn host_keys_and_compression_are_offered_in_order() {
    let advert = build_kexinit(&AlgoOverrides::default(), [0; 16]);
    assert_eq!(advert.server_host_key[0], "ssh-ed25519-cert-v01@openssh.com");
    assert_eq!(advert.server_host_key[6], HOST_KEY[0]);
    assert_eq!(advert.server_host_key.len(), 12);
    assert_eq!(advert.comp_c2s, vec!["none"]);
    let over = AlgoOverrides {
        compression: Some(true),
        host_key_algorithms: Some(vec!["ssh-rsa".to_string()]),
        ..Default::default()
    };
    let advert = build_kexinit(&over, [0; 16]);
    assert_eq!(advert.comp_s2c, vec!["zlib@openssh.com", "none"]);
    assert_eq!(advert.server_host_key, vec!["ssh-rsa"]);
    assert!(advert.lang_c2s.is_empty() && advert.lang_s2c.is_empty());
}

#[test]
fn cookies_are_fresh() {
    let a = build_default_kexinit(&AlgoOverrides::default()).cookie;
    let b = build_default_kexinit(&AlgoOverrides::default()).cookie;
    assert_ne!(a, b);
}

// ---- sessions against a peer in the same process ----

/// The far end of a connection: it keeps what it was told.
struct Peer {
    conn: ConnectionState,
    events: Vec<ChannelEvent>,
}

impl Peer {
    fn new() -> Self {
        Peer { conn: ConnectionState::new(), events: Vec::new() }
    }

    /// Take what the near end sends; give the events it stands for.
    fn take(&mut self, send: &[Vec<u8>]) -> Vec<ChannelEvent> {
        let mut out = Vec::new();
        for p in send {
            let ev = self.conn.on_packet(p).expect("peer accepts the packet");
            self.events.push(ev.clone());
            out.push(ev);
        }
        out
    }
}

fn opened(peer: &mut Peer, step: &Step) -> u32 {
    match peer.take(&step.send).pop() {
        Some(ChannelEvent::OpenRequest { channel, .. }) => channel,
        other => panic!("expected an open, got {other:?}"),
    }
}

fn waiting(step: &Step) -> bool {
    matches!(step.next, Next::Wait)
}

fn failure(step: &Step) -> Error {
    match step.next {
        Next::Failed(e) => e,
        other => panic!("expected a failure, got {other:?}"),
    }
}

#[test]
fn exec_round_trip() {
    let mut client = Client::new();
    let mut peer = Peer::new();
    client.set_request_auth_agent_forwarding(true);
    client.set_session_env(vec![("LANG".to_string(), "C".to_string())]);
    client.set_request_x11_forwarding(Some((false, "MIT".to_string(), "00".to_string(), 1)));
    client.set_request_pty(Some(("xterm".to_string(), 80, 24, 0, 0, vec![0])));
    let (mut session, step) = client.exec("uname -a");
    assert!(waiting(&step));
    let ch = opened(&mut peer, &step);

    // The requests go out in their order once the channel is open.
    let accept = peer.conn.accept_open(ch).unwrap();
    let step = client.on_payload(&mut session, &accept);
    assert!(waiting(&step));
    let asked: Vec<(ChannelRequest, bool)> = peer
        .take(&step.send)
        .into_iter()
        .map(|ev| match ev {
            ChannelEvent::Request { request, want_reply, .. } => (request, want_reply),
            other => panic!("unexpected {other:?}"),
        })
        .collect();
    assert_eq!(asked.len(), 5);
    assert_eq!(asked[0], (ChannelRequest::AuthAgentReq, false));
    assert!(matches!(asked[1].0, ChannelRequest::X11Req { screen: 1, .. }));
    assert!(matches!(asked[2].0, ChannelRequest::Env { .. }));
    assert!(matches!(asked[3].0, ChannelRequest::PtyReq { cols: 80, .. }));
    assert_eq!(asked[4], (ChannelRequest::Exec { command: "uname -a".to_string() }, true));

    let ok = peer.conn.send_request_success(ch).unwrap();
    assert!(waiting(&client.on_payload(&mut session, &ok)));
    let (out, _) = peer.conn.send_data(ch, b"Linux\n").unwrap();
    assert!(waiting(&client.on_payload(&mut session, &out)));
    let (err, _) = peer.conn.send_extended_data(ch, 1, b"warn\n").unwrap();
    assert!(waiting(&client.on_payload(&mut session, &err)));
    let status = peer
        .conn
        .send_request(ch, ChannelRequest::ExitStatus { code: 3 }, false)
        .unwrap();
    assert!(waiting(&client.on_payload(&mut session, &status)));
    let eof = peer.conn.send_eof(ch).unwrap();
    let step = client.on_payload(&mut session, &eof);
    assert!(matches!(peer.take(&step.send)[..], [ChannelEvent::Eof { .. }]));
    let close = peer.conn.send_close(ch).unwrap();
    let step = client.on_payload(&mut session, &close);
    assert!(matches!(step.next, Next::Done));
    assert!(matches!(peer.take(&step.send)[..], [ChannelEvent::Close { .. }]));

    let out = session.into_output();
    assert_eq!(out.stdout, b"Linux\n");
    assert_eq!(out.stderr, b"warn\n");
    assert_eq!(out.exit_status, Some(3));
    assert_eq!(out.exit_signal, None);
}

fn ready_for_collecting(client: &mut Client, peer: &mut Peer) -> (Session, u32) {
    let (mut session, step) = client.exec("c");
    let ch = opened(peer, &step);
    let accept = peer.conn.accept_open(ch).unwrap();
    let step = client.on_payload(&mut session, &accept);
    peer.take(&step.send);
    let ok = peer.conn.send_request_success(ch).unwrap();
    client.on_payload(&mut session, &ok);
    (session, ch)
}

#[test]
fn exec_fails_in_its_own_words() {
    // The open is refused.
    let mut client = Client::new();
    let mut peer = Peer::new();
    let (mut session, step) = client.exec("c");
    let ch = opened(&mut peer, &step);
    let refuse = peer.conn.reject_open(ch, 1, "no", "").unwrap();
    let step = client.on_payload(&mut session, &refuse);
    assert_eq!(failure(&step), Error::Protocol("channel open failed"));

    // The request is refused.
    let (mut session, step) = client.exec("c");
    let ch = opened(&mut peer, &step);
    let accept = peer.conn.accept_open(ch).unwrap();
    client.on_payload(&mut session, &accept);
    let no = peer.conn.send_request_failure(ch).unwrap();
    let step = client.on_payload(&mut session, &no);
    assert_eq!(failure(&step), Error::Protocol("exec request denied"));

    // Garbage ends the session with the connection's own error.
    let (mut session, _) = client.exec("c");
    let step = client.on_payload(&mut session, &[]);
    assert!(matches!(step.next, Next::Failed(Error::Format(_))));
    // What arrives afterwards is ignored.
    let step = client.on_payload(&mut session, &[82]);
    assert!(waiting(&step) && step.send.is_empty());
}

#[test]
fn exec_gives_up_after_the_iteration_cap() {
    let mut client = Client::new();
    let (mut session, _) = client.exec("c");
    // A reply to a global request means nothing to the session.
    for _ in 0..MAX_EXEC_ITER - 1 {
        assert!(waiting(&client.on_payload(&mut session, &[82])));
    }
    let step = client.on_payload(&mut session, &[82]);
    assert_eq!(failure(&step), Error::Protocol("exec: open loop did not converge"));
}

#[test]
fn exec_output_is_capped() {
    let mut client = Client::new();
    let mut peer = Peer::new();
    let (mut session, ch) = ready_for_collecting(&mut client, &mut peer);
    let chunk = vec![b'x'; 32 * 1024 - 9];
    let mut sent = 0usize;
    loop {
        let (payload, taken) = peer.conn.send_data(ch, &chunk).unwrap();
        assert!(taken > 0, "the client keeps the window open");
        let step = client.on_payload(&mut session, &payload);
        if !waiting(&step) {
            assert_eq!(failure(&step), Error::Protocol("exec output too large"));
            break;
        }
        sent += taken;
        peer.take(&step.send);
    }
    assert!(sent <= 64 * 1024 * 1024 && sent + chunk.len() > 64 * 1024 * 1024);
}

#[test]
fn exec_records_a_signal_and_declines_requests() {
    let mut client = Client::new();
    let mut peer = Peer::new();
    let (mut session, ch) = ready_for_collecting(&mut client, &mut peer);
    let signal = ChannelRequest::ExitSignal {
        name: "TERM".to_string(),
        core_dumped: false,
        message: String::new(),
        language: String::new(),
    };
    let p = peer.conn.send_request(ch, signal, false).unwrap();
    let step = client.on_payload(&mut session, &p);
    assert!(step.send.is_empty());
    let p = peer
        .conn
        .send_request(ch, ChannelRequest::Shell, true)
        .unwrap();
    let step = client.on_payload(&mut session, &p);
    assert!(matches!(peer.take(&step.send)[..], [ChannelEvent::Failure { .. }]));
    // Extended data of another type counts as output.
    let (p, _) = peer.conn.send_extended_data(ch, 9, b"odd").unwrap();
    client.on_payload(&mut session, &p);
    let close = peer.conn.send_close(ch).unwrap();
    assert!(matches!(client.on_payload(&mut session, &close).next, Next::Done));
    let out = session.into_output();
    assert_eq!(out.exit_signal.as_deref(), Some("TERM"));
    assert_eq!(out.stdout, b"odd");
    assert!(out.stderr.is_empty());
}

#[test]
fn shell_waits_for_the_window() {
    let mut client = Client::new();
    let mut peer = Peer::new();
    peer.conn.default_window = 4;
    let (mut session, step) = client.shell_with_stdin("xterm", 80, 24, b"exit 0\n");
    let ch = opened(&mut peer, &step);
    let accept = peer.conn.accept_open(ch).unwrap();
    let step = client.on_payload(&mut session, &accept);
    assert!(matches!(
        peer.take(&step.send)[..],
        [ChannelEvent::Request { request: ChannelRequest::PtyReq { cols: 80, rows: 24, .. }, want_reply: true, .. }]
    ));
    let ok = peer.conn.send_request_success(ch).unwrap();
    let step = client.on_payload(&mut session, &ok);
    assert!(matches!(
        peer.take(&step.send)[..],
        [ChannelEvent::Request { request: ChannelRequest::Shell, want_reply: true, .. }]
    ));
    // Four bytes fit, then the session waits.
    let ok = peer.conn.send_request_success(ch).unwrap();
    let step = client.on_payload(&mut session, &ok);
    let events = peer.take(&step.send);
    assert!(matches!(&events[..], [ChannelEvent::Data { data, .. }] if data == b"exit"));
    // More window: the rest follows, then EOF.
    let adjust = peer.conn.replenish_window(ch, 4).unwrap().expect("an adjust");
    let step = client.on_payload(&mut session, &adjust);
    let events = peer.take(&step.send);
    assert!(matches!(
        &events[..],
        [ChannelEvent::Data { data, .. }, ChannelEvent::Eof { .. }] if data == b" 0\n"
    ));
    // The peer's EOF is not answered a second time.
    let eof = peer.conn.send_eof(ch).unwrap();
    assert!(client.on_payload(&mut session, &eof).send.is_empty());
    let close = peer.conn.send_close(ch).unwrap();
    assert!(matches!(client.on_payload(&mut session, &close).next, Next::Done));
}

#[test]
fn the_environment_is_for_every_session_and_the_terminal_for_exec_alone() {
    let mut client = Client::new();
    client.set_session_env(vec![("LANG".to_string(), "C".to_string())]);
    client.set_request_pty(Some(("xterm".to_string(), 80, 24, 0, 0, vec![0])));
    let mut peer = Peer::new();
    let (mut session, step) = client.shell_with_stdin("vt100", 40, 12, b"");
    let ch = opened(&mut peer, &step);
    let accept = peer.conn.accept_open(ch).unwrap();
    let step = client.on_payload(&mut session, &accept);
    assert!(matches!(
        &peer.take(&step.send)[..],
        [
            ChannelEvent::Request { request: ChannelRequest::Env { name, value }, want_reply: false, .. },
            ChannelEvent::Request { request: ChannelRequest::PtyReq { cols: 40, .. }, want_reply: true, .. },
        ] if name == "LANG" && value == "C"
    ));
    let (mut session, step) = client.exec_stream("cat");
    let ch = opened(&mut peer, &step);
    let accept = peer.conn.accept_open(ch).unwrap();
    let step = client.on_payload(&mut session, &accept);
    assert!(matches!(
        &peer.take(&step.send)[..],
        [
            ChannelEvent::Request { request: ChannelRequest::Env { .. }, .. },
            ChannelEvent::Request { request: ChannelRequest::Exec { command }, want_reply: true, .. },
        ] if command == "cat"
    ));
}

#[test]
fn shell_notices_a_peer_that_closes_early() {
    let mut client = Client::new();
    let mut peer = Peer::new();
    peer.conn.default_window = 1;
    let (mut session, step) = client.shell_with_stdin("t", 1, 1, b"abc");
    let ch = opened(&mut peer, &step);
    let accept = peer.conn.accept_open(ch).unwrap();
    client.on_payload(&mut session, &accept);
    for _ in 0..2 {
        let ok = peer.conn.send_request_success(ch).unwrap();
        client.on_payload(&mut session, &ok);
    }
    let close = peer.conn.send_close(ch).unwrap();
    let step = client.on_payload(&mut session, &close);
    assert_eq!(
        failure(&step),
        Error::Protocol("shell: peer closed channel before stdin drain")
    );
}

#[test]
fn subsystem_keeps_plain_data_only() {
    let mut client = Client::new();
    let mut peer = Peer::new();
    let (mut session, step) = client.subsystem_once("echo", b"");
    let ch = opened(&mut peer, &step);
    let accept = peer.conn.accept_open(ch).unwrap();
    let step = client.on_payload(&mut session, &accept);
    peer.take(&step.send);
    let ok = peer.conn.send_request_success(ch).unwrap();
    let step = client.on_payload(&mut session, &ok);
    // No input: EOF at once.
    assert!(matches!(peer.take(&step.send)[..], [ChannelEvent::Eof { .. }]));
    let (p, _) = peer.conn.send_data(ch, b"data").unwrap();
    client.on_payload(&mut session, &p);
    let (p, _) = peer.conn.send_extended_data(ch, 1, b"noise").unwrap();
    client.on_payload(&mut session, &p);
    let p = peer
        .conn
        .send_request(ch, ChannelRequest::ExitStatus { code: 1 }, true)
        .unwrap();
    assert!(client.on_payload(&mut session, &p).send.is_empty());
    let close = peer.conn.send_close(ch).unwrap();
    assert!(matches!(client.on_payload(&mut session, &close).next, Next::Done));
    let out = session.into_output();
    assert_eq!(out.stdout, b"data");
    assert!(out.stderr.is_empty());
    assert_eq!(out.exit_status, None);
}

#[test]
fn streams_become_ready() {
    let mut client = Client::new();
    let mut peer = Peer::new();
    let (mut session, step) = client.open_direct_tcpip("h", 80, "127.0.0.1", 5);
    match peer.take(&step.send).pop() {
        Some(ChannelEvent::OpenRequest { channel, kind }) => {
            assert_eq!(
                kind,
                ChannelOpen::DirectTcpip {
                    dest_host: "h".to_string(),
                    dest_port: 80,
                    orig_host: "127.0.0.1".to_string(),
                    orig_port: 5,
                }
            );
            let accept = peer.conn.accept_open(channel).unwrap();
            let step = client.on_payload(&mut session, &accept);
            assert!(matches!(step.next, Next::Ready) && step.send.is_empty());
        }
        other => panic!("unexpected {other:?}"),
    }
    let (mut session, step) = client.open_direct_streamlocal("/run/x.sock");
    match peer.take(&step.send).pop() {
        Some(ChannelEvent::OpenRequest { channel, kind: ChannelOpen::Other { kind, raw } }) => {
            assert_eq!(kind, "direct-streamlocal@openssh.com");
            let mut want = vec![0, 0, 0, 11];
            want.extend_from_slice(b"/run/x.sock");
            want.extend_from_slice(&[0; 8]);
            assert_eq!(raw, want);
            let no = peer.conn.reject_open(channel, 1, "", "").unwrap();
            let step = client.on_payload(&mut session, &no);
            assert_eq!(failure(&step), Error::Protocol("direct-streamlocal: open failed"));
        }
        other => panic!("unexpected {other:?}"),
    }
    let (mut session, step) = client.sftp();
    let ch = opened(&mut peer, &step);
    let accept = peer.conn.accept_open(ch).unwrap();
    let step = client.on_payload(&mut session, &accept);
    assert!(matches!(
        &peer.take(&step.send)[..],
        [ChannelEvent::Request { request: ChannelRequest::Subsystem { name }, want_reply: true, .. }] if name == "sftp"
    ));
    let ok = peer.conn.send_request_success(ch).unwrap();
    assert!(matches!(client.on_payload(&mut session, &ok).next, Next::Ready));
    let (mut session, step) = client.exec_stream("cat");
    let ch = opened(&mut peer, &step);
    let accept = peer.conn.accept_open(ch).unwrap();
    client.on_payload(&mut session, &accept);
    let no = peer.conn.send_request_failure(ch).unwrap();
    let step = client.on_payload(&mut session, &no);
    assert_eq!(failure(&step), Error::Protocol("shell: channel request denied"));
}

#[test]
fn sessions_that_only_host_forwarding() {
    let mut client = Client::new();
    let mut peer = Peer::new();
    let (mut session, step) = client.open_session_for_agent_forward();
    let ch = opened(&mut peer, &step);
    let accept = peer.conn.accept_open(ch).unwrap();
    let step = client.on_payload(&mut session, &accept);
    assert!(matches!(step.next, Next::Ready));
    assert!(matches!(
        peer.take(&step.send)[..],
        [ChannelEvent::Request { request: ChannelRequest::AuthAgentReq, want_reply: false, .. }]
    ));
    let close = client.close_session(session.channel()).expect("still open");
    assert!(matches!(peer.take(&[close])[..], [ChannelEvent::Close { .. }]));
    assert!(client.close_session(session.channel()).is_none());
    assert!(client.close_session(77).is_none());

    let (mut session, step) = client.open_session_for_x11_forward(true, "MIT", "ab", 2);
    let ch = opened(&mut peer, &step);
    let no = peer.conn.reject_open(ch, 1, "", "").unwrap();
    let step = client.on_payload(&mut session, &no);
    assert_eq!(failure(&step), Error::Protocol("x11-forward: channel open failed"));
}

#[test]
fn keepalive_setting_is_normalised() {
    let mut client = Client::new();
    assert_eq!(client.keepalive(), None);
    client.set_keepalive(15, 0);
    assert_eq!(client.keepalive(), Some((15, 1)));
    client.set_keepalive(15, 3);
    assert_eq!(client.keepalive(), Some((15, 3)));
    client.set_keepalive(0, 3);
    assert_eq!(client.keepalive(), None);
}

// ---- byte streams ----

fn open_stream(client: &mut Client, peer: &mut Peer) -> (ChannelPump, u32) {
    let (mut session, step) = client.open_direct_tcpip("h", 1, "o", 2);
    let ch = opened(peer, &step);
    let accept = peer.conn.accept_open(ch).unwrap();
    client.on_payload(&mut session, &accept);
    (ChannelPump::new(session.channel()), ch)
}

#[test]
fn stream_reads_what_has_arrived() {
    let mut client = Client::new();
    let mut peer = Peer::new();
    let (mut pump, ch) = open_stream(&mut client, &mut peer);
    assert!(matches!(pump.read(10), ReadStep::Wait));
    assert!(matches!(pump.read(0), ReadStep::Bytes(b) if b.is_empty()));
    let (p, _) = peer.conn.send_data(ch, b"hello").unwrap();
    let (send, r) = pump.pump_one(client.conn_mut(), &p);
    assert!(send.is_none() && r.is_ok());
    let (p, _) = peer.conn.send_extended_data(ch, 1, b"oops").unwrap();
    assert!(pump.pump_one(client.conn_mut(), &p).1.is_ok());
    // Two reads add up.
    assert!(matches!(pump.read(2), ReadStep::Bytes(b) if b == b"he"));
    assert!(matches!(pump.read(9), ReadStep::Bytes(b) if b == b"llo"));
    assert_eq!(pump.take_stderr(), b"oops");
    assert!(pump.take_stderr().is_empty());
    let close = peer.conn.send_close(ch).unwrap();
    let (send, r) = pump.pump_one(client.conn_mut(), &close);
    assert!(r.is_ok());
    assert!(matches!(peer.take(&[send.unwrap()])[..], [ChannelEvent::Close { .. }]));
    assert!(pump.remote_eof());
    assert!(matches!(pump.read(9), ReadStep::Bytes(b) if b.is_empty()));
    // Closed already: nothing is sent twice, and nothing is waited for.
    assert!(pump.close(client.conn_mut()).is_empty());
    assert!(!pump.wants_drain(0));
}

#[test]
fn stream_writes_as_the_window_allows() {
    let mut client = Client::new();
    let mut peer = Peer::new();
    peer.conn.default_window = 3;
    let (mut pump, ch) = open_stream(&mut client, &mut peer);
    assert!(matches!(pump.write(client.conn_mut(), b""), WriteStep::Nothing));
    match pump.write(client.conn_mut(), b"abcd") {
        WriteStep::Sent(p, 3) => {
            assert!(matches!(&peer.take(&[p])[..], [ChannelEvent::Data { data, .. }] if data == b"abc"))
        }
        other => panic!("unexpected {other:?}"),
    }
    assert!(matches!(pump.write(client.conn_mut(), b"d"), WriteStep::Wait));
    let eof = peer.conn.send_eof(ch).unwrap();
    assert!(pump.pump_one(client.conn_mut(), &eof).1.is_ok());
    assert!(matches!(
        pump.write(client.conn_mut(), b"d"),
        WriteStep::BrokenPipe("channel closed by peer mid-write")
    ));
    // Giving the stream up sends EOF and CLOSE.
    let sent = pump.close(client.conn_mut());
    assert!(matches!(
        peer.take(&sent)[..],
        [ChannelEvent::Eof { .. }, ChannelEvent::Close { .. }]
    ));
    assert!(matches!(
        pump.write(client.conn_mut(), b"d"),
        WriteStep::Failed(Error::BadChannelState)
    ));
}

#[test]
fn a_stream_given_up_waits_for_a_while() {
    let mut client = Client::new();
    let mut peer = Peer::new();
    let (mut pump, _) = open_stream(&mut client, &mut peer);
    assert_eq!(pump.close(client.conn_mut()).len(), 2);
    assert!(pump.wants_drain(0) && pump.wants_drain(127) && !pump.wants_drain(128));
}

// ---- remote forwards ----

#[test]
fn forwards_are_granted_and_cancelled() {
    let mut client = Client::new();
    let mut peer = Peer::new();
    assert!(!client.granted().tcpip);
    let (mut req, p) = client.request_tcpip_forward("localhost", 0);
    assert!(matches!(
        &peer.take(&[p])[..],
        [ChannelEvent::GlobalRequest { request: GlobalRequest::TcpipForward { bind_port: 0, .. }, want_reply: true }]
    ));
    // Unrelated traffic is skipped.
    let other = peer.conn.send_global_request(GlobalRequest::Keepalive, false);
    assert!(matches!(client.on_forward_payload(&mut req, &other), ForwardStep::Wait));
    let ok = peer.conn.send_global_success(&4022u32.to_be_bytes());
    assert!(matches!(client.on_forward_payload(&mut req, &ok), ForwardStep::Listening(4022)));
    assert!(client.granted().tcpip && !client.granted().streamlocal);

    // Cancelled under another spelling: the port decides.
    let (mut req, _) = client.cancel_tcpip_forward("127.0.0.1", 4022);
    let ok = peer.conn.send_global_success(&[]);
    assert!(matches!(client.on_forward_payload(&mut req, &ok), ForwardStep::Done));
    assert!(!client.granted().tcpip);

    let (mut req, _) = client.request_streamlocal_forward("/s");
    assert!(matches!(client.on_forward_payload(&mut req, &ok), ForwardStep::Done));
    assert!(client.granted().streamlocal);
    let (mut req, p) = client.cancel_streamlocal_forward("/s");
    assert!(matches!(
        &peer.take(&[p])[..],
        [ChannelEvent::GlobalRequest { request: GlobalRequest::Other { name, .. }, .. }]
            if name == "cancel-streamlocal-forward@openssh.com"
    ));
    assert!(matches!(client.on_forward_payload(&mut req, &ok), ForwardStep::Done));
    assert!(!client.granted().streamlocal);
}

#[test]
fn forwards_fail_in_their_own_words() {
    let mut client = Client::new();
    let peer = ConnectionState::new();
    let fails = |client: &mut Client, reply: &[u8]| {
        let (mut req, _) = client.request_tcpip_forward("", 0);
        match client.on_forward_payload(&mut req, reply) {
            ForwardStep::Failed(e) => e,
            other => panic!("unexpected {other:?}"),
        }
    };
    assert_eq!(
        fails(&mut client, &peer.send_global_failure()),
        Error::Protocol("global request denied")
    );
    assert_eq!(
        fails(&mut client, &peer.send_global_success(&[0])),
        Error::Protocol("tcpip-forward: server omitted assigned-port tail")
    );
    assert_eq!(
        fails(&mut client, &peer.send_global_success(&65_536u32.to_be_bytes())),
        Error::Protocol("tcpip-forward: server returned out-of-range port")
    );
    assert!(!client.granted().tcpip);
    // A port of our own choosing is reported back, whatever the tail says.
    let (mut req, _) = client.request_tcpip_forward("", 8080);
    let ok = peer.send_global_success(&[]);
    assert!(matches!(client.on_forward_payload(&mut req, &ok), ForwardStep::Listening(8080)));
}

#[test]
fn forward_requests_give_up() {
    let mut client = Client::new();
    let (mut req, _) = client.request_tcpip_forward("", 1);
    let noise = ConnectionState::new().send_global_request(GlobalRequest::Keepalive, false);
    for _ in 0..MAX_EXEC_ITER - 1 {
        assert!(matches!(client.on_forward_payload(&mut req, &noise), ForwardStep::Wait));
    }
    assert!(matches!(
        client.on_forward_payload(&mut req, &noise),
        ForwardStep::Failed(Error::Protocol("global request: reply loop did not converge"))
    ));
}

// ---- the serve loop ----

fn grant_tcpip(client: &mut Client) {
    let (mut req, _) = client.request_tcpip_forward("", 1);
    let ok = ConnectionState::new().send_global_success(&[]);
    client.on_forward_payload(&mut req, &ok);
}

fn forwarded(peer: &mut Peer, port: u32) -> Vec<u8> {
    peer.conn
        .open(ChannelOpen::ForwardedTcpip {
            dest_host: "0.0.0.0".to_string(),
            dest_port: port,
            orig_host: "10.0.0.1".to_string(),
            orig_port: 5555,
        })
        .unwrap()
        .1
}

#[test]
fn serve_refuses_what_nobody_asked_for() {
    let mut client = Client::new();
    let mut serve = ServeState::new(0);
    let mut peer = Peer::new();
    let handlers = ClientHandlers::new().with_forwarded_tcpip();
    let open = forwarded(&mut peer, 80);
    let step = client.serve_dispatch_packet(&mut serve, &handlers, &open);
    assert!(matches!(step.act, ServeAct::Nothing) && step.result.is_ok());
    match peer.take(&[step.send.unwrap()]).pop() {
        Some(ChannelEvent::OpenFailed { reason, description, .. }) => {
            assert_eq!(reason, SSH_OPEN_ADMINISTRATIVELY_PROHIBITED);
            assert_eq!(description, "no tcpip-forward requested");
        }
        other => panic!("unexpected {other:?}"),
    }
    assert!(serve.channels().is_empty());
}

fn refusal(client: &mut Client, handlers: &ClientHandlers, kind: ChannelOpen) -> String {
    let mut serve = ServeState::new(0);
    let mut peer = Peer::new();
    let (_, open) = peer.conn.open(kind).unwrap();
    let step = client.serve_dispatch_packet(&mut serve, handlers, &open);
    match peer.take(&[step.send.unwrap()]).pop() {
        Some(ChannelEvent::OpenFailed { description, .. }) => description,
        other => panic!("unexpected {other:?}"),
    }
}

#[test]
fn serve_refuses_types_without_a_handler() {
    let mut client = Client::new();
    grant_tcpip(&mut client);
    let none = ClientHandlers::default();
    let tcpip = ChannelOpen::ForwardedTcpip {
        dest_host: String::new(),
        dest_port: 1,
        orig_host: String::new(),
        orig_port: 1,
    };
    assert_eq!(refusal(&mut client, &none, tcpip), "forwarded-tcpip not enabled");
    assert_eq!(refusal(&mut client, &none, ChannelOpen::AuthAgent), "auth-agent not enabled");
    let x11 = ChannelOpen::X11 { orig_host: String::new(), orig_port: 0 };
    assert_eq!(refusal(&mut client, &none, x11), "x11 not enabled");
    assert_eq!(
        refusal(&mut client, &none, ChannelOpen::Session),
        "channel type not supported"
    );
    let unix = |raw: Vec<u8>| ChannelOpen::Other {
        kind: "forwarded-streamlocal@openssh.com".to_string(),
        raw,
    };
    let body = vec![0, 0, 0, 1, b'/', 0, 0, 0, 0];
    assert_eq!(
        refusal(&mut client, &none, unix(body.clone())),
        "no streamlocal-forward requested"
    );
    let (mut req, _) = client.request_streamlocal_forward("/");
    let ok = ConnectionState::new().send_global_success(&[]);
    client.on_forward_payload(&mut req, &ok);
    assert_eq!(
        refusal(&mut client, &none, unix(body)),
        "forwarded-streamlocal not enabled"
    );
    // A malformed body ends the loop.
    let mut serve = ServeState::new(0);
    let mut peer = Peer::new();
    let (_, open) = peer.conn.open(unix(vec![0])).unwrap();
    let step = client.serve_dispatch_packet(&mut serve, &none, &open);
    assert!(matches!(step.result, Err(Error::Format(_))));
}

#[test]
fn serve_runs_a_forwarded_connection() {
    let mut client = Client::new();
    grant_tcpip(&mut client);
    let mut serve = ServeState::new(0);
    let mut peer = Peer::new();
    let handlers = ClientHandlers::new().with_forwarded_tcpip();
    let open = forwarded(&mut peer, 70_000);
    let step = client.serve_dispatch_packet(&mut serve, &handlers, &open);
    let ch = match step.act {
        ServeAct::Spawn { channel, inbound: Inbound::ForwardedTcpip(o) } => {
            assert_eq!(o.bound_address, "0.0.0.0");
            assert_eq!(o.bound_port, 65_535);
            assert_eq!(o.orig_address, "10.0.0.1");
            assert_eq!(o.orig_port, 5555);
            channel
        }
        other => panic!("unexpected {other:?}"),
    };
    let far = match peer.take(&[step.send.unwrap()]).pop() {
        Some(ChannelEvent::OpenConfirmed { channel }) => channel,
        other => panic!("unexpected {other:?}"),
    };
    assert_eq!(serve.channels(), vec![ch]);

    // Inbound data reaches the handler.
    let (p, _) = peer.conn.send_data(far, b"ping").unwrap();
    let step = client.serve_dispatch_packet(&mut serve, &handlers, &p);
    assert!(matches!(step.act, ServeAct::Deliver { channel, data } if channel == ch && data == b"ping"));
    let p = peer.conn.send_eof(far).unwrap();
    let step = client.serve_dispatch_packet(&mut serve, &handlers, &p);
    assert!(matches!(step.act, ServeAct::EndOfInput { channel } if channel == ch));

    // Handler output goes out, then EOF and CLOSE.
    let step = serve.retry(client.conn_mut(), ch);
    assert!(step.more && step.send.is_empty());
    let step = serve.on_egress(client.conn_mut(), ch, Egress::Data(b"pong".to_vec()));
    assert!(step.more);
    assert!(matches!(&peer.take(&step.send)[..], [ChannelEvent::Data { data, .. }] if data == b"pong"));
    let step = serve.on_egress(client.conn_mut(), ch, Egress::Disconnected);
    assert!(!step.more);
    let step = serve.settle(client.conn_mut(), ch);
    assert!(matches!(
        peer.take(&step.send)[..],
        [ChannelEvent::Eof { .. }, ChannelEvent::Close { .. }]
    ));
    assert!(!serve.finished(true));
    assert!(serve.reap(ch));
    assert!(!serve.reap(ch));
    assert!(serve.finished(true) && !serve.finished(false));
}

#[test]
fn serve_keeps_what_the_window_refuses() {
    let mut client = Client::new();
    let mut serve = ServeState::new(0);
    let mut peer = Peer::new();
    let handlers = ClientHandlers::new().with_auth_agent();
    peer.conn.default_window = 4;
    let (far, open) = peer.conn.open(ChannelOpen::AuthAgent).unwrap();
    let step = client.serve_dispatch_packet(&mut serve, &handlers, &open);
    peer.take(&[step.send.unwrap()]);
    let ch = serve.channels()[0];
    let step = serve.on_egress(client.conn_mut(), ch, Egress::Data(b"abcdef".to_vec()));
    assert!(!step.more);
    assert!(matches!(&peer.take(&step.send)[..], [ChannelEvent::Data { data, .. }] if data == b"abcd"));
    // Still no room: nothing is sent, and CLOSE waits for the data.
    let step = serve.retry(client.conn_mut(), ch);
    assert!(!step.more && step.send.is_empty());
    serve.on_egress(client.conn_mut(), ch, Egress::Close);
    assert!(serve.settle(client.conn_mut(), ch).send.is_empty());
    let adjust = peer.conn.replenish_window(far, 4).unwrap().expect("an adjust");
    client.serve_dispatch_packet(&mut serve, &handlers, &adjust);
    let step = serve.retry(client.conn_mut(), ch);
    assert!(step.more);
    assert!(matches!(&peer.take(&step.send)[..], [ChannelEvent::Data { data, .. }] if data == b"ef"));
    let step = serve.settle(client.conn_mut(), ch);
    assert!(matches!(
        peer.take(&step.send)[..],
        [ChannelEvent::Eof { .. }, ChannelEvent::Close { .. }]
    ));
    // A closed channel is left alone.
    let step = serve.retry(client.conn_mut(), ch);
    assert!(!step.more && step.send.is_empty());
}

#[test]
fn serve_eof_goes_out_once() {
    let mut client = Client::new();
    let mut serve = ServeState::new(0);
    let mut peer = Peer::new();
    let handlers = ClientHandlers::new().with_x11();
    let (_, open) = peer
        .conn
        .open(ChannelOpen::X11 { orig_host: "h".to_string(), orig_port: 1 })
        .unwrap();
    let step = client.serve_dispatch_packet(&mut serve, &handlers, &open);
    assert!(matches!(step.act, ServeAct::Spawn { inbound: Inbound::X11, .. }));
    peer.take(&[step.send.unwrap()]);
    let ch = serve.channels()[0];
    assert!(!serve.on_egress(client.conn_mut(), ch, Egress::Empty).more);
    serve.on_egress(client.conn_mut(), ch, Egress::Eof);
    assert_eq!(serve.settle(client.conn_mut(), ch).send.len(), 1);
    assert!(serve.settle(client.conn_mut(), ch).send.is_empty());
    serve.on_egress(client.conn_mut(), ch, Egress::Close);
    assert_eq!(serve.settle(client.conn_mut(), ch).send.len(), 1);
}

#[test]
fn serve_answers_a_close_once() {
    let mut client = Client::new();
    let mut serve = ServeState::new(0);
    let mut peer = Peer::new();
    let handlers = ClientHandlers::new().with_auth_agent();
    let (far, open) = peer.conn.open(ChannelOpen::AuthAgent).unwrap();
    let step = client.serve_dispatch_packet(&mut serve, &handlers, &open);
    peer.take(&[step.send.unwrap()]);
    let ch = serve.channels()[0];
    let close = peer.conn.send_close(far).unwrap();
    let step = client.serve_dispatch_packet(&mut serve, &handlers, &close);
    assert!(matches!(step.act, ServeAct::Drop { channel } if channel == ch));
    assert!(matches!(peer.take(&[step.send.unwrap()])[..], [ChannelEvent::Close { .. }]));
    assert!(serve.channels().is_empty());
}

#[test]
fn serve_opens_channels_on_command() {
    let mut client = Client::new();
    let mut serve = ServeState::new(0);
    let mut peer = Peer::new();
    let (handlers, context) = ClientHandlers::new().with_serve_context();
    assert!(handlers.takes_commands);
    let command = context.open_direct_tcpip("h", 80, "127.0.0.1", 9);
    assert!(matches!(&command, ServeCommand::OpenDirectTcpip { dest_port: 80, .. }));
    let (ch, open) = serve.on_command(client.conn_mut(), command);
    assert!(!serve.finished(true));
    let far = match peer.take(&[open]).pop() {
        Some(ChannelEvent::OpenRequest { channel, .. }) => channel,
        other => panic!("unexpected {other:?}"),
    };
    let accept = peer.conn.accept_open(far).unwrap();
    let step = client.serve_dispatch_packet(&mut serve, &handlers, &accept);
    assert!(matches!(step.act, ServeAct::Confirm { channel } if channel == ch));
    // Whoever asked took the stream.
    assert!(serve.confirmed(client.conn_mut(), ch, true).unwrap().is_none());
    assert_eq!(serve.channels(), vec![ch]);

    // Refused.
    let command = context.open_direct_streamlocal("/s");
    let (ch, open) = serve.on_command(client.conn_mut(), command);
    let far = match peer.take(&[open]).pop() {
        Some(ChannelEvent::OpenRequest { channel, .. }) => channel,
        other => panic!("unexpected {other:?}"),
    };
    let no = peer.conn.reject_open(far, 1, "", "").unwrap();
    let step = client.serve_dispatch_packet(&mut serve, &handlers, &no);
    assert!(matches!(
        step.act,
        ServeAct::Refused { channel, error: Error::Protocol("direct-tcpip: open failed") }
            if channel == ch
    ));

    // Whoever asked has gone: the channel is closed again.
    let (ch, open) = serve.on_command(client.conn_mut(), context.open_direct_tcpip("h", 1, "", 0));
    let far = match peer.take(&[open]).pop() {
        Some(ChannelEvent::OpenRequest { channel, .. }) => channel,
        other => panic!("unexpected {other:?}"),
    };
    let accept = peer.conn.accept_open(far).unwrap();
    client.serve_dispatch_packet(&mut serve, &handlers, &accept);
    let close = serve.confirmed(client.conn_mut(), ch, false).unwrap().unwrap();
    assert!(matches!(peer.take(&[close])[..], [ChannelEvent::Close { .. }]));
}

#[test]
fn serve_declines_global_requests() {
    let mut client = Client::new();
    let mut serve = ServeState::new(0);
    let handlers = ClientHandlers::new();
    let peer = ConnectionState::new();
    let probe = peer.send_global_request(GlobalRequest::Keepalive, true);
    let step = client.serve_dispatch_packet(&mut serve, &handlers, &probe);
    assert_eq!(step.send, Some(vec![82]));
    let quiet = peer.send_global_request(GlobalRequest::Keepalive, false);
    let step = client.serve_dispatch_packet(&mut serve, &handlers, &quiet);
    assert!(step.send.is_none() && step.result.is_ok());
    let step = client.serve_dispatch_packet(&mut serve, &handlers, &[200]);
    assert!(matches!(step.result, Err(Error::Protocol(_))));
}

#[test]
fn serve_keepalive_probes_then_gives_up() {
    let mut serve = ServeState::new(0);
    let setting = Some((10, 2));
    let s = 1_000_000_000;
    assert_eq!(serve.keepalive(None, false, 1_000 * s).unwrap(), None);
    assert_eq!(serve.keepalive(setting, false, 10 * s - 1).unwrap(), None);
    assert_eq!(serve.keepalive(setting, true, 99 * s).unwrap(), None);
    let probe = serve.keepalive(setting, false, 10 * s).unwrap().expect("a probe");
    let want = ConnectionState::new().send_global_request(GlobalRequest::Keepalive, true);
    assert_eq!(probe, want);
    // Probes are spaced by the interval.
    assert_eq!(serve.keepalive(setting, false, 11 * s).unwrap(), None);
    assert!(serve.keepalive(setting, false, 20 * s).unwrap().is_some());
    assert_eq!(
        serve.keepalive(setting, false, 30 * s),
        Err(Error::Protocol(
            "serve: server keepalive timed out (ServerAliveCountMax exceeded)"
        ))
    );
    serve.heard(31 * s);
    assert_eq!(serve.keepalive(setting, false, 40 * s).unwrap(), None);
    assert!(serve.keepalive(setting, false, 41 * s).unwrap().is_some());
    assert!(serve.tick().is_ok());
}

#[test]
fn ports_are_clamped() {
    assert_eq!(clamp_u16(0), 0);
    assert_eq!(clamp_u16(65_535), 65_535);
    assert_eq!(clamp_u16(65_536), 65_535);
}

// ---- scp ----

#[test]
fn scp_commands() {
    let up = ScpSendOptions { recursive: true, preserve_times: true };
    assert_eq!(build_scp_to_cmd("/tmp/a b", &up).unwrap(), "scp -t -r -p -- '/tmp/a b'");
    let down = ScpRecvOptions { recursive: false, preserve_times: false, target_is_file: false };
    assert_eq!(build_scp_from_cmd("x", &down).unwrap(), "scp -f -- 'x'");
    assert_eq!(
        single_quote_for_remote("a'b"),
        Err(Error::Protocol("scp: remote path contains single quote"))
    );
    assert_eq!(
        single_quote_for_remote("a\nb"),
        Err(Error::Protocol("scp: remote path contains newline"))
    );
    assert_eq!(
        single_quote_for_remote("a\0b"),
        Err(Error::Protocol("scp: remote path contains NUL"))
    );
    assert_eq!(
        single_quote_for_remote("-rf"),
        Err(Error::Protocol("scp: remote path starts with '-'"))
    );
    assert_eq!(single_quote_for_remote("").unwrap(), "''");
}

#[test]
fn scp_targets_and_names() {
    let mut o = ScpRecvOptions { recursive: false, preserve_times: false, target_is_file: false };
    assert!(target_is_file(&o, None));
    assert!(target_is_file(&o, Some(false)));
    assert!(!target_is_file(&o, Some(true)));
    o.recursive = true;
    assert!(!target_is_file(&o, None));
    o.target_is_file = true;
    assert!(target_is_file(&o, Some(true)));
    assert_eq!(expected_name("/a/b.txt", false).as_deref(), Some("b.txt"));
    assert_eq!(expected_name("b.txt", false).as_deref(), Some("b.txt"));
    assert_eq!(expected_name("/a/b.txt", true), None);
    assert_eq!(expected_name("/a/", false), None);
    assert_eq!(expected_name("/a/*.txt", false), None);
    assert_eq!(expected_name("/a/?", false), None);
    assert_eq!(expected_name("/a/[b]", false), None);
    assert_eq!(expected_name("/[a]/b", false).as_deref(), Some("b"));
}

#[test]
fn scp_faults_have_words() {
    assert_eq!(scp_proto(ScpFault::Io(IoErrorKind::TimedOut)), Error::Io(IoErrorKind::TimedOut));
    assert_eq!(scp_proto(ScpFault::Remote), Error::Protocol("scp: remote fatal frame"));
    assert_eq!(scp_proto(ScpFault::Warning), Error::Protocol("scp: remote warning frame"));
    assert_eq!(scp_proto(ScpFault::BadHeader), Error::Protocol("scp: malformed header"));
    assert_eq!(scp_proto(ScpFault::BadName), Error::Protocol("scp: invalid name"));
    assert_eq!(scp_proto(ScpFault::PathEscape), Error::Protocol("scp: path escapes base"));
    assert_eq!(
        scp_proto(ScpFault::Unexpected),
        Error::Protocol("scp: unexpected protocol state")
    );
}

// ---- terminal modes ----

#[test]
fn modes_follow_the_layout() {
    let layout = TermiosLayout {
        slots: [0, 1, 2, 3, 4, 5, 6, 7, 8, 9, 10, 11, 99],
        input: [1, 2, 4, 8, 16, 32, 64, 128, 256, 512, 1024],
        local: [1, 2, 4, 8, 16, 32, 64, 128, 256, 512, 1024],
        output: [1, 2, 4, 8, 16],
        control: [0x30, 0x20, 0x30, 0x100, 0x200],
    };
    let t = Termios {
        c_iflag: 2,
        c_oflag: 16,
        c_cflag: 0x230,
        c_lflag: 1024,
        c_cc: vec![3, 28, 127, 21, 4, 0, 0, 17, 19, 26, 18, 23],
    };
    let blob = encode_modes(&t, &layout);
    assert_eq!(blob.len(), 231);
    let entry = |k: usize| (blob[5 * k], blob[5 * k + 4]);
    assert_eq!(&blob[..5], &[1, 0, 0, 0, 3]);
    assert_eq!(entry(1), (2, 28));
    assert_eq!(entry(10), (12, 18));
    assert_eq!(entry(11), (13, 23));
    assert_eq!(entry(12), (14, 0)); // no such slot
    assert_eq!(entry(13), (30, 0));
    assert_eq!(entry(14), (31, 1));
    assert_eq!(entry(24), (50, 0));
    assert_eq!(entry(34), (61, 1));
    assert_eq!(entry(35), (70, 0));
    assert_eq!(entry(39), (75, 1));
    assert_eq!(entry(40), (90, 0)); // CS7
    assert_eq!(entry(41), (91, 1)); // CS8
    assert_eq!(entry(42), (92, 0)); // PARENB
    assert_eq!(entry(43), (93, 1)); // PARODD
    assert_eq!(&blob[220..225], &[128, 0, 0, 0x96, 0]);
    assert_eq!(&blob[225..], &[129, 0, 0, 0x96, 0, 0]);
}

#[test]
fn modes_of_this_system() {
    let mut c_cc = vec![0u8; 32];
    c_cc[libc::VINTR] = 3;
    c_cc[libc::VLNEXT] = 22;
    let t = Termios {
        c_iflag: u64::from(libc::ICRNL | libc::IXON),
        c_oflag: u64::from(libc::OPOST),
        c_cflag: u64::from(libc::CS8 | libc::PARENB),
        c_lflag: u64::from(libc::ISIG | libc::ECHO),
        c_cc,
    };
    let blob = encode_termios_modes(&t);
    let on: Vec<u8> = (0..44)
        .filter(|k| blob[5 * k + 4] == 1)
        .map(|k| blob[5 * k])
        .collect();
    assert_eq!(on, vec![36, 39, 50, 53, 70, 91, 92]);
    assert_eq!(&blob[..5], &[1, 0, 0, 0, 3]);
    assert_eq!(&blob[60..65], &[14, 0, 0, 0, 22]);
}

#[test]
fn modes_of_this_system_are_kept_apart() {
    let encode = |i: u64, l: u64, o: u64, c: u64| {
        let t = Termios {
            c_iflag: i,
            c_oflag: o,
            c_cflag: c,
            c_lflag: l,
            c_cc: (1..=64).collect(),
        };
        encode_termios_modes(&t)
    };
    let on = |blob: Vec<u8>| -> Vec<u8> {
        (13..44)
            .filter(|k| blob[5 * k + 4] == 1)
            .map(|k| blob[5 * k])
            .filter(|op| !(90..=91).contains(op))
            .collect()
    };
    let mut seen: Vec<u8> = Vec::new();
    for bit in 0..64 {
        let mask: u64 = 1 << bit;
        for modes in [
            on(encode(mask, 0, 0, 0)),
            on(encode(0, mask, 0, 0)),
            on(encode(0, 0, mask, 0)),
            on(encode(0, 0, 0, mask)),
        ] {
            assert!(modes.len() <= 1, "{modes:?}");
            seen.extend(modes);
        }
    }
    seen.sort();
    assert_eq!(
        seen,
        vec![
            30, 31, 32, 33, 34, 35, 36, 39, 40, 41, 42, 50, 51, 53, 54, 55, 56, 57, 58, 59, 60,
            61, 70, 72, 73, 74, 75, 92, 93
        ]
    );
    let size = |c: u64| {
        let blob = encode(0, 0, 0, c);
        (blob[5 * 40 + 4], blob[5 * 41 + 4])
    };
    assert_eq!(size(u64::from(libc::CS7)), (1, 0));
    assert_eq!(size(u64::from(libc::CS8)), (0, 1));
    let blob = encode(0, 0, 0, 0);
    let mut slots: Vec<u8> = (0..13).map(|k| blob[5 * k + 4]).collect();
    slots.sort();
    slots.dedup();
    assert_eq!(slots.len(), 13);
}

// ---- pumps ----

#[test]
fn handshake_reads_are_bounded() {
    assert_eq!(handshake_read(0), Ok(1));
    assert_eq!(handshake_read(MAX_HANDSHAKE_READS - 1), Ok(MAX_HANDSHAKE_READS));
    assert_eq!(
        handshake_read(MAX_HANDSHAKE_READS),
        Err(Error::Protocol("kex: too many steps"))
    );
}

#[test]
fn timeouts_are_no_packets() {
    assert_eq!(packet_or_timeout(Ok(vec![1])), Ok(Some(vec![1])));
    assert_eq!(packet_or_timeout(Err(Error::Io(IoErrorKind::WouldBlock))), Ok(None));
    assert_eq!(packet_or_timeout(Err(Error::Io(IoErrorKind::TimedOut))), Ok(None));
    assert_eq!(
        packet_or_timeout(Err(Error::Io(IoErrorKind::BrokenPipe))),
        Err(Error::Io(IoErrorKind::BrokenPipe))
    );
    assert_eq!(packet_or_timeout(Err(Error::AuthFailed)), Err(Error::AuthFailed));
}

#[test]
fn authentication_is_bounded() {
    let mut run = AuthRun::new();
    let step = run.on_step(AuthStep::Send(vec![50]));
    assert!(waiting(&step) && step.send == vec![vec![50]]);
    assert!(matches!(run.on_step(AuthStep::Success).next, Next::Done));
    assert_eq!(failure(&AuthRun::new().on_step(AuthStep::Failed)), Error::AuthFailed);
    let mut run = AuthRun::new();
    for _ in 0..MAX_AUTH_STEPS - 1 {
        let banner = AuthStep::Banner {
            message: "hello".to_string(),
            language: String::new(),
        };
        assert!(waiting(&run.on_step(banner)));
    }
    assert_eq!(
        failure(&run.on_step(AuthStep::Idle)),
        Error::Protocol("auth: too many steps without termination")
    );
}

// ---- the asynchronous client ----

#[test]
fn async_exec_collects_output() {
    let mut client = AsyncClient::new();
    let mut peer = Peer::new();
    let (mut session, step) = client.exec("hi");
    let ch = opened(&mut peer, &step);
    let accept = peer.conn.accept_open(ch).unwrap();
    let step = client.on_payload(&mut session, &accept);
    assert!(matches!(
        &peer.take(&step.send)[..],
        [ChannelEvent::Request { request: ChannelRequest::Exec { command }, want_reply: true, .. }] if command == "hi"
    ));
    let ok = peer.conn.send_request_success(ch).unwrap();
    client.on_payload(&mut session, &ok);
    let (p, _) = peer.conn.send_data(ch, b"hello\n").unwrap();
    client.on_payload(&mut session, &p);
    let close = peer.conn.send_close(ch).unwrap();
    assert!(matches!(client.on_payload(&mut session, &close).next, Next::Done));
    assert_eq!(session.into_output().stdout, b"hello\n");
}

#[test]
fn output_comes_in_order_and_by_stream() {
    let mut client = AsyncClient::new();
    let mut peer = Peer::new();
    let (mut session, step) = client.exec("both");
    let ch = opened(&mut peer, &step);
    let accept = peer.conn.accept_open(ch).unwrap();
    client.on_payload(&mut session, &accept);
    let ok = peer.conn.send_request_success(ch).unwrap();
    client.on_payload(&mut session, &ok);
    for (code, part) in [(0, "a"), (1, "x"), (0, "b"), (7, "c"), (1, "y"), (0, "d")] {
        let (p, n) = if code == 0 {
            peer.conn.send_data(ch, part.as_bytes()).unwrap()
        } else {
            peer.conn.send_extended_data(ch, code, part.as_bytes()).unwrap()
        };
        assert_eq!(n, 1);
        assert!(matches!(client.on_payload(&mut session, &p).next, Next::Wait));
    }
    let close = peer.conn.send_close(ch).unwrap();
    assert!(matches!(client.on_payload(&mut session, &close).next, Next::Done));
    let out = session.into_output();
    assert_eq!((out.stdout.as_slice(), out.stderr.as_slice()), (&b"abcd"[..], &b"xy"[..]));
}

#[test]
fn async_channel_reads_and_writes() {
    let mut client = AsyncClient::new();
    let mut peer = Peer::new();
    peer.conn.default_window = 2;
    let (mut session, step) = client.open_direct_tcpip("h", 1, "o", 2);
    let ch = opened(&mut peer, &step);
    let accept = peer.conn.accept_open(ch).unwrap();
    assert!(matches!(client.on_payload(&mut session, &accept).next, Next::Ready));
    let mut channel = AsyncChannel::new(session.channel());
    // Two bytes fit; the message after them is empty.
    let w = channel.write(client.conn_mut(), b"abc");
    assert_eq!(w.written, 2);
    assert!(w.result.is_ok());
    let events = peer.take(&w.send);
    assert!(matches!(
        &events[..],
        [ChannelEvent::Data { data: a, .. }, ChannelEvent::Data { data: b, .. }]
            if a == b"ab" && b.is_empty()
    ));
    let adjust = peer.conn.replenish_window(ch, 2).unwrap().expect("an adjust");
    assert!(channel.absorb(client.conn_mut(), &adjust).is_ok());
    assert_eq!(channel.write(client.conn_mut(), b"c").written, 1);

    assert!(channel.read(5).is_none());
    let (p, _) = peer.conn.send_data(ch, b"xyz").unwrap();
    assert!(channel.on_payload(client.conn_mut(), &p).1.is_ok());
    assert_eq!(channel.read(2).unwrap(), b"xy");
    assert_eq!(channel.read(2).unwrap(), b"z");
    let eof = peer.conn.send_eof(ch).unwrap();
    assert!(channel.on_payload(client.conn_mut(), &eof).1.is_ok());
    assert_eq!(channel.read(2).unwrap(), b"");
    assert!(channel.send_eof(client.conn_mut()).is_ok());
    assert!(channel.close(client.conn_mut()).unwrap().is_some());
    assert!(channel.close(client.conn_mut()).unwrap().is_none());
    assert!(channel.write(client.conn_mut(), b"c").result.is_err());
}

// ---- the readiness-driven client ----

fn authenticated() -> MioClient {
    let mut client = MioClient::new();
    client.on_handshake_complete();
    assert!(matches!(client.poll_event(), Some(MioEvent::HandshakeComplete)));
    client.authenticate().unwrap();
    let (send, r) = client.on_auth_step(Ok(AuthStep::Send(vec![5])));
    assert!(r.is_ok() && send == Some(vec![5]));
    client.on_auth_step(Ok(AuthStep::Success));
    assert!(matches!(client.poll_event(), Some(MioEvent::Authenticated)));
    client
}

#[test]
fn mio_exec_round_trip() {
    let mut client = authenticated();
    let mut peer = Peer::new();
    let open = client.exec("hi").unwrap();
    assert!(matches!(client.exec("again"), Err(Error::Protocol("exec: not authenticated (or busy)"))));
    let ch = match peer.take(&[open]).pop() {
        Some(ChannelEvent::OpenRequest { channel, .. }) => channel,
        other => panic!("unexpected {other:?}"),
    };
    let accept = peer.conn.accept_open(ch).unwrap();
    let (send, r) = client.on_app_data(&accept);
    assert!(r.is_ok());
    assert!(matches!(
        &peer.take(&[send.unwrap()])[..],
        [ChannelEvent::Request { request: ChannelRequest::Exec { command }, want_reply: true, .. }] if command == "hi"
    ));
    let (p, _) = peer.conn.send_data(ch, b"out").unwrap();
    assert!(client.on_app_data(&p).1.is_ok());
    let (p, _) = peer.conn.send_extended_data(ch, 1, b"err").unwrap();
    assert!(client.on_app_data(&p).1.is_ok());
    let p = peer
        .conn
        .send_request(ch, ChannelRequest::ExitStatus { code: 0 }, false)
        .unwrap();
    assert!(client.on_app_data(&p).1.is_ok());
    let eof = peer.conn.send_eof(ch).unwrap();
    let (send, _) = client.on_app_data(&eof);
    assert!(matches!(peer.take(&[send.unwrap()])[..], [ChannelEvent::Eof { .. }]));
    let close = peer.conn.send_close(ch).unwrap();
    let (send, _) = client.on_app_data(&close);
    assert!(matches!(peer.take(&[send.unwrap()])[..], [ChannelEvent::Close { .. }]));
    assert!(matches!(client.poll_event(), Some(MioEvent::Data { stderr: false, data }) if data == b"out"));
    assert!(matches!(client.poll_event(), Some(MioEvent::Data { stderr: true, data }) if data == b"err"));
    assert!(matches!(client.poll_event(), Some(MioEvent::ExitStatus(0))));
    assert!(matches!(client.poll_event(), Some(MioEvent::ExecClosed)));
    assert!(client.poll_event().is_none());
    // Another command may follow.
    assert!(client.exec("again").is_ok());
}

#[test]
fn mio_failures() {
    let mut client = MioClient::new();
    assert!(matches!(
        client.authenticate(),
        Err(Error::Protocol(
            "authenticate: handshake not complete or auth already in progress"
        ))
    ));
    client.on_handshake_complete();
    client.authenticate().unwrap();
    assert!(client.is_authenticating());
    client.on_auth_step(Ok(AuthStep::Failed));
    client.poll_event();
    assert!(matches!(client.poll_event(), Some(MioEvent::AuthFailed)));

    // A refused open ends the command as if it had been closed.
    let mut client = authenticated();
    let mut peer = Peer::new();
    let open = client.exec("hi").unwrap();
    let ch = match peer.take(&[open]).pop() {
        Some(ChannelEvent::OpenRequest { channel, .. }) => channel,
        other => panic!("unexpected {other:?}"),
    };
    let no = peer.conn.reject_open(ch, 1, "", "").unwrap();
    assert!(client.on_app_data(&no).1.is_ok());
    assert!(matches!(client.poll_event(), Some(MioEvent::ExecClosed)));

    // A refused request is an error, and the connection is over.
    let open = client.exec("hi").unwrap();
    let ch = match peer.take(&[open]).pop() {
        Some(ChannelEvent::OpenRequest { channel, .. }) => channel,
        other => panic!("unexpected {other:?}"),
    };
    let accept = peer.conn.accept_open(ch).unwrap();
    client.on_app_data(&accept);
    let no = peer.conn.send_request_failure(ch).unwrap();
    assert_eq!(client.on_app_data(&no).1, Err(Error::Protocol("exec request denied")));
    assert!(client.exec("hi").is_err());
    client.on_disconnect();
    assert!(matches!(client.poll_event(), Some(MioEvent::Disconnected)));
}

#[test]
fn out_buffer_keeps_what_the_socket_leaves() {
    let mut out = OutBuffer::new();
    assert!(!out.wants_write());
    out.push(b"abc");
    out.push(b"de");
    assert!(out.wrote(4).is_ok());
    assert_eq!(out.unsent(), b"e");
    assert!(out.wants_write());
    out.push(b"f");
    assert_eq!(out.unsent(), b"ef");
    assert_eq!(out.wrote(0), Err(Error::Protocol("write returned 0 (peer closed)")));
    assert!(out.wrote(2).is_ok());
    assert!(!out.wants_write());
    assert_eq!(retry(IoErrorKind::WouldBlock), Retry::Later);
    assert_eq!(retry(IoErrorKind::Interrupted), Retry::Now);
    assert_eq!(retry(IoErrorKind::BrokenPipe), Retry::Never);
}

#[test]
fn the_last_exit_report_counts() {
    let mut client = Client::new();
    let mut peer = Peer::new();
    let (mut session, ch) = ready_for_collecting(&mut client, &mut peer);
    let signal = |name: &str| ChannelRequest::ExitSignal {
        name: name.to_string(),
        core_dumped: false,
        message: String::new(),
        language: String::new(),
    };
    let reports = [
        ChannelRequest::ExitStatus { code: 1 },
        signal("TERM"),
        ChannelRequest::ExitStatus { code: 7 },
        signal("KILL"),
    ];
    for report in reports {
        let p = peer.conn.send_request(ch, report, false).unwrap();
        assert!(waiting(&client.on_payload(&mut session, &p)));
    }
    let close = peer.conn.send_close(ch).unwrap();
    assert!(matches!(client.on_payload(&mut session, &close).next, Next::Done));
    let out = session.into_output();
    assert_eq!(out.exit_status, Some(7));
    assert_eq!(out.exit_signal.as_deref(), Some("KILL"));
}
