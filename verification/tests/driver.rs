use puressh::channel::{
    ChannelEvent, ChannelOpen, ChannelRequest, ConnectionState, GlobalRequest,
};
use puressh::client::pump::AuthStep;
use puressh::driver::client::{ClientDriver, ClientEvent};
use puressh::driver::server::host_key_picked;
use puressh::driver::{
    generic_msg_during_initial_kex, keepalive_request, needs_verifier, Driver, Event, Input,
    KexStatus, Route, Timer, MAX_DEFERRED_IN_BYTES, MAX_DEFERRED_OUT_BYTES, MAX_INBOX_BYTES,
};
use puressh::transport::ping::{encode_ping, encode_pong, pong_for_ping};
use puressh::transport::rekey::is_kex_msg;
use puressh::Error;

const IDLE: KexStatus = KexStatus {
    kexing: false,
    peer_kexinit_seen: false,
    strict: true,
    may_accept_ext_info: false,
};

/// We have sent our KEXINIT, the peer has not seen it.
const INITIATED: KexStatus = KexStatus { kexing: true, ..IDLE };

/// Both KEXINITs are out.
const EXCHANGING: KexStatus = KexStatus { kexing: true, peer_kexinit_seen: true, ..IDLE };

/// A driver whose handshake is complete, its events cleared.
fn handshake() -> Driver {
    let mut d = Driver::new(0);
    match d.handle_input(b"hello\r\nSSH-2.0-peer\r\n").unwrap() {
        Input::Version(line) => assert_eq!(line, b"SSH-2.0-peer\r\n"),
        other => panic!("unexpected {other:?}"),
    }
    d.version_parsed(b"SSH-2.0-peer".to_vec());
    assert_eq!(d.peer_version(), b"SSH-2.0-peer");
    assert!(!d.handshake_done());
    assert!(matches!(
        d.route_packet(&[20], 1, EXCHANGING).unwrap(),
        Route::Kex { restart: false }
    ));
    assert!(d.kex_advanced(1, false, None).unwrap().is_empty());
    assert!(d.kex_advanced(1, true, Some(b"session")).unwrap().is_empty());
    assert!(d.handshake_done());
    assert_eq!(d.session_id(), b"session");
    assert_eq!(d.last_kex(), Some(1));
    assert!(matches!(d.poll_event(), Some(Event::HandshakeComplete)));
    assert!(d.poll_event().is_none());
    d
}

fn channel_data(body: &[u8]) -> Vec<u8> {
    let mut v = vec![94, 0, 0, 0, 0];
    v.extend_from_slice(&(body.len() as u32).to_be_bytes());
    v.extend_from_slice(body);
    v
}

fn app_data_payloads(d: &mut Driver) -> Vec<Vec<u8>> {
    let mut out = Vec::new();
    while let Some(ev) = d.poll_event() {
        if let Event::AppData(p) = ev {
            out.push(p);
        }
    }
    out
}

fn protocol_err<T: std::fmt::Debug>(res: Result<T, Error>) -> &'static str {
    match res {
        Err(Error::Protocol(msg)) => msg,
        other => panic!("expected a protocol error, got {other:?}"),
    }
}

fn defers_then_replays(data: Vec<u8>) {
    let mut d = handshake();
    assert!(matches!(d.route_packet(&data, 2, INITIATED).unwrap(), Route::Nothing));
    assert!(d.poll_event().is_none(), "held back until NEWKEYS");
    assert!(d.holds_inbound());
    d.kex_advanced(3, true, None).expect("re-key");
    assert_eq!(app_data_payloads(&mut d), vec![data]);
}

#[test]
fn client_defers_app_data_that_precedes_the_servers_kexinit() {
    defers_then_replays(channel_data(b"sent before the server saw our KEXINIT"));
}

#[test]
fn server_defers_app_data_that_precedes_the_clients_kexinit() {
    defers_then_replays(channel_data(b"sent before the client saw our KEXINIT"));
}

fn rejects_late_data() {
    let mut d = handshake();
    assert!(
        matches!(d.route_packet(&[2, 0, 0, 0, 0], 2, EXCHANGING), Ok(Route::Nothing)),
        "IGNORE is fine during a re-key"
    );
    let err = protocol_err(d.route_packet(&channel_data(b"late"), 2, EXCHANGING));
    assert_eq!(err, "non-KEX message during key re-exchange");
    assert!(d.poll_event().is_none());
}

#[test]
fn client_rejects_app_data_after_the_servers_kexinit() {
    rejects_late_data();
}

#[test]
fn server_rejects_app_data_after_the_clients_kexinit() {
    rejects_late_data();
}

#[test]
fn deferred_ingress_is_capped() {
    let mut d = handshake();
    let chunk = channel_data(&vec![0u8; 32 * 1024]);
    let mut result = Ok(Route::Nothing);
    for _ in 0..(MAX_DEFERRED_IN_BYTES / chunk.len() + 2) {
        result = d.route_packet(&chunk, 2, INITIATED);
        if result.is_err() {
            break;
        }
    }
    assert_eq!(
        protocol_err(result),
        "re-key: deferred ingress buffer too large"
    );
}

#[test]
fn egress_waits_for_the_exchange() {
    let mut d = handshake();
    let data = channel_data(b"x");
    assert_eq!(d.enqueue_payload(&data, false), Ok(Some(data.clone())));
    assert_eq!(d.enqueue_payload(&data, true), Ok(None));
    assert_eq!(d.enqueue_payload(&[5, 1], true), Ok(None));
    assert_eq!(d.enqueue_payload(&[20, 1], true), Ok(Some(vec![20, 1])));
    assert_eq!(d.enqueue_payload(&[1], true), Ok(Some(vec![1])));
    assert_eq!(d.kex_advanced(9, true, None).unwrap(), vec![data, vec![5, 1]]);
    assert_eq!(d.kex_advanced(9, true, None).unwrap(), Vec::<Vec<u8>>::new());
    let big = vec![94u8; MAX_DEFERRED_OUT_BYTES];
    assert_eq!(d.enqueue_payload(&big, true), Ok(None));
    assert_eq!(
        protocol_err(d.enqueue_payload(&[94], true)),
        "re-key: deferred egress buffer too large"
    );
}

#[test]
fn application_payloads_surface_in_order() {
    let mut d = handshake();
    assert!(matches!(d.route_packet(&[50], 2, IDLE).unwrap(), Route::App));
    assert!(matches!(d.route_packet(&[], 2, IDLE).unwrap(), Route::App));
    assert_eq!(app_data_payloads(&mut d), vec![vec![50], vec![]]);
}

#[test]
fn transport_messages_are_routed() {
    let mut d = handshake();
    assert_eq!(
        protocol_err(d.route_packet(&[1], 2, IDLE)),
        "peer sent SSH_MSG_DISCONNECT"
    );
    for b in [2u8, 3, 4] {
        assert!(matches!(d.route_packet(&[b], 2, IDLE).unwrap(), Route::Nothing));
    }
    match d.route_packet(&encode_ping(b"chaff-1234"), 2, IDLE).unwrap() {
        Route::Reply(pong) => assert_eq!(pong, encode_pong(b"chaff-1234")),
        other => panic!("unexpected {other:?}"),
    }
    assert!(matches!(
        d.route_packet(&encode_pong(b"unsolicited"), 2, IDLE).unwrap(),
        Route::Nothing
    ));
    assert_eq!(
        protocol_err(d.route_packet(&[7], 2, IDLE)),
        "unexpected SSH_MSG_EXT_INFO"
    );
    let open = KexStatus { may_accept_ext_info: true, ..IDLE };
    assert!(matches!(d.route_packet(&[7], 2, open).unwrap(), Route::ExtInfo));
    // The peer starts a re-key.
    assert!(matches!(d.route_packet(&[20], 2, IDLE).unwrap(), Route::Kex { restart: true }));
    assert!(matches!(
        d.route_packet(&[21], 2, INITIATED).unwrap(),
        Route::Kex { restart: false }
    ));
    assert!(d.poll_event().is_none());
    assert!(matches!(pong_for_ping(&[192, 0]), Err(Error::Format(_))));
}

#[test]
fn nothing_is_slipped_into_the_first_exchange() {
    assert_eq!(
        protocol_err(generic_msg_during_initial_kex(true)),
        "strict-kex: unexpected message during initial key exchange"
    );
    assert_eq!(generic_msg_during_initial_kex(false), Ok(()));
    let mut d = Driver::new(0);
    d.version_parsed(b"SSH-2.0-x".to_vec());
    for p in [vec![2u8], vec![4], encode_ping(b""), encode_pong(b"")] {
        assert_eq!(
            protocol_err(d.route_packet(&p, 1, EXCHANGING)),
            "strict-kex: unexpected message during initial key exchange"
        );
        let lax = KexStatus { strict: false, ..EXCHANGING };
        assert!(matches!(d.route_packet(&p, 1, lax).unwrap(), Route::Nothing));
    }
    assert_eq!(
        protocol_err(d.kex_advanced(1, true, None)),
        "kex: missing session id"
    );
}

#[test]
fn banner_is_bounded() {
    let mut d = Driver::new(0);
    assert!(matches!(d.handle_input(b"no newline yet").unwrap(), Input::More));
    assert_eq!(
        protocol_err(d.handle_input(&[b'x'; 1024])),
        "banner line too long"
    );
    let mut d = Driver::new(0);
    assert_eq!(
        protocol_err(d.handle_input(&[b'\n'; 33])),
        "peer banner too long"
    );
    let mut d = Driver::new(0);
    let mut line = vec![b'x'; 65_536];
    line.push(b'\n');
    assert_eq!(protocol_err(d.handle_input(&line)), "banner too large");
    // Exactly 32 lines may precede the identification.
    let mut d = Driver::new(0);
    let mut bytes = vec![b'\n'; 32];
    bytes.extend_from_slice(b"SSH-2.0-x\nrest");
    assert!(matches!(d.handle_input(&bytes).unwrap(), Input::Version(l) if l == b"SSH-2.0-x\n"));
    d.version_parsed(b"SSH-2.0-x".to_vec());
    assert_eq!(d.inbox(), b"rest");
    assert!(matches!(d.handle_input(b"!").unwrap(), Input::Packets));
    d.consume(4);
    assert_eq!(d.inbox(), b"!");
    assert_eq!(
        protocol_err(d.handle_input(&vec![0; MAX_INBOX_BYTES])),
        "inbound buffer too large"
    );
}

#[test]
fn keepalive_probes_then_gives_up() {
    let mut d = handshake();
    assert_eq!(d.next_timeout(), None);
    assert_eq!(d.handle_timeout(1_000_000, false, false), Ok(Timer::Nothing));
    d.set_keepalive(100, 2);
    assert_eq!(d.next_timeout(), Some(101));
    assert_eq!(d.handle_timeout(100, false, false), Ok(Timer::Nothing));
    assert_eq!(d.handle_timeout(101, true, false), Ok(Timer::Nothing));
    assert_eq!(d.handle_timeout(101, false, true), Ok(Timer::Rekey));
    assert_eq!(d.handle_timeout(101, false, false), Ok(Timer::Probe));
    assert_eq!(d.handle_timeout(102, false, false), Ok(Timer::Nothing));
    assert_eq!(d.handle_timeout(201, false, false), Ok(Timer::Probe));
    assert_eq!(
        protocol_err(d.handle_timeout(301, false, false)),
        "keepalive: no response from peer"
    );
    // Any packet starts the count anew.
    d.route_packet(&[2], 310, IDLE).unwrap();
    assert_eq!(d.handle_timeout(410, false, false), Ok(Timer::Probe));
    // A clock that goes back counts as no time.
    assert_eq!(d.handle_timeout(0, false, false), Ok(Timer::Nothing));
}

#[test]
fn keepalive_payload() {
    let want = ConnectionState::new().send_global_request(GlobalRequest::Keepalive, true);
    assert_eq!(keepalive_request(), want);
    assert_eq!(want[0], 80);
}

#[test]
fn key_exchange_messages() {
    assert!(!is_kex_msg(19) && is_kex_msg(20) && is_kex_msg(49) && !is_kex_msg(50));
    assert_eq!(needs_verifier(&[31, 0]), Ok(true));
    assert_eq!(needs_verifier(&[30]), Ok(false));
    assert_eq!(needs_verifier(&[]), Err(Error::Format("empty kex payload")));
}

/// Feed a client's side one application payload.
fn feed(d: &mut ClientDriver, payload: &[u8]) {
    d.driver_mut().route_packet(payload, 1, IDLE).unwrap();
}

/// A client's side whose handshake is complete.
fn client() -> ClientDriver {
    let mut d = ClientDriver::new(0);
    d.driver_mut().handle_input(b"SSH-2.0-peer\r\n").unwrap();
    d.driver_mut().version_parsed(b"SSH-2.0-peer".to_vec());
    d.driver_mut().route_packet(&[20], 1, EXCHANGING).unwrap();
    d.driver_mut().kex_advanced(1, true, Some(b"id")).unwrap();
    assert!(matches!(d.poll_event(), Ok(Some(ClientEvent::HandshakeComplete))));
    assert!(matches!(d.poll_event(), Ok(None)));
    assert!(d.driver().handshake_done());
    d
}

#[test]
fn client_authenticates_before_channels_flow() {
    let mut d = client();
    assert!(matches!(
        d.on_auth_step(AuthStep::Success, false),
        Err(Error::Protocol("auth packet with no auth driver"))
    ));
    d.begin_auth(&[5, 1], false).unwrap();
    assert_eq!(d.poll_transmit(), Some(vec![5, 1]));
    // A payload that looks like channel traffic goes to the engine.
    feed(&mut d, &[82]);
    assert!(matches!(d.poll_event(), Ok(Some(ClientEvent::AuthPacket(p))) if p == [82]));
    assert!(matches!(d.on_auth_step(AuthStep::Idle, false), Ok(None)));
    let banner = AuthStep::Banner {
        message: "Maintenance at noon.".to_string(),
        language: "en".to_string(),
    };
    match d.on_auth_step(banner, false) {
        Ok(Some(ClientEvent::AuthBanner { message, language })) => {
            assert_eq!(message, "Maintenance at noon.");
            assert_eq!(language, "en");
        }
        other => panic!("{other:?}"),
    }
    assert!(matches!(d.on_auth_step(AuthStep::Send(vec![50]), false), Ok(None)));
    assert_eq!(d.poll_transmit(), Some(vec![50]));
    assert!(!d.is_established());
    assert!(matches!(
        d.on_auth_step(AuthStep::Success, false),
        Ok(Some(ClientEvent::AuthSuccess))
    ));
    assert!(d.is_established());
    feed(&mut d, &[82]);
    assert!(matches!(
        d.poll_event(),
        Ok(Some(ClientEvent::Channel(ChannelEvent::GlobalFailure)))
    ));
}

#[test]
fn client_that_is_refused_takes_no_more() {
    let mut d = client();
    d.begin_auth(&[5], false).unwrap();
    assert!(matches!(
        d.on_auth_step(AuthStep::Failed, false),
        Ok(Some(ClientEvent::AuthFailure))
    ));
    feed(&mut d, &[82]);
    assert!(matches!(
        d.poll_event(),
        Err(Error::Protocol("auth packet with no auth driver"))
    ));
    assert!(!d.is_established());
}

#[test]
fn client_channel_intents_reach_the_peer() {
    let mut d = client();
    let mut peer = ConnectionState::new();
    let id = d.open_channel(ChannelOpen::Session, false).unwrap();
    let open = d.poll_transmit().unwrap();
    let far = match peer.on_packet(&open).unwrap() {
        ChannelEvent::OpenRequest { channel, .. } => channel,
        other => panic!("unexpected {other:?}"),
    };
    feed(&mut d, &peer.accept_open(far).unwrap());
    assert!(matches!(
        d.poll_event(),
        Ok(Some(ClientEvent::Channel(ChannelEvent::OpenConfirmed { channel }))) if channel == id
    ));
    assert!(d.conn().channel(id).unwrap().is_open());
    d.send_channel_request(id, ChannelRequest::Shell, true, false).unwrap();
    assert_eq!(d.send_channel_data(id, b"hello", false), Ok(5));
    d.send_channel_eof(id, false).unwrap();
    d.send_channel_close(id, false).unwrap();
    d.send_global_request(GlobalRequest::Keepalive, true, false).unwrap();
    let mut seen = Vec::new();
    while let Some(p) = d.poll_transmit() {
        seen.push(peer.on_packet(&p).unwrap());
    }
    assert!(matches!(
        &seen[..],
        [
            ChannelEvent::Request { request: ChannelRequest::Shell, want_reply: true, .. },
            ChannelEvent::Data { data, .. },
            ChannelEvent::Eof { .. },
            ChannelEvent::Close { .. },
            ChannelEvent::GlobalRequest { want_reply: true, .. },
        ] if data == b"hello"
    ));
    assert_eq!(d.send_channel_data(id, b"late", false), Err(Error::BadChannelState));
    assert!(d.send_channel_eof(77, false).is_err());
}

#[test]
fn client_holds_traffic_back_during_an_exchange() {
    let mut d = client();
    let id = d.open_channel(ChannelOpen::Session, true).unwrap();
    assert_eq!(d.poll_transmit(), None);
    assert!(d.conn().channel(id).is_some());
    let held = d.driver_mut().kex_advanced(5, true, None).unwrap();
    assert_eq!(held.len(), 1);
    assert_eq!(held[0][0], 90);
    d.enqueue_payload(&held[0], false).unwrap();
    assert_eq!(d.poll_transmit(), Some(held[0].clone()));
    assert!(d.replenish_window(77, 1, false).is_err());
}

#[test]
fn a_server_needs_a_host_key_for_what_was_agreed() {
    assert_eq!(host_key_picked(false, false), Ok(()));
    assert_eq!(host_key_picked(true, true), Ok(()));
    assert_eq!(
        protocol_err(host_key_picked(true, false)),
        "kex: no host key for negotiated algorithm"
    );
}
