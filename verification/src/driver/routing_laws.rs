//! Which packet goes where, what is answered, and when.

use super::client::{AuthPhase, ClientDriverView, ClientEvent, ClientEventView};
use super::scan::{line_end, BannerView, ScanView};
use super::{
    app_events, DriverView, Event, EventView, Input, InputView, KexStatus, Phase, Route, RouteView,
    Timer, MAX_DEFERRED_IN_BYTES, MAX_DEFERRED_OUT_BYTES, MAX_INBOX_BYTES,
};
use crate::channel::global::GlobalRequestView;
use crate::channel::layout::{all_bytes, begins_with_bytes, lemma_spells, spells, Field};
use crate::channel::model::global_payload;
use crate::channel::open::ChannelOpenView;
use crate::client::pump::{auth_outcome, AuthStep, MAX_AUTH_STEPS, MAX_HANDSHAKE_READS};
use crate::client::session::{Next, MAX_EXEC_ITER, MAX_EXEC_OUTPUT};
use crate::error::Error;
use crate::transport::ping::{answer, ping_payload, pong_payload};
use vstd::prelude::*;

verus! {

/// The limits that keep a peer from using up memory or time.
pub proof fn lemma_limits()
    ensures
        MAX_INBOX_BYTES == 8 * 1024 * 1024,
        MAX_DEFERRED_IN_BYTES == 8 * 1024 * 1024,
        MAX_DEFERRED_OUT_BYTES == 8 * 1024 * 1024,
        MAX_EXEC_OUTPUT == 64 * 1024 * 1024,
        MAX_EXEC_ITER == 1_000_000,
        MAX_AUTH_STEPS == 64,
        MAX_HANDSHAKE_READS == 32 * 36,
        crate::channel::DEFAULT_WINDOW == 2 * 1024 * 1024,
        crate::channel::DEFAULT_MAX_PACKET == 32 * 1024,
        crate::transport::packet::MAX_PACKET_LEN == 35_000,
        crate::client::asynchronous::READ_CHUNK == 16 * 1024,
        crate::client::serve::MAX_SERVE_STEPS == 100_000_000,
        crate::client::serve::SERVE_EGRESS_BACKLOG == 32,
        crate::client::stream::MAX_DRAIN == 128,
        crate::config::includes::MAX_INCLUDE_DEPTH == 16,
        super::scan::MAX_BANNER_LINE == 1024,
        super::scan::MAX_BANNER_LINES == 32,
        super::scan::MAX_BANNER_TOTAL_BYTES == 64 * 1024,
{
}

/// A PING is message 192 with its data behind its length, and is answered by
/// message 193 with the same data.
pub proof fn lemma_pings_are_answered_in_kind(ping: Seq<u8>, data: Seq<u8>)
    requires
        ping.len() >= 1,
        data.len() <= u32::MAX,
        begins_with_bytes(ping.skip(1), data),
    ensures
        spells(ping_payload(data), seq![Field::Byte(192), Field::Bytes(data)]),
        spells(pong_payload(data), seq![Field::Byte(193), Field::Bytes(data)]),
        answer(ping) == Ok::<Seq<u8>, Error>(pong_payload(data)),
{
    reveal_with_fuel(all_bytes, 3);
    let a = seq![Field::Byte(192), Field::Bytes(data)];
    let b = seq![Field::Byte(193), Field::Bytes(data)];
    assert(ping_payload(data) =~= all_bytes(a, 0));
    assert(pong_payload(data) =~= all_bytes(b, 0));
    lemma_spells(ping_payload(data), a);
    lemma_spells(pong_payload(data), b);
    let body = ping.skip(1);
    let rest = body.skip(4);
    assert(rest.take(data.len() as int) =~= body.subrange(4, 4 + data.len() as int));
}

/// The probe that keeps a connection alive is a global request that wants a
/// reply.
pub proof fn lemma_probe_layout()
    ensures
        spells(
            global_payload(GlobalRequestView::Keepalive, true),
            seq![Field::Byte(80), Field::Text("keepalive@openssh.com"@), Field::Flag(true)],
        ),
{
    reveal_with_fuel(all_bytes, 4);
    let fields = seq![
        Field::Byte(80),
        Field::Text("keepalive@openssh.com"@),
        Field::Flag(true),
    ];
    let payload = global_payload(GlobalRequestView::Keepalive, true);
    assert(payload =~= all_bytes(fields, 0));
    lemma_spells(payload, fields);
}

/// Where a packet goes is told by its first byte (RFC 4250 section 4.1.2):
/// DISCONNECT ends the connection; IGNORE, UNIMPLEMENTED, DEBUG and PONG are
/// dropped once the first key exchange is over; a PING is answered; 20 to 49
/// belong to the key exchange, which a KEXINIT starts anew where none is in
/// flight; EXT_INFO is taken only when it may come; and all that is above goes to
/// the application, behind what came before.
pub proof fn lemma_packets_are_told_by_their_number(
    d: DriverView,
    payload: Seq<u8>,
    now: u128,
    status: KexStatus,
)
    requires
        payload.len() > 0,
        d.phase == Phase::PostKex,
    ensures
        ({
            let b = payload[0];
            let (after, r) = d.route(payload, now, status);
            &&& after.last_activity == now && after.missed_keepalives == 0
            &&& b == 1 ==> r is Err
            &&& b == 2 || b == 3 || b == 4 || b == 193 ==> r == Ok::<_, Error>(
                RouteView::Nothing,
            ) && after.events == d.events
            &&& b == 192 ==> match answer(payload) {
                Ok(pong) => r == Ok::<_, Error>(RouteView::Reply(pong)),
                Err(e) => r == Err::<RouteView, _>(e),
            }
            &&& b == 7 ==> (if status.may_accept_ext_info {
                r == Ok::<_, Error>(RouteView::ExtInfo)
            } else {
                r is Err
            })
            &&& 20 <= b <= 49 ==> r == Ok::<_, Error>(
                RouteView::Kex { restart: b == 20 && !status.kexing },
            ) && after.events == d.events
            &&& (b == 5 || b == 6 || 8 <= b <= 19 || 50 <= b <= 191 || b >= 194) && !status.kexing
                ==> r == Ok::<_, Error>(RouteView::App) && after.events == d.events + seq![
                EventView::AppData(payload),
            ]
        }),
{
    assert(d.events + seq![EventView::AppData(payload)] =~= d.events.push(
        EventView::AppData(payload),
    ));
}

/// While keys are exchanged, only messages below 50 go out, and of these no
/// service request or accept; the others wait, behind what waits already. At
/// any other time everything goes out at once.
pub proof fn lemma_what_waits_for_the_keys(d: DriverView, payload: Seq<u8>, kexing: bool)
    ensures
        ({
            let (after, r) = d.send(payload, kexing);
            let transport = payload.len() > 0 && payload[0] < 50 && payload[0] != 5 && payload[0]
                != 6;
            &&& !kexing || transport ==> after == d && r == Ok::<_, Error>(Some(payload))
            &&& kexing && !transport ==> (r is Ok ==> r == Ok::<Option<Seq<u8>>, Error>(None)
                && after.held_out.queue == d.held_out.queue + seq![payload])
            &&& kexing && !transport && d.held_out.bytes + payload.len() <= 8 * 1024 * 1024
                ==> r is Ok
            &&& kexing && !transport && d.held_out.bytes + payload.len() > 8 * 1024 * 1024
                ==> r is Err && after.held_out.queue == d.held_out.queue
        }),
{
    assert(d.held_out.queue + seq![payload] =~= d.held_out.queue.push(payload));
}

/// The first exchange that completes makes the connection ready, under the
/// session id that it gave; later ones leave the id as it is. What waited for
/// the application follows in its order, and what waited to go out is handed
/// over in its order.
pub proof fn lemma_completed_exchange_opens_the_way(
    d: DriverView,
    now: u128,
    session_id: Seq<u8>,
)
    ensures
        d.phase == Phase::Kex ==> ({
            let (after, r) = d.advance(now, true, Some(session_id));
            &&& r == Ok::<_, Error>(d.held_out.queue)
            &&& after.phase == Phase::PostKex
            &&& after.session_id == session_id
            &&& after.last_kex == Some(now)
            &&& after.events == d.events + seq![EventView::HandshakeComplete] + app_events(
                d.held_in.queue,
            )
            &&& after.held_in.queue.len() == 0 && after.held_out.queue.len() == 0
        }),
        d.phase == Phase::PostKex ==> ({
            let (after, r) = d.advance(now, true, Some(session_id));
            &&& r == Ok::<_, Error>(d.held_out.queue)
            &&& after.phase == Phase::PostKex
            &&& after.session_id == d.session_id
            &&& after.last_kex == Some(now)
            &&& after.events == d.events + app_events(d.held_in.queue)
            &&& after.held_in.queue.len() == 0 && after.held_out.queue.len() == 0
        }),
        d.advance(now, false, Some(session_id)) == (d, Ok::<Seq<Seq<u8>>, Error>(Seq::empty())),
        forall|i: int|
            0 <= i < d.held_in.queue.len() ==> (#[trigger] app_events(d.held_in.queue)[i])
                == EventView::AppData(d.held_in.queue[i]),
{
    assert(d.events + seq![EventView::HandshakeComplete] =~= d.events.push(
        EventView::HandshakeComplete,
    ));
}

/// What the clock asks for: nothing while keys are exchanged; a re-key that is
/// due; a probe after an interval of silence, unless as many as may have gone
/// unanswered; and nothing before that, or where no probes are wanted.
pub proof fn lemma_what_the_clock_asks_for(
    d: DriverView,
    now: u128,
    rekey_due: bool,
    interval: u128,
    count_max: u32,
)
    requires
        now >= d.last_activity,
    ensures
        d.timeout(now, true, rekey_due) == (d, Ok::<_, Error>(Timer::Nothing)),
        d.last_kex is Some && rekey_due ==> d.timeout(now, false, rekey_due) == (
            d,
            Ok::<_, Error>(Timer::Rekey),
        ),
        d.last_kex is None ==> d.timeout(now, false, true) == d.timeout(now, false, false),
        d.keepalive is None && !rekey_due ==> d.timeout(now, false, rekey_due) == (
            d,
            Ok::<_, Error>(Timer::Nothing),
        ),
        d.keepalive == Some((interval, count_max)) && !rekey_due ==> ({
            let (after, r) = d.timeout(now, false, rekey_due);
            let silent = now - d.last_activity >= interval;
            &&& !silent ==> after == d && r == Ok::<_, Error>(Timer::Nothing)
            &&& silent && d.missed_keepalives >= count_max ==> r is Err
            &&& silent && d.missed_keepalives < count_max ==> r == Ok::<_, Error>(Timer::Probe)
                && after.missed_keepalives == d.missed_keepalives + 1 && after.last_activity == now
        }),
{
}

/// The first line that begins with `SSH-` is the identification, and what is
/// behind it is left; a line that does not is skipped and counted.
pub proof fn lemma_identification_is_the_first_such_line(
    banner: BannerView,
    text: Seq<u8>,
    rest: Seq<u8>,
)
    requires
        !text.contains(10u8),
        banner.total + text.len() + 1 <= 64 * 1024,
        super::scan::MAX_BANNER_TOTAL_BYTES >= banner.total + text.len() + 1,
    ensures
        ({
            let line = text + seq![10u8];
            let out = banner.scan(line + rest);
            let total = (banner.total + line.len()) as nat;
            let names_itself = text.len() >= 4 && text[0] == 83 && text[1] == 83 && text[2] == 72
                && text[3] == 45;
            &&& names_itself ==> out.rest == rest && out.result == Ok::<_, Error>(
                ScanView::Found(line),
            ) && out.banner == (BannerView { total, ..banner })
            &&& !names_itself && banner.lines < super::scan::MAX_BANNER_LINES ==> out == (
            BannerView { lines: banner.lines + 1, total }).scan(rest)
            &&& !names_itself && banner.lines >= super::scan::MAX_BANNER_LINES ==> out.result is Err
        }),
{
    let line = text + seq![10u8];
    let s = line + rest;
    lemma_first_end(text, rest);
    assert(s =~= text + seq![10u8] + rest);
    assert(s.take(text.len() as int + 1) =~= line);
    assert(s.skip(text.len() as int + 1) =~= rest);
    if text.len() >= 4 {
        assert(line[0] == text[0] && line[1] == text[1] && line[2] == text[2] && line[3]
            == text[3]);
    } else if text.len() == 3 {
        assert(line[3] == 10);
    }
}

proof fn lemma_first_end(text: Seq<u8>, rest: Seq<u8>)
    requires
        !text.contains(10u8),
    ensures
        line_end(text + seq![10u8] + rest) == Some(text.len()),
    decreases text.len(),
{
    let s = text + seq![10u8] + rest;
    if text.len() > 0 {
        assert(text.contains(text[0]));
        let t = text.skip(1);
        assert forall|b: u8| t.contains(b) implies text.contains(b) by {
            let k = choose|k: int| 0 <= k < t.len() && t[k] == b;
            assert(text[k + 1] == b);
        }
        lemma_first_end(t, rest);
        assert(s.skip(1) =~= t + seq![10u8] + rest);
    }
}

/// Bytes from the wire are kept in their order, none of them lost, and too many
/// of them end the connection.
pub proof fn lemma_input_is_kept(d: DriverView, bytes: Seq<u8>)
    requires
        d.phase != Phase::AwaitingVersion,
    ensures
        d.input(bytes).0.inbox == d.inbox + bytes,
        d.input(bytes).1 is Err <==> d.inbox.len() + bytes.len() > 8 * 1024 * 1024,
{
}

/// What an authentication comes to: what the engine wants sent is sent, success
/// and refusal end it at once, and anything else goes on for 64 steps at most.
pub proof fn lemma_authentication_ends(steps: nat, step: AuthStep)
    ensures
        ({
            let (send, next) = auth_outcome(steps, step);
            &&& match step {
                AuthStep::Send(payload) => send == seq![payload@],
                _ => send.len() == 0,
            }
            &&& step is Success ==> next is Done
            &&& step is Failed ==> next == Next::Failed(Error::AuthFailed)
            &&& !(step is Success) && !(step is Failed) && steps < 63 ==> next is Wait
            &&& !(step is Success) && !(step is Failed) && steps >= 63 ==> next is Failed
        }),
{
}

/// A client's calls send what its channels make of them, and leave the rest of
/// the client alone.
pub proof fn lemma_calls_send_what_the_channels_make(
    s: ClientDriverView,
    kind: ChannelOpenView,
    channel: u32,
    data: Seq<u8>,
    n: u32,
)
    ensures
        ({
            let (after, r) = s.open_channel(kind, false);
            let (conn, id, payload) = s.conn.open(kind);
            &&& r == Ok::<_, Error>(id)
            &&& after.conn == conn && after.auth == s.auth
            &&& after.outbox == s.outbox + seq![payload]
        }),
        s.conn.send_data(channel, data) matches Ok((conn, payload, took)) ==> ({
            let (after, r) = s.send_data(channel, data, false);
            &&& r == Ok::<_, Error>(took)
            &&& after.conn == conn && after.auth == s.auth
            &&& after.outbox == s.outbox + seq![payload]
        }),
        s.conn.replenish_window(channel, n) matches Ok((conn, adjust)) ==> ({
            let (after, r) = s.replenish(channel, n, false);
            &&& r is Ok
            &&& after.conn == conn
            &&& after.outbox == match adjust {
                Some(payload) => s.outbox + seq![payload],
                None => s.outbox,
            }
        }),
{
    let payload = s.conn.open(kind).2;
    assert(s.outbox + seq![payload] =~= s.outbox.push(payload));
    if let Ok((_, payload, _)) = s.conn.send_data(channel, data) {
        assert(s.outbox + seq![payload] =~= s.outbox.push(payload));
    }
    if let Ok((_, Some(payload))) = s.conn.replenish_window(channel, n) {
        assert(s.outbox + seq![payload] =~= s.outbox.push(payload));
    }
}

/// Events come out in the order in which they came in: the handshake as itself,
/// and a payload as one for the authentication while that runs, and as what it
/// does to the channels once the peer has let us in.
pub proof fn lemma_events_come_out_in_order(s: ClientDriverView)
    requires
        s.driver.events.len() > 0,
    ensures
        ({
            let (after, r) = s.next_event();
            &&& after.driver.events == s.driver.events.skip(1)
            &&& s.driver.events[0] is HandshakeComplete ==> r == Ok::<_, Error>(
                Some(ClientEventView::HandshakeComplete),
            )
            &&& s.driver.events[0] matches EventView::AppData(payload) ==> ({
                &&& s.auth == AuthPhase::Running ==> r == Ok::<_, Error>(
                    Some(ClientEventView::AuthPacket(payload)),
                )
                &&& s.auth == AuthPhase::Established ==> match s.conn.on_packet(payload) {
                    Ok((conn, event)) => after.conn == conn && r == Ok::<_, Error>(
                        Some(ClientEventView::Channel(event)),
                    ),
                    Err(e) => r == Err::<Option<ClientEventView>, _>(e),
                }
            })
        }),
        s.driver.events.len() == 0 ==> s.next_event() == (
            s,
            Ok::<Option<ClientEventView>, Error>(None),
        ),
{
}

/// What a driver says stands for itself: its events, and where payloads belong.
pub proof fn lemma_outcomes_stand_for_themselves(e: Event, r: Route, i: Input, c: ClientEvent)
    ensures
        match e {
            Event::HandshakeComplete => e@ is HandshakeComplete,
            Event::AppData(payload) => e@ == EventView::AppData(payload@),
        },
        match r {
            Route::Nothing => r@ is Nothing,
            Route::Reply(payload) => r@ == RouteView::Reply(payload@),
            Route::ExtInfo => r@ is ExtInfo,
            Route::Kex { restart } => r@ == (RouteView::Kex { restart }),
            Route::App => r@ is App,
        },
        match i {
            Input::More => i@ is More,
            Input::Version(line) => i@ == InputView::Version(line@),
            Input::Packets => i@ is Packets,
        },
        match c {
            ClientEvent::HandshakeComplete => c@ is HandshakeComplete,
            ClientEvent::AuthPacket(payload) => c@ == ClientEventView::AuthPacket(payload@),
            ClientEvent::AuthSuccess => c@ is AuthSuccess,
            ClientEvent::AuthFailure => c@ is AuthFailure,
            ClientEvent::AuthBanner { message, language } => c@ == (ClientEventView::AuthBanner {
                message: message@,
                language: language@,
            }),
            ClientEvent::Channel(event) => c@ == ClientEventView::Channel(event@),
        },
{
}

/// What a client makes of its authentication: what the engine wants sent goes out
/// behind what waits already, success lets the channels in, failure ends the
/// attempt, and what the server says to the user is told as it is.
pub proof fn lemma_authentication_of_a_client(
    s: ClientDriverView,
    payload: Vec<u8>,
    message: String,
    language: String,
)
    requires
        s.auth == AuthPhase::Running,
    ensures
        ({
            let (after, r) = s.on_auth_step(AuthStep::Send(payload), false);
            &&& r == Ok::<Option<ClientEventView>, Error>(None)
            &&& after.outbox == s.outbox + seq![payload@]
            &&& after.auth == s.auth && after.conn == s.conn
        }),
        ({
            let (after, r) = s.on_auth_step(AuthStep::Success, false);
            &&& r == Ok::<_, Error>(Some(ClientEventView::AuthSuccess))
            &&& after == (ClientDriverView { auth: AuthPhase::Established, ..s })
        }),
        ({
            let (after, r) = s.on_auth_step(AuthStep::Failed, false);
            &&& r == Ok::<_, Error>(Some(ClientEventView::AuthFailure))
            &&& after == (ClientDriverView { auth: AuthPhase::Refused, ..s })
        }),
        s.on_auth_step(AuthStep::Banner { message, language }, false) == (
            s,
            Ok::<_, Error>(
                Some(ClientEventView::AuthBanner { message: message@, language: language@ }),
            ),
        ),
        s.on_auth_step(AuthStep::Idle, false) == (s, Ok::<Option<ClientEventView>, Error>(None)),
{
    assert(s.outbox + seq![payload@] =~= s.outbox.push(payload@));
}

/// Until the first keys are in use, PINGs are not answered, and what may be
/// ignored is dropped unless the exchange is a strict one.
pub proof fn lemma_before_the_first_keys(
    d: DriverView,
    payload: Seq<u8>,
    now: u128,
    status: KexStatus,
)
    requires
        payload.len() > 0,
        d.phase == Phase::Kex,
    ensures
        ({
            let b = payload[0];
            let r = d.route(payload, now, status).1;
            &&& b == 2 || b == 3 || b == 4 || b == 192 || b == 193 ==> (if status.strict {
                r is Err
            } else {
                r == Ok::<_, Error>(RouteView::Nothing)
            })
            &&& b == 1 ==> r is Err
            &&& 20 <= b <= 49 ==> r == Ok::<_, Error>(
                RouteView::Kex { restart: b == 20 && !status.kexing },
            )
        }),
{
}

/// A connection starts with nothing known of the peer, nothing held back, and no
/// timers but the clock.
pub proof fn lemma_connections_start_clean(now: u128)
    ensures
        ({
            let d = DriverView::fresh(now);
            &&& d.phase == Phase::AwaitingVersion
            &&& d.inbox.len() == 0 && d.events.len() == 0
            &&& d.held_in.queue.len() == 0 && d.held_in.bytes == 0
            &&& d.held_out.queue.len() == 0 && d.held_out.bytes == 0
            &&& d.banner.lines == 0 && d.banner.total == 0
            &&& d.peer_version.len() == 0 && d.session_id.len() == 0
            &&& d.last_kex is None && d.keepalive is None
            &&& d.last_activity == now && d.missed_keepalives == 0
        }),
{
}

} // verus!
