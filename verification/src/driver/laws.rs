//! Laws of the drivers: what a re-key does to traffic, and what keeps a
//! connection alive.

use super::{
    app_events, DriverView, HeldView, KexStatus, Phase, RouteView, Timer, MAX_DEFERRED_IN_BYTES,
};
use crate::error::Error;
use crate::transport::rekey::kex_message;
use vstd::prelude::*;

verus! {

/// A payload that is for the application, whenever it arrives.
pub open spec fn is_app_data(payload: Seq<u8>) -> bool {
    payload.len() > 0 && 50 <= payload[0] < 192
}

/// The driver after a run of payloads, all of which arrived while a key
/// exchange was in flight that the peer did not know of; `None` if one of
/// them ended the connection.
pub open spec fn after_all(d: DriverView, payloads: Seq<Seq<u8>>, now: u128, status: KexStatus)
    -> Option<DriverView>
    decreases payloads.len(),
{
    if payloads.len() == 0 {
        Some(d)
    } else {
        match after_all(d, payloads.drop_last(), now, status) {
            None => None,
            Some(before) => match before.route(payloads.last(), now, status) {
                (after, Ok(_)) => Some(after),
                (_, Err(_)) => None,
            },
        }
    }
}

/// Application data that the peer sent before it knew of a re-key is held
/// back while the re-key is in flight, and reaches the application when it is
/// over: all of it, in order, after everything that came before.
pub proof fn lemma_deferred_data_is_replayed(
    d: DriverView,
    payloads: Seq<Seq<u8>>,
    now: u128,
    status: KexStatus,
    done: u128,
    session_id: Option<Seq<u8>>,
)
    requires
        d.phase == Phase::PostKex,
        d.held_in.queue.len() == 0,
        status.kexing,
        !status.peer_kexinit_seen,
        forall|i: int| 0 <= i < payloads.len() ==> is_app_data(#[trigger] payloads[i]),
        after_all(d, payloads, now, status) is Some,
    ensures
        ({
            let waiting = after_all(d, payloads, now, status)->0;
            let (after, sent) = waiting.advance(done, true, session_id);
            &&& waiting.events == d.events
            &&& waiting.held_in.queue == payloads
            &&& sent is Ok
            &&& after.events == d.events + app_events(payloads)
            &&& after.held_in == HeldView::empty()
        }),
{
    lemma_data_is_held(d, payloads, now, status);
}

/// What is held back is what arrived.
proof fn lemma_data_is_held(
    d: DriverView,
    payloads: Seq<Seq<u8>>,
    now: u128,
    status: KexStatus,
)
    requires
        d.held_in.queue.len() == 0,
        status.kexing,
        !status.peer_kexinit_seen,
        forall|i: int| 0 <= i < payloads.len() ==> is_app_data(#[trigger] payloads[i]),
        after_all(d, payloads, now, status) is Some,
    ensures
        after_all(d, payloads, now, status)->0.events == d.events,
        after_all(d, payloads, now, status)->0.held_in.queue == payloads,
        after_all(d, payloads, now, status)->0.phase == d.phase,
    decreases payloads.len(),
{
    if payloads.len() > 0 {
        let init = payloads.drop_last();
        assert forall|i: int| 0 <= i < init.len() implies is_app_data(#[trigger] init[i]) by {
            assert(init[i] == payloads[i]);
        }
        lemma_data_is_held(d, init, now, status);
        assert(is_app_data(payloads[payloads.len() - 1]));
        assert(init.push(payloads.last()) =~= payloads);
    } else {
        assert(d.held_in.queue =~= payloads);
    }
}

/// While a key exchange is in flight, nothing reaches the application,
/// whatever arrives.
pub proof fn lemma_application_waits_for_the_exchange(
    d: DriverView,
    payload: Seq<u8>,
    now: u128,
    status: KexStatus,
)
    requires
        status.kexing,
    ensures
        d.route(payload, now, status).0.events == d.events,
{
}

/// Once the peer has sent its KEXINIT, application data from it is an error:
/// it is neither delivered nor held back.
pub proof fn lemma_late_data_is_an_error(
    d: DriverView,
    payload: Seq<u8>,
    now: u128,
    status: KexStatus,
)
    requires
        status.kexing,
        status.peer_kexinit_seen,
        is_app_data(payload),
    ensures
        d.route(payload, now, status).1 == Err::<RouteView, Error>(
            Error::Protocol("non-KEX message during key re-exchange"),
        ),
        d.route(payload, now, status).0.held_in == d.held_in,
{
}

/// What is held back never exceeds its cap, whatever the peer sends.
pub proof fn lemma_held_data_is_capped(
    d: DriverView,
    payload: Seq<u8>,
    now: u128,
    status: KexStatus,
)
    requires
        d.held_in.bytes <= MAX_DEFERRED_IN_BYTES,
        d.route(payload, now, status).1 is Ok,
    ensures
        d.route(payload, now, status).0.held_in.bytes <= MAX_DEFERRED_IN_BYTES,
{
}

/// In a strict key exchange, nothing can be slipped into the first exchange:
/// a message that the exchange does not call for ends the connection.
pub proof fn lemma_strict_exchange_takes_nothing_else(
    d: DriverView,
    payload: Seq<u8>,
    now: u128,
    status: KexStatus,
)
    requires
        d.phase == Phase::Kex,
        status.strict,
        status.kexing,
        status.peer_kexinit_seen,
        !status.may_accept_ext_info,
        payload.len() > 0,
        !kex_message(payload[0]),
    ensures
        d.route(payload, now, status).1 is Err,
{
}

/// During a key exchange only the exchange's own messages and transport
/// messages go out; the rest goes out when it is over, in order.
pub proof fn lemma_held_payloads_go_out(
    d: DriverView,
    payload: Seq<u8>,
    now: u128,
    session_id: Option<Seq<u8>>,
)
    requires
        d.phase == Phase::PostKex,
        !super::passes_during_kex(payload),
        d.send(payload, true).1 is Ok,
    ensures
        d.send(payload, true).1 == Ok::<Option<Seq<u8>>, Error>(None),
        d.send(payload, true).0.advance(now, true, session_id).1 == Ok::<Seq<Seq<u8>>, Error>(
            d.held_out.queue.push(payload),
        ),
{
}

/// Any packet that does not end the connection starts the keepalive count
/// anew, so the next stretch of silence is answered with a probe.
pub proof fn lemma_any_packet_is_a_sign_of_life(
    d: DriverView,
    payload: Seq<u8>,
    heard: u128,
    status: KexStatus,
    now: u128,
    interval: u128,
    count_max: u32,
)
    requires
        d.keepalive == Some((interval, count_max)),
        count_max > 0,
        now >= heard + interval,
    ensures
        ({
            let after = d.route(payload, heard, status).0;
            &&& after.missed_keepalives == 0
            &&& after.last_activity == heard
            &&& after.timeout(now, false, false).1 == Ok::<Timer, Error>(Timer::Probe)
        }),
{
}

/// A silent peer is given up on once all its probes have gone unanswered, and
/// not before.
pub proof fn lemma_silence_ends_the_connection(
    d: DriverView,
    now: u128,
    interval: u128,
    count_max: u32,
)
    requires
        d.keepalive == Some((interval, count_max)),
        now >= d.last_activity + interval,
    ensures
        d.timeout(now, false, false).1 is Err <==> d.missed_keepalives >= count_max,
{
}

} // verus!
