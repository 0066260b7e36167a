//! What holds of the connection protocol as a whole: what one side sends, the
//! other side understands; the windows of the two sides stay in step; and the
//! table of channels stays in order.

use super::global::{lemma_global_round_trip, GlobalRequestView};
use super::model::{
    adjust_payload, confirm_payload, data_payload, extended_payload, global_payload, id_payload,
    is_next_free, open_payload, reject_payload, request_payload, share, steps, window_sum,
    ChannelView, ConnectionView, EventView,
};
use super::msg::{
    MSG_CHANNEL_CLOSE, MSG_CHANNEL_EOF, MSG_CHANNEL_FAILURE, MSG_CHANNEL_SUCCESS,
    MSG_REQUEST_FAILURE, MSG_REQUEST_SUCCESS,
};
use super::open::{lemma_open_round_trip, ChannelOpenView};
use super::request::{lemma_request_round_trip, ChannelRequestView};
use super::{lemma_get_put_text, text_fits, wire_text};
use crate::error::Error;
use crate::format::{
    be32, lemma_get_put_bool, lemma_get_put_string, lemma_get_put_u32, lemma_get_put_u8, wire_bool,
    wire_string,
};
use vstd::prelude::*;

verus! {

impl ConnectionView {
    /// Every channel is tracked under its own id, none that both sides have
    /// closed is still tracked, and what is saved up to be credited is always
    /// less than what makes it be credited.
    pub open spec fn well_formed(self) -> bool {
        forall|id: u32| #[trigger]
            self.channels.contains_key(id) ==> self.channels[id].local_id == id
                && !self.channels[id].is_fully_closed() && self.channels[id].pending_replenish
                < self.channels[id].threshold()
    }
}

/// Opening a channel keeps a connection well formed.
pub proof fn lemma_open_well_formed(s: ConnectionView, kind: ChannelOpenView)
    requires
        s.well_formed(),
    ensures
        s.open(kind).0.well_formed(),
{
}

/// Whatever is done with a channel, a well-formed connection stays well
/// formed.
pub proof fn lemma_send_well_formed(
    s: ConnectionView,
    id: u32,
    data: Seq<u8>,
    code: u32,
    by: u32,
    reason: u32,
    description: Seq<char>,
    language: Seq<char>,
)
    requires
        s.well_formed(),
    ensures
        s.accept_open(id) matches Ok((t, _)) ==> t.well_formed(),
        s.reject_open(id, reason, description, language) matches Ok((t, _)) ==> t.well_formed(),
        s.send_data(id, data) matches Ok((t, _, _)) ==> t.well_formed(),
        s.send_extended_data(id, code, data) matches Ok((t, _, _)) ==> t.well_formed(),
        s.send_eof(id) matches Ok((t, _)) ==> t.well_formed(),
        s.send_close(id) matches Ok((t, _)) ==> t.well_formed(),
        s.replenish_window(id, by) matches Ok((t, _)) ==> t.well_formed(),
{
    if s.channels.contains_key(id) {
        assert(s.channels[id].local_id == id);
    }
}

/// Whatever packet arrives, a well-formed connection stays well formed.
pub proof fn lemma_on_packet_well_formed(s: ConnectionView, payload: Seq<u8>)
    requires
        s.well_formed(),
    ensures
        s.on_packet(payload) matches Ok((t, _)) ==> t.well_formed(),
{
}

/// A channel that both sides have closed is no longer tracked: whichever side
/// closes last, the entry goes.
pub proof fn lemma_closed_channel_is_dropped(s: ConnectionView, id: u32)
    requires
        s.channels.contains_key(id),
    ensures
        s.channels[id].remote_closed && !s.channels[id].local_closed ==> (s.send_close(
            id,
        ) matches Ok((t, _)) && !t.channels.contains_key(id)),
        s.channels[id].local_closed ==> (s.on_packet(
            id_payload(MSG_CHANNEL_CLOSE, id),
        ) matches Ok((t, _)) && !t.channels.contains_key(id)),
{
    lemma_id_message(s, MSG_CHANNEL_CLOSE, id);
}

/// After we have sent EOF, or either side has closed, no data can be sent;
/// after we have closed, nothing at all but replies.
pub proof fn lemma_no_data_after_the_end(
    s: ConnectionView,
    id: u32,
    data: Seq<u8>,
    code: u32,
    by: u32,
)
    requires
        s.channels.contains_key(id),
    ensures
        s.channels[id].local_eof || s.channels[id].local_closed || s.channels[id].remote_closed
            ==> s.send_data(id, data) is Err && s.send_extended_data(id, code, data) is Err,
        s.channels[id].local_closed ==> s.send_eof(id) is Err && s.send_close(id) is Err
            && s.replenish_window(id, by) is Err,
        s.send_eof(id) matches Ok((t, _)) ==> t.send_data(id, data) is Err,
        s.send_close(id) matches Ok((t, _)) ==> t.send_data(id, data) is Err && t.send_close(
            id,
        ) is Err,
{
}

/// Data is paid for from the peer's window byte by byte, and one message
/// never exceeds the peer's window or its maximum packet, header counted.
pub proof fn lemma_data_respects_flow_control(
    s: ConnectionView,
    id: u32,
    data: Seq<u8>,
    code: u32,
)
    requires
        s.channels.contains_key(id),
    ensures
        s.send_data(id, data) matches Ok((t, payload, n)) ==> {
            &&& 0 <= n <= data.len()
            &&& t.channels[id].remote_window + n == s.channels[id].remote_window
            &&& n > 0 ==> n + 9 <= s.channels[id].remote_max_packet
            &&& n < data.len() ==> n == s.channels[id].remote_window || n + 9
                == s.channels[id].remote_max_packet || s.channels[id].remote_max_packet < 9
        },
        s.send_extended_data(id, code, data) matches Ok((t, payload, n)) ==> {
            &&& 0 <= n <= data.len()
            &&& t.channels[id].remote_window + n == s.channels[id].remote_window
            &&& n > 0 ==> n + 13 <= s.channels[id].remote_max_packet
        },
{
}

/// Received bytes are credited back exactly once: what is advertised plus
/// what is saved up grows by the number of bytes reported, as long as no
/// 32-bit window overflows; and a window adjustment announces exactly what
/// our own window grew by.
pub proof fn lemma_replenish_conserves(s: ConnectionView, id: u32, by: u32)
    requires
        s.channels.contains_key(id),
        s.channels[id].local_window + s.channels[id].pending_replenish + by <= u32::MAX,
    ensures
        s.replenish_window(id, by) matches Ok((t, adjust)) ==> {
            &&& t.channels[id].local_window + t.channels[id].pending_replenish
                == s.channels[id].local_window + s.channels[id].pending_replenish + by
            &&& adjust matches Some(p) ==> p == adjust_payload(
                s.channels[id].remote_id,
                (t.channels[id].local_window - s.channels[id].local_window) as u32,
            )
            &&& adjust is None ==> t.channels[id].local_window == s.channels[id].local_window
        },
{
}

/// From `cur` on, where everything between `next` and `cur` is taken and
/// `free` is not, some id is the first free one.
proof fn lemma_next_free_from(m: Map<u32, ChannelView>, next: u32, cur: u32, free: u32)
    requires
        !m.contains_key(free),
        steps(next, cur) + steps(cur, free) == steps(next, free),
        forall|i: u32| #![trigger m.contains_key(i)]
            steps(next, i) < steps(next, cur) ==> m.contains_key(i),
    ensures
        exists|id: u32| is_next_free(m, next, id),
    decreases steps(cur, free),
{
    if !m.contains_key(cur) {
        assert(is_next_free(m, next, cur));
    } else {
        let after: u32 = if cur == u32::MAX {
            0
        } else {
            (cur + 1) as u32
        };
        lemma_next_free_from(m, next, after, free);
    }
}

/// As long as there is room, a new channel gets an id, and never that of a
/// tracked one.
pub proof fn lemma_fresh_id_is_fresh(s: ConnectionView)
    requires
        s.channels.dom().finite(),
        s.has_room(),
    ensures
        is_next_free(s.channels, s.next_local_id, s.fresh_id()),
        !s.channels.contains_key(s.fresh_id()),
{
    super::state::lemma_free_id_exists(s.channels);
    let free = choose|id: u32| !s.channels.contains_key(id);
    lemma_next_free_from(s.channels, s.next_local_id, s.next_local_id, free);
}

/// What an open announces, the other side sees: the same kind of channel, and
/// our id, window and maximum packet recorded for it.
#[verifier::spinoff_prover]
#[verifier::rlimit(40)]
pub proof fn lemma_open_is_understood(s: ConnectionView, t: ConnectionView, kind: ChannelOpenView)
    requires
        kind.encodable(),
        text_fits(kind.kind()),
    ensures
        t.on_packet(s.open(kind).2) == Ok::<(ConnectionView, EventView), Error>(
            (
                t.with_new(
                    s.fresh_id(),
                    s.default_window,
                    s.default_max_packet,
                    kind.kind(),
                ),
                EventView::OpenRequest { channel: t.fresh_id(), kind },
            ),
        ),
{
    let id = s.fresh_id();
    let t4 = kind.body();
    let t3 = be32(s.default_max_packet) + t4;
    let t2 = be32(s.default_window) + t3;
    let t1 = be32(id) + t2;
    let t0 = wire_text(kind.kind()) + t1;
    let payload = open_payload(kind, id, s.default_window, s.default_max_packet);
    assert(payload =~= seq![super::msg::MSG_CHANNEL_OPEN] + t0);
    lemma_get_put_u8(super::msg::MSG_CHANNEL_OPEN, t0);
    lemma_get_put_text(kind.kind(), t1, "invalid utf-8");
    lemma_get_put_u32(id, t2);
    lemma_get_put_u32(s.default_window, t3);
    lemma_get_put_u32(s.default_max_packet, t4);
    lemma_open_round_trip(kind);
}

/// What an acceptance announces, the opening side sees: its channel is open
/// and holds the other side's id, window and maximum packet.
#[verifier::spinoff_prover]
#[verifier::rlimit(40)]
pub proof fn lemma_accept_is_understood(s: ConnectionView, t: ConnectionView, id: u32)
    requires
        s.accept_open(id) is Ok,
        ({
            let peer = s.channels[id].remote_id;
            t.channels.contains_key(peer) && !t.channels[peer].open_confirmed
        }),
    ensures
        ({
            let ch = s.channels[id];
            let peer = ch.remote_id;
            t.on_packet(s.accept_open(id)->Ok_0.1) == Ok::<(ConnectionView, EventView), Error>(
                (
                    t.with(
                        peer,
                        ChannelView {
                            remote_id: id,
                            remote_window: ch.local_window,
                            remote_max_packet: ch.local_max_packet,
                            open_confirmed: true,
                            ..t.channels[peer]
                        },
                    ),
                    EventView::OpenConfirmed { channel: peer },
                ),
            )
        }),
{
    let ch = s.channels[id];
    let t4 = Seq::<u8>::empty();
    let t3 = be32(ch.local_max_packet) + t4;
    let t2 = be32(ch.local_window) + t3;
    let t1 = be32(id) + t2;
    let t0 = be32(ch.remote_id) + t1;
    let payload = confirm_payload(ch.remote_id, id, ch.local_window, ch.local_max_packet);
    assert(payload =~= seq![super::msg::MSG_CHANNEL_OPEN_CONFIRMATION] + t0);
    lemma_get_put_u8(super::msg::MSG_CHANNEL_OPEN_CONFIRMATION, t0);
    lemma_get_put_u32(ch.remote_id, t1);
    lemma_get_put_u32(id, t2);
    lemma_get_put_u32(ch.local_window, t3);
    lemma_get_put_u32(ch.local_max_packet, t4);
}

/// What a refusal announces, the opening side sees: reason and description,
/// and its channel is gone.
#[verifier::spinoff_prover]
#[verifier::rlimit(40)]
pub proof fn lemma_reject_is_understood(
    s: ConnectionView,
    t: ConnectionView,
    id: u32,
    reason: u32,
    description: Seq<char>,
    language: Seq<char>,
)
    requires
        s.reject_open(id, reason, description, language) is Ok,
        t.channels.contains_key(s.channels[id].remote_id),
        text_fits(description),
        text_fits(language),
    ensures
        ({
            let peer = s.channels[id].remote_id;
            t.on_packet(s.reject_open(id, reason, description, language)->Ok_0.1) == Ok::<
                (ConnectionView, EventView),
                Error,
            >((t.without(peer), EventView::OpenFailed { channel: peer, reason, description }))
        }),
{
    let peer = s.channels[id].remote_id;
    let t3 = Seq::<u8>::empty();
    let t2 = wire_text(language) + t3;
    let t1 = wire_text(description) + t2;
    let t0 = be32(reason) + t1;
    let body = be32(peer) + t0;
    assert(reject_payload(peer, reason, description, language)
        =~= seq![super::msg::MSG_CHANNEL_OPEN_FAILURE] + body);
    lemma_get_put_u8(super::msg::MSG_CHANNEL_OPEN_FAILURE, body);
    lemma_get_put_u32(peer, t0);
    lemma_get_put_u32(reason, t1);
    lemma_get_put_text(description, t2, "invalid utf-8 in open-failure description");
    lemma_get_put_string(vstd::utf8::encode_utf8(language), t3);
}

/// A channel request arrives as it was sent.
#[verifier::spinoff_prover]
#[verifier::rlimit(40)]
pub proof fn lemma_request_is_understood(
    s: ConnectionView,
    t: ConnectionView,
    id: u32,
    req: ChannelRequestView,
    want_reply: bool,
)
    requires
        s.send_request(id, req, want_reply) is Ok,
        t.channels.contains_key(s.channels[id].remote_id),
        req.encodable(),
        text_fits(req.name()),
    ensures
        t.on_packet(s.send_request(id, req, want_reply)->Ok_0) == Ok::<
            (ConnectionView, EventView),
            Error,
        >(
            (
                t,
                EventView::Request {
                    channel: s.channels[id].remote_id,
                    request: req,
                    want_reply,
                },
            ),
        ),
{
    let peer = s.channels[id].remote_id;
    let t2 = req.body();
    let t1 = wire_bool(want_reply) + t2;
    let t0 = wire_text(req.name()) + t1;
    let body = be32(peer) + t0;
    assert(request_payload(peer, req, want_reply) =~= seq![super::msg::MSG_CHANNEL_REQUEST] + body);
    lemma_get_put_u8(super::msg::MSG_CHANNEL_REQUEST, body);
    lemma_get_put_u32(peer, t0);
    lemma_get_put_text(req.name(), t1, "invalid utf-8");
    lemma_get_put_bool(want_reply, t2);
    lemma_request_round_trip(req);
}

/// A global request arrives as it was sent.
#[verifier::spinoff_prover]
#[verifier::rlimit(40)]
pub proof fn lemma_global_is_understood(
    t: ConnectionView,
    req: GlobalRequestView,
    want_reply: bool,
)
    requires
        req.encodable(),
        text_fits(req.name()),
    ensures
        t.on_packet(global_payload(req, want_reply)) == Ok::<(ConnectionView, EventView), Error>(
            (t, EventView::GlobalRequest { request: req, want_reply }),
        ),
{
    let t2 = req.body();
    let t1 = wire_bool(want_reply) + t2;
    let t0 = wire_text(req.name()) + t1;
    assert(global_payload(req, want_reply) =~= seq![super::msg::MSG_GLOBAL_REQUEST] + t0);
    lemma_get_put_u8(super::msg::MSG_GLOBAL_REQUEST, t0);
    lemma_get_put_text(req.name(), t1, "invalid utf-8");
    lemma_get_put_bool(want_reply, t2);
    lemma_global_round_trip(req);
}

/// The replies to a global request arrive as they were sent.
pub proof fn lemma_global_reply_is_understood(t: ConnectionView, data: Seq<u8>)
    ensures
        t.on_packet(seq![MSG_REQUEST_SUCCESS] + data) == Ok::<(ConnectionView, EventView), Error>(
            (t, EventView::GlobalSuccess { data }),
        ),
        t.on_packet(seq![MSG_REQUEST_FAILURE]) == Ok::<(ConnectionView, EventView), Error>(
            (t, EventView::GlobalFailure),
        ),
{
    lemma_get_put_u8(MSG_REQUEST_SUCCESS, data);
    lemma_get_put_u8(MSG_REQUEST_FAILURE, Seq::empty());
    assert(seq![MSG_REQUEST_FAILURE] + Seq::<u8>::empty() =~= seq![MSG_REQUEST_FAILURE]);
}

/// A message of just a channel id is read as that id.
proof fn lemma_id_message(t: ConnectionView, msg: u8, id: u32)
    ensures
        crate::format::get_u8(id_payload(msg, id)) == Some((msg, be32(id))),
        crate::format::get_u32(be32(id)) == Some((id, Seq::<u8>::empty())),
{
    lemma_get_put_u8(msg, be32(id));
    lemma_get_put_u32(id, Seq::empty());
    assert(be32(id) + Seq::<u8>::empty() =~= be32(id));
}

/// EOF, CLOSE and the replies to channel requests reach the channel that they
/// are about.
pub proof fn lemma_signals_are_understood(t: ConnectionView, id: u32)
    requires
        t.channels.contains_key(id),
    ensures
        t.on_packet(id_payload(MSG_CHANNEL_EOF, id)) == Ok::<(ConnectionView, EventView), Error>(
            (
                t.with(id, ChannelView { remote_eof: true, ..t.channels[id] }),
                EventView::Eof { channel: id },
            ),
        ),
        t.on_packet(id_payload(MSG_CHANNEL_CLOSE, id)) == Ok::<(ConnectionView, EventView), Error>(
            (
                t.with_or_dropped(id, ChannelView { remote_closed: true, ..t.channels[id] }),
                EventView::Close { channel: id },
            ),
        ),
        t.on_packet(id_payload(MSG_CHANNEL_SUCCESS, id)) == Ok::<
            (ConnectionView, EventView),
            Error,
        >((t, EventView::Success { channel: id })),
        t.on_packet(id_payload(MSG_CHANNEL_FAILURE, id)) == Ok::<
            (ConnectionView, EventView),
            Error,
        >((t, EventView::Failure { channel: id })),
{
    lemma_id_message(t, MSG_CHANNEL_EOF, id);
    lemma_id_message(t, MSG_CHANNEL_CLOSE, id);
    lemma_id_message(t, MSG_CHANNEL_SUCCESS, id);
    lemma_id_message(t, MSG_CHANNEL_FAILURE, id);
}

/// The sender believes no more of the receiver's window and maximum packet
/// than the receiver grants.
pub open spec fn in_step(sender: ChannelView, receiver: ChannelView) -> bool {
    &&& sender.remote_id == receiver.local_id
    &&& sender.remote_window <= receiver.local_window
    &&& sender.remote_max_packet <= receiver.local_max_packet
}

/// Data arrives as it was sent: the receiver gets exactly the bytes that the
/// sender counted, never complains about its window or maximum packet, and
/// the two sides are in step again afterwards.
pub proof fn lemma_data_is_delivered(s: ConnectionView, t: ConnectionView, id: u32, data: Seq<u8>)
    requires
        s.send_data(id, data) is Ok,
        t.channels.contains_key(s.channels[id].remote_id),
        in_step(s.channels[id], t.channels[s.channels[id].remote_id]),
        !t.channels[s.channels[id].remote_id].remote_eof,
        !t.channels[s.channels[id].remote_id].remote_closed,
    ensures
        ({
            let peer = s.channels[id].remote_id;
            let (s2, payload, n) = s.send_data(id, data)->Ok_0;
            &&& t.on_packet(payload) matches Ok((t2, event))
            &&& event == (EventView::Data { channel: peer, data: data.take(n) })
            &&& in_step(s2.channels[id], t2.channels[peer])
        }),
{
    let peer = s.channels[id].remote_id;
    let n = share(data.len(), s.channels[id].capacity(9));
    let chunk = data.take(n);
    let t0 = wire_string(chunk) + Seq::<u8>::empty();
    let body = be32(peer) + t0;
    assert(data_payload(peer, chunk) =~= seq![super::msg::MSG_CHANNEL_DATA] + body);
    lemma_get_put_u8(super::msg::MSG_CHANNEL_DATA, body);
    lemma_get_put_u32(peer, t0);
    lemma_get_put_string(chunk, Seq::empty());
}

/// The same for extended data, whose type code arrives too.
pub proof fn lemma_extended_data_is_delivered(
    s: ConnectionView,
    t: ConnectionView,
    id: u32,
    code: u32,
    data: Seq<u8>,
)
    requires
        s.send_extended_data(id, code, data) is Ok,
        t.channels.contains_key(s.channels[id].remote_id),
        in_step(s.channels[id], t.channels[s.channels[id].remote_id]),
        !t.channels[s.channels[id].remote_id].remote_eof,
        !t.channels[s.channels[id].remote_id].remote_closed,
    ensures
        ({
            let peer = s.channels[id].remote_id;
            let (s2, payload, n) = s.send_extended_data(id, code, data)->Ok_0;
            &&& t.on_packet(payload) matches Ok((t2, event))
            &&& event == (EventView::ExtendedData { channel: peer, code, data: data.take(n) })
            &&& in_step(s2.channels[id], t2.channels[peer])
        }),
{
    let peer = s.channels[id].remote_id;
    let n = share(data.len(), s.channels[id].capacity(13));
    let chunk = data.take(n);
    let t1 = wire_string(chunk) + Seq::<u8>::empty();
    let t0 = be32(code) + t1;
    let body = be32(peer) + t0;
    assert(extended_payload(peer, code, chunk) =~= seq![super::msg::MSG_CHANNEL_EXTENDED_DATA]
        + body);
    lemma_get_put_u8(super::msg::MSG_CHANNEL_EXTENDED_DATA, body);
    lemma_get_put_u32(peer, t0);
    lemma_get_put_u32(code, t1);
    lemma_get_put_string(chunk, Seq::empty());
}

/// A window adjustment gives the sender exactly what the receiver granted,
/// and leaves the two sides in step.
pub proof fn lemma_adjust_is_understood(s: ConnectionView, t: ConnectionView, id: u32, by: u32)
    requires
        t.channels.contains_key(id),
        t.replenish_window(id, by) matches Ok((_, Some(_))),
        s.channels.contains_key(t.channels[id].remote_id),
        in_step(s.channels[t.channels[id].remote_id], t.channels[id]),
    ensures
        ({
            let peer = t.channels[id].remote_id;
            let saved = window_sum(t.channels[id].pending_replenish, by);
            let t2 = t.replenish_window(id, by)->Ok_0.0;
            let payload = t.replenish_window(id, by)->Ok_0.1->Some_0;
            &&& s.on_packet(payload) matches Ok((s2, event))
            &&& event == (EventView::WindowAdjust { channel: peer, added: saved })
            &&& s2.channels[peer].remote_window == window_sum(
                s.channels[peer].remote_window,
                saved,
            )
            &&& in_step(s2.channels[peer], t2.channels[id])
        }),
{
    let peer = t.channels[id].remote_id;
    let saved = window_sum(t.channels[id].pending_replenish, by);
    let t0 = be32(saved) + Seq::<u8>::empty();
    let body = be32(peer) + t0;
    assert(adjust_payload(peer, saved) =~= seq![super::msg::MSG_CHANNEL_WINDOW_ADJUST] + body);
    lemma_get_put_u8(super::msg::MSG_CHANNEL_WINDOW_ADJUST, body);
    lemma_get_put_u32(peer, t0);
    lemma_get_put_u32(saved, Seq::empty());
}

/// Opening and accepting a channel puts the two sides in step, in both
/// directions.
pub proof fn lemma_open_and_accept_in_step(
    s: ConnectionView,
    t: ConnectionView,
    kind: ChannelOpenView,
)
    requires
        kind.encodable(),
        text_fits(kind.kind()),
    ensures
        ({
            let (s1, a, opening) = s.open(kind);
            let (t1, event) = t.on_packet(opening)->Ok_0;
            let b = t.fresh_id();
            let (t2, confirm) = t1.accept_open(b)->Ok_0;
            let (s2, _) = s1.on_packet(confirm)->Ok_0;
            &&& t.on_packet(opening) is Ok
            &&& event == (EventView::OpenRequest { channel: b, kind })
            &&& t1.accept_open(b) is Ok
            &&& s1.on_packet(confirm) is Ok
            &&& s2.channels[a].is_open()
            &&& t2.channels[b].is_open()
            &&& in_step(s2.channels[a], t2.channels[b])
            &&& in_step(t2.channels[b], s2.channels[a])
        }),
{
    lemma_open_is_understood(s, t, kind);
    let (s1, a, opening) = s.open(kind);
    let (t1, event) = t.on_packet(opening)->Ok_0;
    lemma_accept_is_understood(t1, s1, t.fresh_id());
}

} // verus!
