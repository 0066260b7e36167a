//! The books that a connection keeps: what each packet from the peer changes in
//! them, and what each packet to the peer does. Packets are given by their
//! fields, in the order in which the bytes come.

use super::global::GlobalRequestView;
use super::layout::{begins_with_number, spells, spells_from, Field};
use super::model::{ChannelView, ConnectionView, EventView};
use super::open::ChannelOpenView;
use super::request::ChannelRequestView;
use super::state::{handled, sent};
use super::{get_text, text_fits, ChannelEvent};
use crate::error::Error;
use crate::format::{be32_value, get_bool, get_string, get_u32, get_u8};
use vstd::prelude::*;
use vstd::utf8::encode_utf8;

verus! {

/// Only channel `id` is different in `t`, and is `ch` there.
pub open spec fn only_changed(s: ConnectionView, t: ConnectionView, id: u32, ch: ChannelView) -> bool {
    &&& t.channels.contains_key(id) && t.channels[id] == ch
    &&& forall|other: u32| #![trigger t.channels.contains_key(other)]
        other != id ==> t.channels.contains_key(other) == s.channels.contains_key(other)
    &&& forall|other: u32| #![trigger t.channels[other]]
        other != id && s.channels.contains_key(other) ==> t.channels[other] == s.channels[other]
    &&& t.next_local_id == s.next_local_id
    &&& t.default_window == s.default_window
    &&& t.default_max_packet == s.default_max_packet
}

/// Channel `id` is gone in `t`, and nothing else is different.
pub open spec fn only_dropped(s: ConnectionView, t: ConnectionView, id: u32) -> bool {
    &&& !t.channels.contains_key(id)
    &&& forall|other: u32| #![trigger t.channels.contains_key(other)]
        other != id ==> t.channels.contains_key(other) == s.channels.contains_key(other)
    &&& forall|other: u32| #![trigger t.channels[other]]
        other != id && s.channels.contains_key(other) ==> t.channels[other] == s.channels[other]
    &&& t.next_local_id == s.next_local_id
    &&& t.default_window == s.default_window
    &&& t.default_max_packet == s.default_max_packet
}

proof fn lemma_changed(s: ConnectionView, id: u32, ch: ChannelView)
    ensures
        only_changed(s, s.with(id, ch), id, ch),
        only_dropped(s, s.without(id), id),
{
}

proof fn lemma_read_byte(s: Seq<u8>, fields: Seq<Field>, from: int, b: u8)
    requires
        0 <= from < fields.len(),
        fields[from] == Field::Byte(b),
        spells_from(s, fields, from),
    ensures
        get_u8(s) == Some((b, s.skip(1))),
        spells_from(s.skip(1), fields, from + 1),
{
}

proof fn lemma_read_flag(s: Seq<u8>, fields: Seq<Field>, from: int, b: bool)
    requires
        0 <= from < fields.len(),
        fields[from] == Field::Flag(b),
        spells_from(s, fields, from),
    ensures
        get_bool(s) == Some((b, s.skip(1))),
        spells_from(s.skip(1), fields, from + 1),
{
}

proof fn lemma_read_number(s: Seq<u8>, fields: Seq<Field>, from: int, v: u32)
    requires
        0 <= from < fields.len(),
        fields[from] == Field::Number(v),
        spells_from(s, fields, from),
    ensures
        get_u32(s) == Some((v, s.skip(4))),
        spells_from(s.skip(4), fields, from + 1),
{
    assert(begins_with_number(s, v));
    assert(be32_value(s[0], s[1], s[2], s[3]) == v);
}

proof fn lemma_read_bytes(s: Seq<u8>, b: Seq<u8>)
    requires
        b.len() <= u32::MAX,
        super::layout::begins_with_bytes(s, b),
    ensures
        get_string(s) == Some((b, s.skip(4 + b.len() as int))),
{
    let rest = s.skip(4);
    assert(be32_value(s[0], s[1], s[2], s[3]) == b.len() as u32);
    assert(rest.take(b.len() as int) =~= s.subrange(4, 4 + b.len() as int));
    assert(rest.skip(b.len() as int) =~= s.skip(4 + b.len() as int));
}

proof fn lemma_read_string(s: Seq<u8>, fields: Seq<Field>, from: int, b: Seq<u8>)
    requires
        0 <= from < fields.len(),
        fields[from] == Field::Bytes(b),
        b.len() <= u32::MAX,
        spells_from(s, fields, from),
    ensures
        get_string(s) == Some((b, s.skip(4 + b.len() as int))),
        spells_from(s.skip(4 + b.len() as int), fields, from + 1),
{
    lemma_read_bytes(s, b);
}

proof fn lemma_read_text(s: Seq<u8>, fields: Seq<Field>, from: int, t: Seq<char>, msg: &'static str)
    requires
        0 <= from < fields.len(),
        fields[from] == Field::Text(t),
        text_fits(t),
        spells_from(s, fields, from),
    ensures
        get_string(s) == Some((encode_utf8(t), s.skip(4 + encode_utf8(t).len() as int))),
        get_text(s, msg) == Ok::<(Seq<char>, Seq<u8>), Error>(
            (t, s.skip(4 + encode_utf8(t).len() as int)),
        ),
        spells_from(s.skip(4 + encode_utf8(t).len() as int), fields, from + 1),
{
    reveal(get_text);
    lemma_read_bytes(s, encode_utf8(t));
    vstd::utf8::encode_utf8_valid_utf8(t);
    vstd::utf8::encode_utf8_decode_utf8(t);
}

proof fn lemma_read_raw(s: Seq<u8>, fields: Seq<Field>, b: Seq<u8>)
    requires
        fields.len() > 0,
        fields[fields.len() - 1] == Field::Raw(b),
        spells_from(s, fields, fields.len() - 1),
    ensures
        s == b,
{
    reveal_with_fuel(spells_from, 2);
    assert(s.skip(b.len() as int).len() == 0);
    assert(s =~= s.take(b.len() as int));
}

/// Data from the peer is taken just if its channel is known, the peer has not
/// said that it is done, and the data fits the window and the largest packet that
/// we granted. It is handed on as it is, and its length, no more and no less,
/// comes off our window.
pub proof fn lemma_data_arrives(s: ConnectionView, payload: Seq<u8>, id: u32, data: Seq<u8>)
    requires
        data.len() <= u32::MAX,
        spells(payload, seq![Field::Byte(94), Field::Number(id), Field::Bytes(data)]),
    ensures
        ({
            let ch = s.channels[id];
            &&& s.on_packet(payload) is Ok <==> s.channels.contains_key(id) && !ch.remote_eof
                && !ch.remote_closed && data.len() <= ch.local_window && data.len()
                <= ch.local_max_packet
            &&& s.on_packet(payload) matches Ok((t, event)) ==> {
                &&& event == (EventView::Data { channel: id, data })
                &&& only_changed(
                    s,
                    t,
                    id,
                    ChannelView { local_window: (ch.local_window - data.len()) as u32, ..ch },
                )
            }
        }),
{
    let fields = seq![Field::Byte(94), Field::Number(id), Field::Bytes(data)];
    let body = payload.skip(1);
    lemma_read_byte(payload, fields, 0, 94);
    lemma_read_number(body, fields, 1, id);
    lemma_read_string(body.skip(4), fields, 2, data);
    let ch = s.channels[id];
    lemma_changed(
        s,
        id,
        ChannelView { local_window: (ch.local_window - data.len()) as u32, ..ch },
    );
}

/// The same for extended data, which is handed on with its type.
pub proof fn lemma_extended_data_arrives(
    s: ConnectionView,
    payload: Seq<u8>,
    id: u32,
    code: u32,
    data: Seq<u8>,
)
    requires
        data.len() <= u32::MAX,
        spells(
            payload,
            seq![Field::Byte(95), Field::Number(id), Field::Number(code), Field::Bytes(data)],
        ),
    ensures
        ({
            let ch = s.channels[id];
            &&& s.on_packet(payload) is Ok <==> s.channels.contains_key(id) && !ch.remote_eof
                && !ch.remote_closed && data.len() <= ch.local_window && data.len()
                <= ch.local_max_packet
            &&& s.on_packet(payload) matches Ok((t, event)) ==> {
                &&& event == (EventView::ExtendedData { channel: id, code, data })
                &&& only_changed(
                    s,
                    t,
                    id,
                    ChannelView { local_window: (ch.local_window - data.len()) as u32, ..ch },
                )
            }
        }),
{
    let fields = seq![
        Field::Byte(95),
        Field::Number(id),
        Field::Number(code),
        Field::Bytes(data),
    ];
    let body = payload.skip(1);
    lemma_read_byte(payload, fields, 0, 95);
    lemma_read_number(body, fields, 1, id);
    lemma_read_number(body.skip(4), fields, 2, code);
    lemma_read_string(body.skip(4).skip(4), fields, 3, data);
    let ch = s.channels[id];
    lemma_changed(
        s,
        id,
        ChannelView { local_window: (ch.local_window - data.len()) as u32, ..ch },
    );
}

/// A window adjustment adds what it says to what we may send, up to the largest
/// 32-bit number.
pub proof fn lemma_adjustment_arrives(s: ConnectionView, payload: Seq<u8>, id: u32, added: u32)
    requires
        spells(payload, seq![Field::Byte(93), Field::Number(id), Field::Number(added)]),
    ensures
        s.on_packet(payload) is Ok <==> s.channels.contains_key(id),
        s.on_packet(payload) matches Ok((t, event)) ==> {
            let ch = s.channels[id];
            let w = t.channels[id].remote_window;
            &&& event == (EventView::WindowAdjust { channel: id, added })
            &&& ch.remote_window + added <= 0xffff_ffff ==> w == ch.remote_window + added
            &&& ch.remote_window + added > 0xffff_ffff ==> w == 0xffff_ffff
            &&& only_changed(s, t, id, ChannelView { remote_window: w, ..ch })
        },
{
    let fields = seq![Field::Byte(93), Field::Number(id), Field::Number(added)];
    let body = payload.skip(1);
    lemma_read_byte(payload, fields, 0, 93);
    lemma_read_number(body, fields, 1, id);
    lemma_read_number(body.skip(4), fields, 2, added);
    let ch = s.channels[id];
    lemma_changed(
        s,
        id,
        ChannelView { remote_window: super::model::window_sum(ch.remote_window, added), ..ch },
    );
}

/// EOF and CLOSE are noted of the peer, the latter so that the channel goes
/// where we have closed it too; the replies to requests change nothing. Each is
/// about the channel that it names, which must be known.
pub proof fn lemma_signals_arrive(s: ConnectionView, payload: Seq<u8>, msg: u8, id: u32)
    requires
        msg == 96 || msg == 97 || msg == 99 || msg == 100,
        spells(payload, seq![Field::Byte(msg), Field::Number(id)]),
    ensures
        s.on_packet(payload) is Ok <==> s.channels.contains_key(id),
        s.on_packet(payload) matches Ok((t, event)) ==> {
            let ch = s.channels[id];
            &&& msg == 96 ==> event == (EventView::Eof { channel: id }) && only_changed(
                s,
                t,
                id,
                ChannelView { remote_eof: true, ..ch },
            )
            &&& msg == 97 ==> event == (EventView::Close { channel: id })
            &&& msg == 97 && ch.local_closed ==> only_dropped(s, t, id)
            &&& msg == 97 && !ch.local_closed ==> only_changed(
                s,
                t,
                id,
                ChannelView { remote_closed: true, ..ch },
            )
            &&& msg == 99 ==> event == (EventView::Success { channel: id }) && t == s
            &&& msg == 100 ==> event == (EventView::Failure { channel: id }) && t == s
        },
{
    let fields = seq![Field::Byte(msg), Field::Number(id)];
    lemma_read_byte(payload, fields, 0, msg);
    lemma_read_number(payload.skip(1), fields, 1, id);
    let ch = s.channels[id];
    lemma_changed(s, id, ChannelView { remote_eof: true, ..ch });
    lemma_changed(s, id, ChannelView { remote_closed: true, ..ch });
}

/// A confirmation completes a channel that awaits it: what the peer calls it, how
/// much the peer takes, and how large a packet, in that order.
pub proof fn lemma_confirmation_arrives(
    s: ConnectionView,
    payload: Seq<u8>,
    id: u32,
    remote_id: u32,
    window: u32,
    max_packet: u32,
)
    requires
        spells(
            payload,
            seq![
                Field::Byte(91),
                Field::Number(id),
                Field::Number(remote_id),
                Field::Number(window),
                Field::Number(max_packet),
            ],
        ),
    ensures
        s.on_packet(payload) is Ok <==> s.channels.contains_key(id)
            && !s.channels[id].open_confirmed,
        s.on_packet(payload) matches Ok((t, event)) ==> event == (EventView::OpenConfirmed {
            channel: id,
        }) && only_changed(
            s,
            t,
            id,
            ChannelView {
                remote_id,
                remote_window: window,
                remote_max_packet: max_packet,
                open_confirmed: true,
                ..s.channels[id]
            },
        ),
{
    let fields = seq![
        Field::Byte(91),
        Field::Number(id),
        Field::Number(remote_id),
        Field::Number(window),
        Field::Number(max_packet),
    ];
    let r0 = payload.skip(1);
    let r1 = r0.skip(4);
    let r2 = r1.skip(4);
    let r3 = r2.skip(4);
    lemma_read_byte(payload, fields, 0, 91);
    lemma_read_number(r0, fields, 1, id);
    lemma_read_number(r1, fields, 2, remote_id);
    lemma_read_number(r2, fields, 3, window);
    lemma_read_number(r3, fields, 4, max_packet);
    lemma_changed(
        s,
        id,
        ChannelView {
            remote_id,
            remote_window: window,
            remote_max_packet: max_packet,
            open_confirmed: true,
            ..s.channels[id]
        },
    );
}

/// A refusal drops the channel, and its reason and description are handed on.
pub proof fn lemma_refusal_arrives(
    s: ConnectionView,
    payload: Seq<u8>,
    id: u32,
    reason: u32,
    description: Seq<char>,
    language: Seq<char>,
)
    requires
        text_fits(description),
        text_fits(language),
        spells(
            payload,
            seq![
                Field::Byte(92),
                Field::Number(id),
                Field::Number(reason),
                Field::Text(description),
                Field::Text(language),
            ],
        ),
    ensures
        s.on_packet(payload) is Ok <==> s.channels.contains_key(id),
        s.on_packet(payload) matches Ok((t, event)) ==> event == (EventView::OpenFailed {
            channel: id,
            reason,
            description,
        }) && only_dropped(s, t, id),
{
    let fields = seq![
        Field::Byte(92),
        Field::Number(id),
        Field::Number(reason),
        Field::Text(description),
        Field::Text(language),
    ];
    let r0 = payload.skip(1);
    let r1 = r0.skip(4);
    let r2 = r1.skip(4);
    let r3 = r2.skip(4 + encode_utf8(description).len() as int);
    lemma_read_byte(payload, fields, 0, 92);
    lemma_read_number(r0, fields, 1, id);
    lemma_read_number(r1, fields, 2, reason);
    lemma_read_text(r2, fields, 3, description, "invalid utf-8 in open-failure description");
    lemma_read_text(r3, fields, 4, language, "invalid utf-8");
    lemma_changed(s, id, s.channels[id]);
}

/// An open from the peer is entered under an id that is not in use: what the
/// peer calls the channel, how much it takes and how large a packet as it says,
/// our own window and largest packet as we give to every new channel, nothing
/// saved up, nothing said or closed, and not confirmed yet.
pub proof fn lemma_open_arrives(
    s: ConnectionView,
    payload: Seq<u8>,
    kind: Seq<char>,
    remote_id: u32,
    window: u32,
    max_packet: u32,
    tail: Seq<u8>,
)
    requires
        text_fits(kind),
        s.channels.dom().finite(),
        s.has_room(),
        spells(
            payload,
            seq![
                Field::Byte(90),
                Field::Text(kind),
                Field::Number(remote_id),
                Field::Number(window),
                Field::Number(max_packet),
                Field::Raw(tail),
            ],
        ),
    ensures
        s.on_packet(payload) is Ok <==> ChannelOpenView::decode(kind, tail) is Ok,
        s.on_packet(payload) matches Ok((t, event)) ==> {
            &&& event is OpenRequest
            &&& event->OpenRequest_kind == ChannelOpenView::decode(kind, tail)->Ok_0
            &&& is_entered(s, t, event->OpenRequest_channel)
            &&& t.channels[event->OpenRequest_channel] == (ChannelView {
                local_id: event->OpenRequest_channel,
                remote_id,
                local_window: s.default_window,
                remote_window: window,
                local_max_packet: s.default_max_packet,
                remote_max_packet: max_packet,
                kind,
                local_eof: false,
                remote_eof: false,
                local_closed: false,
                remote_closed: false,
                initial_local_window: s.default_window,
                pending_replenish: 0,
                open_confirmed: false,
            })
        },
{
    let fields = seq![
        Field::Byte(90),
        Field::Text(kind),
        Field::Number(remote_id),
        Field::Number(window),
        Field::Number(max_packet),
        Field::Raw(tail),
    ];
    let r0 = payload.skip(1);
    let r1 = r0.skip(4 + encode_utf8(kind).len() as int);
    let r2 = r1.skip(4);
    let r3 = r2.skip(4);
    let r4 = r3.skip(4);
    lemma_read_byte(payload, fields, 0, 90);
    lemma_read_text(r0, fields, 1, kind, "invalid utf-8");
    lemma_read_number(r1, fields, 2, remote_id);
    lemma_read_number(r2, fields, 3, window);
    lemma_read_number(r3, fields, 4, max_packet);
    lemma_read_raw(r4, fields, tail);
    super::laws::lemma_fresh_id_is_fresh(s);
}

/// `t` has one channel more than `s`, under the first free id from where the
/// search begins on, and nothing else is different but where the next search
/// begins: right behind.
pub open spec fn is_entered(s: ConnectionView, t: ConnectionView, id: u32) -> bool {
    &&& !s.channels.contains_key(id) && t.channels.contains_key(id)
    &&& forall|other: u32| #![trigger t.channels.contains_key(other)]
        other != id ==> t.channels.contains_key(other) == s.channels.contains_key(other)
    &&& forall|other: u32| #![trigger t.channels[other]]
        s.channels.contains_key(other) ==> t.channels[other] == s.channels[other]
    &&& !s.channels.contains_key(s.next_local_id) ==> id == s.next_local_id
    &&& forall|i: u32| #![trigger s.channels.contains_key(i)]
        s.next_local_id <= i < id ==> s.channels.contains_key(i)
    &&& id < s.next_local_id ==> forall|i: u32| #![trigger s.channels.contains_key(i)]
        i >= s.next_local_id || i < id ==> s.channels.contains_key(i)
    &&& id < 0xffff_ffff ==> t.next_local_id == id + 1
    &&& id == 0xffff_ffff ==> t.next_local_id == 0
    &&& t.default_window == s.default_window
    &&& t.default_max_packet == s.default_max_packet
}

/// A request on a channel is handed on with its channel and whether it wants a
/// reply, and changes nothing.
pub proof fn lemma_request_arrives(
    s: ConnectionView,
    payload: Seq<u8>,
    id: u32,
    name: Seq<char>,
    want_reply: bool,
    tail: Seq<u8>,
)
    requires
        text_fits(name),
        spells(
            payload,
            seq![
                Field::Byte(98),
                Field::Number(id),
                Field::Text(name),
                Field::Flag(want_reply),
                Field::Raw(tail),
            ],
        ),
    ensures
        s.on_packet(payload) is Ok <==> s.channels.contains_key(id) && ChannelRequestView::decode(
            name,
            tail,
        ) is Ok,
        s.on_packet(payload) matches Ok((t, event)) ==> t == s && event == (EventView::Request {
            channel: id,
            request: ChannelRequestView::decode(name, tail)->Ok_0,
            want_reply,
        }),
{
    let fields = seq![
        Field::Byte(98),
        Field::Number(id),
        Field::Text(name),
        Field::Flag(want_reply),
        Field::Raw(tail),
    ];
    let r0 = payload.skip(1);
    let r1 = r0.skip(4);
    let r2 = r1.skip(4 + encode_utf8(name).len() as int);
    let r3 = r2.skip(1);
    lemma_read_byte(payload, fields, 0, 98);
    lemma_read_number(r0, fields, 1, id);
    lemma_read_text(r1, fields, 2, name, "invalid utf-8");
    lemma_read_flag(r2, fields, 3, want_reply);
    lemma_read_raw(r3, fields, tail);
}

/// A request about the connection as a whole is handed on, and so are the
/// replies to ours; they change nothing.
pub proof fn lemma_global_request_arrives(
    s: ConnectionView,
    payload: Seq<u8>,
    name: Seq<char>,
    want_reply: bool,
    tail: Seq<u8>,
)
    requires
        text_fits(name),
        spells(
            payload,
            seq![
                Field::Byte(80),
                Field::Text(name),
                Field::Flag(want_reply),
                Field::Raw(tail),
            ],
        ),
    ensures
        s.on_packet(payload) is Ok <==> GlobalRequestView::decode(name, tail) is Ok,
        s.on_packet(payload) matches Ok((t, event)) ==> t == s && event
            == (EventView::GlobalRequest {
            request: GlobalRequestView::decode(name, tail)->Ok_0,
            want_reply,
        }),
{
    let fields = seq![
        Field::Byte(80),
        Field::Text(name),
        Field::Flag(want_reply),
        Field::Raw(tail),
    ];
    let r0 = payload.skip(1);
    let r1 = r0.skip(4 + encode_utf8(name).len() as int);
    let r2 = r1.skip(1);
    lemma_read_byte(payload, fields, 0, 80);
    lemma_read_text(r0, fields, 1, name, "invalid utf-8");
    lemma_read_flag(r1, fields, 2, want_reply);
    lemma_read_raw(r2, fields, tail);
}

/// Replies to requests about the connection are handed on whole, and a packet
/// that does not belong to the connection protocol is an error.
pub proof fn lemma_other_packets_arrive(s: ConnectionView, payload: Seq<u8>)
    ensures
        payload.len() == 0 ==> s.on_packet(payload) is Err,
        payload.len() > 0 && payload[0] == 81 ==> s.on_packet(payload) == Ok::<
            (ConnectionView, EventView),
            Error,
        >((s, EventView::GlobalSuccess { data: payload.skip(1) })),
        payload.len() > 0 && payload[0] == 82 ==> s.on_packet(payload) == Ok::<
            (ConnectionView, EventView),
            Error,
        >((s, EventView::GlobalFailure)),
        payload.len() > 0 && (payload[0] < 80 || 82 < payload[0] < 90 || payload[0] > 100)
            ==> s.on_packet(payload) is Err,
{
}

/// A channel that we open is entered under an id that is not in use, with
/// nothing known of the peer's side yet.
pub proof fn lemma_open_is_entered(s: ConnectionView, kind: ChannelOpenView)
    requires
        s.channels.dom().finite(),
        s.has_room(),
    ensures
        ({
            let (t, id, _) = s.open(kind);
            &&& is_entered(s, t, id)
            &&& t.channels[id] == (ChannelView {
                local_id: id,
                remote_id: 0,
                local_window: s.default_window,
                remote_window: 0,
                local_max_packet: s.default_max_packet,
                remote_max_packet: 0,
                kind: kind.kind(),
                local_eof: false,
                remote_eof: false,
                local_closed: false,
                remote_closed: false,
                initial_local_window: s.default_window,
                pending_replenish: 0,
                open_confirmed: false,
            })
        }),
{
    super::laws::lemma_fresh_id_is_fresh(s);
}

/// What each packet to the peer enters: data comes off the peer's window, as
/// much of it as fits the window and, with the header of 9 bytes, or 13 where a
/// type goes along, the peer's largest packet; EOF and CLOSE are noted, the
/// latter so that the channel goes where the peer has closed it too; an open is
/// accepted or refused once.
pub proof fn lemma_what_is_sent_is_entered(
    s: ConnectionView,
    id: u32,
    data: Seq<u8>,
    code: u32,
    reason: u32,
    description: Seq<char>,
    language: Seq<char>,
    req: ChannelRequestView,
    want_reply: bool,
    msg: u8,
)
    ensures
        ({
            let ch = s.channels[id];
            let known = s.channels.contains_key(id);
            let closed = ch.local_closed || ch.remote_closed;
            &&& s.send_data(id, data) is Ok <==> known && !closed && !ch.local_eof
            &&& s.send_extended_data(id, code, data) is Ok <==> known && !closed && !ch.local_eof
            &&& s.send_request(id, req, want_reply) is Ok <==> known && !closed
            &&& s.send_reply(id, msg) is Ok <==> known
            &&& s.send_eof(id) is Ok <==> known && !ch.local_closed
            &&& s.send_close(id) is Ok <==> known && !ch.local_closed
            &&& s.accept_open(id) is Ok <==> known && !ch.open_confirmed
            &&& s.reject_open(id, reason, description, language) is Ok <==> known
                && !ch.open_confirmed
            &&& s.send_data(id, data) matches Ok((t, _, n)) ==> fills(ch, data.len(), n, 9)
                && only_changed(
                s,
                t,
                id,
                ChannelView { remote_window: (ch.remote_window - n) as u32, ..ch },
            )
            &&& s.send_extended_data(id, code, data) matches Ok((t, _, n)) ==> fills(
                ch,
                data.len(),
                n,
                13,
            ) && only_changed(
                s,
                t,
                id,
                ChannelView { remote_window: (ch.remote_window - n) as u32, ..ch },
            )
            &&& s.send_eof(id) matches Ok((t, _)) ==> only_changed(
                s,
                t,
                id,
                ChannelView { local_eof: true, ..ch },
            )
            &&& s.send_close(id) matches Ok((t, _)) ==> (if ch.remote_closed {
                only_dropped(s, t, id)
            } else {
                only_changed(s, t, id, ChannelView { local_closed: true, ..ch })
            })
            &&& s.accept_open(id) matches Ok((t, _)) ==> only_changed(
                s,
                t,
                id,
                ChannelView { open_confirmed: true, ..ch },
            )
            &&& s.reject_open(id, reason, description, language) matches Ok((t, _))
                ==> only_dropped(s, t, id)
        }),
{
    let ch = s.channels[id];
    if let Ok((t, _, n)) = s.send_data(id, data) {
        lemma_changed(
            s,
            id,
            ChannelView { remote_window: (ch.remote_window - n) as u32, ..ch },
        );
    }
    if let Ok((t, _, n)) = s.send_extended_data(id, code, data) {
        lemma_changed(
            s,
            id,
            ChannelView { remote_window: (ch.remote_window - n) as u32, ..ch },
        );
    }
    lemma_changed(s, id, ChannelView { local_eof: true, ..ch });
    lemma_changed(s, id, ChannelView { local_closed: true, ..ch });
    lemma_changed(s, id, ChannelView { open_confirmed: true, ..ch });
}

/// `n` of `len` bytes may go to the peer of `ch` in one packet with a header of
/// that many bytes, and no more of them may.
pub open spec fn fills(ch: ChannelView, len: nat, n: int, header: int) -> bool {
    &&& 0 <= n <= len
    &&& n <= ch.remote_window
    &&& n > 0 ==> n + header <= ch.remote_max_packet
    &&& n < len ==> n == ch.remote_window || n + 1 + header > ch.remote_max_packet
}

/// Bytes that were used up are saved up until they are at least half of what we
/// granted at first; then they are granted again, all at once.
pub proof fn lemma_credit_comes_by_halves(s: ConnectionView, id: u32, by: u32)
    requires
        s.channels.contains_key(id),
        s.channels[id].pending_replenish + by <= 0xffff_ffff,
        s.channels[id].local_window + s.channels[id].pending_replenish + by <= 0xffff_ffff,
        s.channels[id].initial_local_window >= 2,
        by > 0,
    ensures
        ({
            let ch = s.channels[id];
            let saved = ch.pending_replenish + by;
            &&& s.replenish_window(id, by) is Ok <==> !ch.local_closed
            &&& s.replenish_window(id, by) matches Ok((t, adjust)) ==> {
                &&& adjust is Some <==> saved >= ch.initial_local_window / 2
                &&& adjust is Some ==> only_changed(
                    s,
                    t,
                    id,
                    ChannelView {
                        pending_replenish: 0,
                        local_window: (ch.local_window + saved) as u32,
                        ..ch
                    },
                )
                &&& adjust is None ==> only_changed(
                    s,
                    t,
                    id,
                    ChannelView { pending_replenish: saved as u32, ..ch },
                )
            }
        }),
{
    let ch = s.channels[id];
    let saved = ch.pending_replenish + by;
    lemma_changed(
        s,
        id,
        ChannelView {
            pending_replenish: 0,
            local_window: (ch.local_window + saved) as u32,
            ..ch
        },
    );
    lemma_changed(s, id, ChannelView { pending_replenish: saved as u32, ..ch });
}

/// An event stands for itself: the channel that it is about, and what it brings.
pub proof fn lemma_events_stand_for_themselves(e: ChannelEvent)
    ensures
        match e {
            ChannelEvent::OpenRequest { channel, kind } => e@ == (EventView::OpenRequest {
                channel,
                kind: kind@,
            }),
            ChannelEvent::OpenConfirmed { channel } => e@ == (EventView::OpenConfirmed { channel }),
            ChannelEvent::OpenFailed { channel, reason, description } => e@
                == (EventView::OpenFailed { channel, reason, description: description@ }),
            ChannelEvent::Data { channel, data } => e@ == (EventView::Data { channel, data: data@ }),
            ChannelEvent::ExtendedData { channel, code, data } => e@ == (EventView::ExtendedData {
                channel,
                code,
                data: data@,
            }),
            ChannelEvent::WindowAdjust { channel, added } => e@ == (EventView::WindowAdjust {
                channel,
                added,
            }),
            ChannelEvent::Eof { channel } => e@ == (EventView::Eof { channel }),
            ChannelEvent::Close { channel } => e@ == (EventView::Close { channel }),
            ChannelEvent::Request { channel, request, want_reply } => e@ == (EventView::Request {
                channel,
                request: request@,
                want_reply,
            }),
            ChannelEvent::Success { channel } => e@ == (EventView::Success { channel }),
            ChannelEvent::Failure { channel } => e@ == (EventView::Failure { channel }),
            ChannelEvent::GlobalRequest { request, want_reply } => e@ == (EventView::GlobalRequest {
                request: request@,
                want_reply,
            }),
            ChannelEvent::GlobalSuccess { data } => e@ == (EventView::GlobalSuccess { data: data@ }),
            ChannelEvent::GlobalFailure => e@ == EventView::GlobalFailure,
        },
{
}

/// What a call promises: on success the payload or the event, and the books, of
/// the operation; on failure its error, and the books untouched.
pub proof fn lemma_calls_keep_their_promises(
    before: ConnectionView,
    after: ConnectionView,
    r: Result<Vec<u8>, Error>,
    model: Result<(ConnectionView, Seq<u8>), Error>,
    e: Result<ChannelEvent, Error>,
    meant: Result<(ConnectionView, EventView), Error>,
)
    ensures
        sent(before, after, r, model) ==> {
            &&& r is Ok <==> model is Ok
            &&& r is Ok ==> r->Ok_0@ == model->Ok_0.1 && after == model->Ok_0.0
            &&& r is Err ==> r->Err_0 == model->Err_0 && after == before
        },
        handled(before, after, e, meant) ==> {
            &&& e is Ok <==> meant is Ok
            &&& e is Ok ==> e->Ok_0@ == meant->Ok_0.1 && after == meant->Ok_0.0
            &&& e is Err ==> e->Err_0 == meant->Err_0 && after == before
        },
{
}

} // verus!
