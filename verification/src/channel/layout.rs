//! The messages of the connection protocol, byte by byte: which fields each one
//! has, in which order, and with which values (RFC 4254).
//!
//! A message is described here by its fields alone, whatever writes or reads it.

use super::global::{GlobalRequest, GlobalRequestView};
use super::model::{global_payload, window_sum, ConnectionView};
use super::msg::{
    MSG_CHANNEL_CLOSE, MSG_CHANNEL_DATA, MSG_CHANNEL_EOF, MSG_CHANNEL_EXTENDED_DATA,
    MSG_CHANNEL_FAILURE, MSG_CHANNEL_OPEN, MSG_CHANNEL_OPEN_CONFIRMATION, MSG_CHANNEL_OPEN_FAILURE,
    MSG_CHANNEL_REQUEST, MSG_CHANNEL_SUCCESS, MSG_CHANNEL_WINDOW_ADJUST, MSG_GLOBAL_REQUEST,
    MSG_REQUEST_FAILURE, MSG_REQUEST_SUCCESS, SSH_EXTENDED_DATA_STDERR,
    SSH_OPEN_ADMINISTRATIVELY_PROHIBITED,
};
use super::open::{ChannelOpen, ChannelOpenView};
use super::request::{ChannelRequest, ChannelRequestView};
use super::wire_text;
use crate::format::{be32, wire_bool, wire_string};
use vstd::prelude::*;
use vstd::utf8::encode_utf8;

verus! {

/// One field of a message.
pub ghost enum Field {
    /// One byte.
    Byte(u8),
    /// A boolean: one byte, 1 for true and 0 for false.
    Flag(bool),
    /// A 32-bit integer, most significant byte first.
    Number(u32),
    /// Bytes behind their length.
    Bytes(Seq<u8>),
    /// A text in UTF-8 behind its length in bytes.
    Text(Seq<char>),
    /// Bytes without a length.
    Raw(Seq<u8>),
}

/// Whether `s` begins with a 32-bit integer of that value.
pub open spec fn begins_with_number(s: Seq<u8>, v: u32) -> bool {
    s.len() >= 4 && s[0] * 0x100_0000 + s[1] * 0x1_0000 + s[2] * 0x100 + s[3] == v
}

/// Whether `s` begins with bytes behind their length.
pub open spec fn begins_with_bytes(s: Seq<u8>, b: Seq<u8>) -> bool {
    begins_with_number(s, b.len() as u32) && s.len() >= 4 + b.len() && s.subrange(
        4,
        4 + b.len() as int,
    ) == b
}

impl Field {
    /// How many bytes the field takes.
    pub open spec fn width(self) -> int {
        match self {
            Field::Byte(_) => 1,
            Field::Flag(_) => 1,
            Field::Number(_) => 4,
            Field::Bytes(b) => 4 + b.len() as int,
            Field::Text(t) => 4 + encode_utf8(t).len() as int,
            Field::Raw(b) => b.len() as int,
        }
    }

    /// Whether `s` begins with the field.
    pub open spec fn begins(self, s: Seq<u8>) -> bool {
        match self {
            Field::Byte(b) => s.len() >= 1 && s[0] == b,
            Field::Flag(b) => s.len() >= 1 && s[0] == (if b {
                1u8
            } else {
                0u8
            }),
            Field::Number(v) => begins_with_number(s, v),
            Field::Bytes(b) => begins_with_bytes(s, b),
            Field::Text(t) => begins_with_bytes(s, encode_utf8(t)),
            Field::Raw(b) => s.len() >= b.len() && s.take(b.len() as int) == b,
        }
    }
}

/// Whether `s` is the fields from number `from` on, one after the other, and
/// nothing else.
pub open spec fn spells_from(s: Seq<u8>, fields: Seq<Field>, from: int) -> bool
    decreases fields.len() - from,
{
    if from >= fields.len() {
        s.len() == 0
    } else {
        fields[from].begins(s) && spells_from(s.skip(fields[from].width()), fields, from + 1)
    }
}

/// Whether `s` is these fields, one after the other, and nothing else.
pub open spec fn spells(s: Seq<u8>, fields: Seq<Field>) -> bool {
    spells_from(s, fields, 0)
}

/// The bytes of a field.
pub open spec fn bytes_of(f: Field) -> Seq<u8> {
    match f {
        Field::Byte(b) => seq![b],
        Field::Flag(b) => wire_bool(b),
        Field::Number(v) => be32(v),
        Field::Bytes(b) => wire_string(b),
        Field::Text(t) => wire_text(t),
        Field::Raw(b) => b,
    }
}

/// The bytes of fields from number `from` on.
pub open spec fn all_bytes(fields: Seq<Field>, from: int) -> Seq<u8>
    decreases fields.len() - from,
{
    if from >= fields.len() {
        Seq::empty()
    } else {
        bytes_of(fields[from]) + all_bytes(fields, from + 1)
    }
}

/// The bytes of a number begin with it.
pub proof fn lemma_number_begins(v: u32, tail: Seq<u8>)
    ensures
        begins_with_number(be32(v) + tail, v),
        (be32(v) + tail).skip(4) == tail,
{
    let a: u32 = v / 0x100_0000;
    let b: u32 = (v / 0x1_0000) % 0x100;
    let c: u32 = (v / 0x100) % 0x100;
    let d: u32 = v % 0x100;
    assert(a < 0x100);
    assert(v == a * 0x100_0000 + b * 0x1_0000 + c * 0x100 + d);
    assert((be32(v) + tail).skip(4) =~= tail);
}

/// Bytes behind their length begin with them.
pub proof fn lemma_bytes_begin(b: Seq<u8>, tail: Seq<u8>)
    ensures
        begins_with_bytes(wire_string(b) + tail, b),
        (wire_string(b) + tail).skip(4 + b.len() as int) == tail,
{
    let s = wire_string(b) + tail;
    let n = b.len() as u32;
    assert(s =~= be32(n) + (b + tail));
    lemma_number_begins(n, b + tail);
    assert(s.subrange(4, 4 + b.len() as int) =~= b);
    assert(s.skip(4 + b.len() as int) =~= tail);
}

proof fn lemma_field_begins(f: Field, tail: Seq<u8>)
    ensures
        f.begins(bytes_of(f) + tail),
        (bytes_of(f) + tail).skip(f.width()) == tail,
{
    match f {
        Field::Byte(b) => {
            assert((seq![b] + tail).skip(1) =~= tail);
        },
        Field::Flag(b) => {
            assert((wire_bool(b) + tail).skip(1) =~= tail);
        },
        Field::Number(v) => {
            lemma_number_begins(v, tail);
        },
        Field::Bytes(b) => {
            lemma_bytes_begin(b, tail);
        },
        Field::Text(t) => {
            lemma_bytes_begin(encode_utf8(t), tail);
        },
        Field::Raw(b) => {
            assert((b + tail).take(b.len() as int) =~= b);
            assert((b + tail).skip(b.len() as int) =~= tail);
        },
    }
}

proof fn lemma_spelled(fields: Seq<Field>, from: int)
    requires
        0 <= from <= fields.len(),
    ensures
        spells_from(all_bytes(fields, from), fields, from),
    decreases fields.len() - from,
{
    if from < fields.len() {
        lemma_spelled(fields, from + 1);
        lemma_field_begins(fields[from], all_bytes(fields, from + 1));
    }
}

/// What is put together from fields spells them.
pub proof fn lemma_spells(s: Seq<u8>, fields: Seq<Field>)
    requires
        s == all_bytes(fields, 0),
    ensures
        spells(s, fields),
{
    lemma_spelled(fields, 0);
}

/// The numbers that tell messages apart, and the codes in them (RFC 4254
/// sections 5.1, 5.2 and 9).
pub proof fn lemma_message_numbers()
    ensures
        MSG_GLOBAL_REQUEST == 80,
        MSG_REQUEST_SUCCESS == 81,
        MSG_REQUEST_FAILURE == 82,
        MSG_CHANNEL_OPEN == 90,
        MSG_CHANNEL_OPEN_CONFIRMATION == 91,
        MSG_CHANNEL_OPEN_FAILURE == 92,
        MSG_CHANNEL_WINDOW_ADJUST == 93,
        MSG_CHANNEL_DATA == 94,
        MSG_CHANNEL_EXTENDED_DATA == 95,
        MSG_CHANNEL_EOF == 96,
        MSG_CHANNEL_CLOSE == 97,
        MSG_CHANNEL_REQUEST == 98,
        MSG_CHANNEL_SUCCESS == 99,
        MSG_CHANNEL_FAILURE == 100,
        SSH_OPEN_ADMINISTRATIVELY_PROHIBITED == 1,
        SSH_EXTENDED_DATA_STDERR == 1,
{
}

/// The type of each channel request and the fields behind it: for a terminal
/// its width comes before its height, in characters before in pixels, and for a
/// variable its name before its value (RFC 4254 sections 6.2 to 6.10).
#[verifier::spinoff_prover]
#[verifier::rlimit(40)]
pub proof fn lemma_request_layout(req: ChannelRequest)
    ensures
        match req {
            ChannelRequest::PtyReq { term, cols, rows, px_w, px_h, modes } => {
                &&& req@.name() == "pty-req"@
                &&& spells(
                    req@.body(),
                    seq![
                        Field::Text(term@),
                        Field::Number(cols),
                        Field::Number(rows),
                        Field::Number(px_w),
                        Field::Number(px_h),
                        Field::Bytes(modes@),
                    ],
                )
            },
            ChannelRequest::Shell => req@.name() == "shell"@ && spells(req@.body(), seq![]),
            ChannelRequest::Exec { command } => {
                &&& req@.name() == "exec"@
                &&& spells(req@.body(), seq![Field::Text(command@)])
            },
            ChannelRequest::Subsystem { name } => {
                &&& req@.name() == "subsystem"@
                &&& spells(req@.body(), seq![Field::Text(name@)])
            },
            ChannelRequest::Env { name, value } => {
                &&& req@.name() == "env"@
                &&& spells(req@.body(), seq![Field::Text(name@), Field::Text(value@)])
            },
            ChannelRequest::WindowChange { cols, rows, px_w, px_h } => {
                &&& req@.name() == "window-change"@
                &&& spells(
                    req@.body(),
                    seq![
                        Field::Number(cols),
                        Field::Number(rows),
                        Field::Number(px_w),
                        Field::Number(px_h),
                    ],
                )
            },
            ChannelRequest::Signal { name } => {
                &&& req@.name() == "signal"@
                &&& spells(req@.body(), seq![Field::Text(name@)])
            },
            ChannelRequest::ExitStatus { code } => {
                &&& req@.name() == "exit-status"@
                &&& spells(req@.body(), seq![Field::Number(code)])
            },
            ChannelRequest::ExitSignal { name, core_dumped, message, language } => {
                &&& req@.name() == "exit-signal"@
                &&& spells(
                    req@.body(),
                    seq![
                        Field::Text(name@),
                        Field::Flag(core_dumped),
                        Field::Text(message@),
                        Field::Text(language@),
                    ],
                )
            },
            ChannelRequest::AuthAgentReq => req@.name() == "auth-agent-req@openssh.com"@ && spells(
                req@.body(),
                seq![],
            ),
            ChannelRequest::X11Req { single_connection, auth_protocol, auth_cookie, screen } => {
                &&& req@.name() == "x11-req"@
                &&& spells(
                    req@.body(),
                    seq![
                        Field::Flag(single_connection),
                        Field::Text(auth_protocol@),
                        Field::Text(auth_cookie@),
                        Field::Number(screen),
                    ],
                )
            },
            ChannelRequest::Other { name, raw } => req@.name() == name@ && req@.body() == raw@,
        },
{
    reveal_with_fuel(all_bytes, 7);
    let fields: Seq<Field> = match req {
        ChannelRequest::PtyReq { term, cols, rows, px_w, px_h, modes } => seq![
            Field::Text(term@),
            Field::Number(cols),
            Field::Number(rows),
            Field::Number(px_w),
            Field::Number(px_h),
            Field::Bytes(modes@),
        ],
        ChannelRequest::Exec { command } => seq![Field::Text(command@)],
        ChannelRequest::Subsystem { name } => seq![Field::Text(name@)],
        ChannelRequest::Env { name, value } => seq![Field::Text(name@), Field::Text(value@)],
        ChannelRequest::WindowChange { cols, rows, px_w, px_h } => seq![
            Field::Number(cols),
            Field::Number(rows),
            Field::Number(px_w),
            Field::Number(px_h),
        ],
        ChannelRequest::Signal { name } => seq![Field::Text(name@)],
        ChannelRequest::ExitStatus { code } => seq![Field::Number(code)],
        ChannelRequest::ExitSignal { name, core_dumped, message, language } => seq![
            Field::Text(name@),
            Field::Flag(core_dumped),
            Field::Text(message@),
            Field::Text(language@),
        ],
        ChannelRequest::X11Req { single_connection, auth_protocol, auth_cookie, screen } => seq![
            Field::Flag(single_connection),
            Field::Text(auth_protocol@),
            Field::Text(auth_cookie@),
            Field::Number(screen),
        ],
        _ => seq![],
    };
    if !(req is Other) {
        assert(req@.body() =~= all_bytes(fields, 0));
        lemma_spells(req@.body(), fields);
    }
}

/// The type of each channel and the fields behind it: where a connection goes
/// to comes before where it comes from (RFC 4254 sections 6.1, 6.3.2 and 7.2).
pub proof fn lemma_open_layout(open: ChannelOpen)
    ensures
        match open {
            ChannelOpen::Session => open@.kind() == "session"@ && spells(open@.body(), seq![]),
            ChannelOpen::DirectTcpip { dest_host, dest_port, orig_host, orig_port } => {
                &&& open@.kind() == "direct-tcpip"@
                &&& spells(
                    open@.body(),
                    seq![
                        Field::Text(dest_host@),
                        Field::Number(dest_port),
                        Field::Text(orig_host@),
                        Field::Number(orig_port),
                    ],
                )
            },
            ChannelOpen::ForwardedTcpip { dest_host, dest_port, orig_host, orig_port } => {
                &&& open@.kind() == "forwarded-tcpip"@
                &&& spells(
                    open@.body(),
                    seq![
                        Field::Text(dest_host@),
                        Field::Number(dest_port),
                        Field::Text(orig_host@),
                        Field::Number(orig_port),
                    ],
                )
            },
            ChannelOpen::AuthAgent => open@.kind() == "auth-agent@openssh.com"@ && spells(
                open@.body(),
                seq![],
            ),
            ChannelOpen::X11 { orig_host, orig_port } => {
                &&& open@.kind() == "x11"@
                &&& spells(open@.body(), seq![Field::Text(orig_host@), Field::Number(orig_port)])
            },
            ChannelOpen::Other { kind, raw } => open@.kind() == kind@ && open@.body() == raw@,
        },
{
    reveal_with_fuel(all_bytes, 5);
    let fields: Seq<Field> = match open {
        ChannelOpen::DirectTcpip { dest_host, dest_port, orig_host, orig_port } => seq![
            Field::Text(dest_host@),
            Field::Number(dest_port),
            Field::Text(orig_host@),
            Field::Number(orig_port),
        ],
        ChannelOpen::ForwardedTcpip { dest_host, dest_port, orig_host, orig_port } => seq![
            Field::Text(dest_host@),
            Field::Number(dest_port),
            Field::Text(orig_host@),
            Field::Number(orig_port),
        ],
        ChannelOpen::X11 { orig_host, orig_port } => seq![
            Field::Text(orig_host@),
            Field::Number(orig_port),
        ],
        _ => seq![],
    };
    if !(open is Other) {
        assert(open@.body() =~= all_bytes(fields, 0));
        lemma_spells(open@.body(), fields);
    }
}

/// The name of each global request and the fields behind it (RFC 4254 section
/// 7.1).
pub proof fn lemma_global_layout(req: GlobalRequest)
    ensures
        match req {
            GlobalRequest::TcpipForward { bind_address, bind_port } => {
                &&& req@.name() == "tcpip-forward"@
                &&& spells(
                    req@.body(),
                    seq![Field::Text(bind_address@), Field::Number(bind_port)],
                )
            },
            GlobalRequest::CancelTcpipForward { bind_address, bind_port } => {
                &&& req@.name() == "cancel-tcpip-forward"@
                &&& spells(
                    req@.body(),
                    seq![Field::Text(bind_address@), Field::Number(bind_port)],
                )
            },
            GlobalRequest::Keepalive => req@.name() == "keepalive@openssh.com"@ && spells(
                req@.body(),
                seq![],
            ),
            GlobalRequest::Other { name, raw } => req@.name() == name@ && req@.body() == raw@,
        },
{
    reveal_with_fuel(all_bytes, 3);
    let fields: Seq<Field> = match req {
        GlobalRequest::TcpipForward { bind_address, bind_port } => seq![
            Field::Text(bind_address@),
            Field::Number(bind_port),
        ],
        GlobalRequest::CancelTcpipForward { bind_address, bind_port } => seq![
            Field::Text(bind_address@),
            Field::Number(bind_port),
        ],
        _ => seq![],
    };
    if !(req is Other) {
        assert(req@.body() =~= all_bytes(fields, 0));
        lemma_spells(req@.body(), fields);
    }
}

/// What is sent about opening channels: each message names the other side's
/// channel before ours, and our window before our largest packet (RFC 4254
/// section 5.1).
#[verifier::spinoff_prover]
#[verifier::rlimit(40)]
pub proof fn lemma_opening_layout(
    s: ConnectionView,
    kind: ChannelOpenView,
    id: u32,
    reason: u32,
    description: Seq<char>,
    language: Seq<char>,
)
    ensures
        spells(
            s.open(kind).2,
            seq![
                Field::Byte(90),
                Field::Text(kind.kind()),
                Field::Number(s.open(kind).1),
                Field::Number(s.default_window),
                Field::Number(s.default_max_packet),
                Field::Raw(kind.body()),
            ],
        ),
        s.accept_open(id) matches Ok((_, payload)) ==> spells(
            payload,
            seq![
                Field::Byte(91),
                Field::Number(s.channels[id].remote_id),
                Field::Number(id),
                Field::Number(s.channels[id].local_window),
                Field::Number(s.channels[id].local_max_packet),
            ],
        ),
        s.reject_open(id, reason, description, language) matches Ok((_, payload)) ==> spells(
            payload,
            seq![
                Field::Byte(92),
                Field::Number(s.channels[id].remote_id),
                Field::Number(reason),
                Field::Text(description),
                Field::Text(language),
            ],
        ),
{
    reveal_with_fuel(all_bytes, 7);
    let opened = seq![
        Field::Byte(90),
        Field::Text(kind.kind()),
        Field::Number(s.open(kind).1),
        Field::Number(s.default_window),
        Field::Number(s.default_max_packet),
        Field::Raw(kind.body()),
    ];
    assert(s.open(kind).2 =~= all_bytes(opened, 0));
    lemma_spells(s.open(kind).2, opened);
    let ch = s.channels[id];
    if let Ok((_, payload)) = s.accept_open(id) {
        let fields = seq![
            Field::Byte(91),
            Field::Number(ch.remote_id),
            Field::Number(id),
            Field::Number(ch.local_window),
            Field::Number(ch.local_max_packet),
        ];
        assert(payload =~= all_bytes(fields, 0));
        lemma_spells(payload, fields);
    }
    if let Ok((_, payload)) = s.reject_open(id, reason, description, language) {
        let fields = seq![
            Field::Byte(92),
            Field::Number(ch.remote_id),
            Field::Number(reason),
            Field::Text(description),
            Field::Text(language),
        ];
        assert(payload =~= all_bytes(fields, 0));
        lemma_spells(payload, fields);
    }
}

/// What is sent on a channel: each message names the other side's channel, and
/// data is the bytes themselves, as many of them from the front as have been
/// taken (RFC 4254 sections 5.2 to 5.4).
#[verifier::spinoff_prover]
#[verifier::rlimit(40)]
pub proof fn lemma_traffic_layout(
    s: ConnectionView,
    id: u32,
    data: Seq<u8>,
    code: u32,
    by: u32,
    msg: u8,
    req: ChannelRequestView,
    want_reply: bool,
)
    ensures
        s.send_data(id, data) matches Ok((_, payload, n)) ==> spells(
            payload,
            seq![
                Field::Byte(94),
                Field::Number(s.channels[id].remote_id),
                Field::Bytes(data.take(n)),
            ],
        ),
        s.send_extended_data(id, code, data) matches Ok((_, payload, n)) ==> spells(
            payload,
            seq![
                Field::Byte(95),
                Field::Number(s.channels[id].remote_id),
                Field::Number(code),
                Field::Bytes(data.take(n)),
            ],
        ),
        s.send_eof(id) matches Ok((_, payload)) ==> spells(
            payload,
            seq![Field::Byte(96), Field::Number(s.channels[id].remote_id)],
        ),
        s.send_close(id) matches Ok((_, payload)) ==> spells(
            payload,
            seq![Field::Byte(97), Field::Number(s.channels[id].remote_id)],
        ),
        s.send_request(id, req, want_reply) matches Ok(payload) ==> spells(
            payload,
            seq![
                Field::Byte(98),
                Field::Number(s.channels[id].remote_id),
                Field::Text(req.name()),
                Field::Flag(want_reply),
                Field::Raw(req.body()),
            ],
        ),
        s.send_reply(id, msg) matches Ok(payload) ==> spells(
            payload,
            seq![Field::Byte(msg), Field::Number(s.channels[id].remote_id)],
        ),
        s.replenish_window(id, by) matches Ok((_, Some(payload))) ==> spells(
            payload,
            seq![
                Field::Byte(93),
                Field::Number(s.channels[id].remote_id),
                Field::Number(window_sum(s.channels[id].pending_replenish, by)),
            ],
        ),
{
    reveal_with_fuel(all_bytes, 6);
    let peer = s.channels[id].remote_id;
    if let Ok((_, payload, n)) = s.send_data(id, data) {
        let fields = seq![Field::Byte(94), Field::Number(peer), Field::Bytes(data.take(n))];
        assert(payload =~= all_bytes(fields, 0));
        lemma_spells(payload, fields);
    }
    if let Ok((_, payload, n)) = s.send_extended_data(id, code, data) {
        let fields = seq![
            Field::Byte(95),
            Field::Number(peer),
            Field::Number(code),
            Field::Bytes(data.take(n)),
        ];
        assert(payload =~= all_bytes(fields, 0));
        lemma_spells(payload, fields);
    }
    let eof = seq![Field::Byte(96), Field::Number(peer)];
    let close = seq![Field::Byte(97), Field::Number(peer)];
    let reply = seq![Field::Byte(msg), Field::Number(peer)];
    if let Ok((_, payload)) = s.send_eof(id) {
        assert(payload =~= all_bytes(eof, 0));
        lemma_spells(payload, eof);
    }
    if let Ok((_, payload)) = s.send_close(id) {
        assert(payload =~= all_bytes(close, 0));
        lemma_spells(payload, close);
    }
    if let Ok(payload) = s.send_reply(id, msg) {
        assert(payload =~= all_bytes(reply, 0));
        lemma_spells(payload, reply);
    }
    if let Ok(payload) = s.send_request(id, req, want_reply) {
        let fields = seq![
            Field::Byte(98),
            Field::Number(peer),
            Field::Text(req.name()),
            Field::Flag(want_reply),
            Field::Raw(req.body()),
        ];
        assert(payload =~= all_bytes(fields, 0));
        lemma_spells(payload, fields);
    }
    if let Ok((_, Some(payload))) = s.replenish_window(id, by) {
        let fields = seq![
            Field::Byte(93),
            Field::Number(peer),
            Field::Number(window_sum(s.channels[id].pending_replenish, by)),
        ];
        assert(payload =~= all_bytes(fields, 0));
        lemma_spells(payload, fields);
    }
}

/// What is sent about the connection as a whole (RFC 4254 section 4).
pub proof fn lemma_global_message_layout(req: GlobalRequestView, want_reply: bool)
    ensures
        spells(
            global_payload(req, want_reply),
            seq![
                Field::Byte(80),
                Field::Text(req.name()),
                Field::Flag(want_reply),
                Field::Raw(req.body()),
            ],
        ),
{
    reveal_with_fuel(all_bytes, 5);
    let fields = seq![
        Field::Byte(80),
        Field::Text(req.name()),
        Field::Flag(want_reply),
        Field::Raw(req.body()),
    ];
    assert(global_payload(req, want_reply) =~= all_bytes(fields, 0));
    lemma_spells(global_payload(req, want_reply), fields);
}

/// Whether a payload asks for a connection to a host and port: by naming that
/// host and port, and then where the connection comes from, behind the id, window
/// and largest packet of the new channel.
#[verifier::opaque]
pub open spec fn asks_for_connection(
    payload: Seq<u8>,
    id: u32,
    s: ConnectionView,
    dest_host: Seq<char>,
    dest_port: u32,
    orig_host: Seq<char>,
    orig_port: u32,
) -> bool {
    spells(
        payload,
        seq![
            Field::Byte(90),
            Field::Text("direct-tcpip"@),
            Field::Number(id),
            Field::Number(s.default_window),
            Field::Number(s.default_max_packet),
            Field::Text(dest_host),
            Field::Number(dest_port),
            Field::Text(orig_host),
            Field::Number(orig_port),
        ],
    )
}

/// Opening a channel of that kind asks for the connection.
#[verifier::spinoff_prover]
#[verifier::rlimit(40)]
pub proof fn lemma_direct_connection_layout(
    s: ConnectionView,
    dest_host: Seq<char>,
    dest_port: u32,
    orig_host: Seq<char>,
    orig_port: u32,
)
    ensures
        ({
            let kind = ChannelOpenView::DirectTcpip { dest_host, dest_port, orig_host, orig_port };
            let (_, id, payload) = s.open(kind);
            asks_for_connection(payload, id, s, dest_host, dest_port, orig_host, orig_port)
        }),
{
    reveal(asks_for_connection);
    reveal_with_fuel(all_bytes, 10);
    let kind = ChannelOpenView::DirectTcpip { dest_host, dest_port, orig_host, orig_port };
    let (_, id, payload) = s.open(kind);
    let fields = seq![
        Field::Byte(90),
        Field::Text("direct-tcpip"@),
        Field::Number(id),
        Field::Number(s.default_window),
        Field::Number(s.default_max_packet),
        Field::Text(dest_host),
        Field::Number(dest_port),
        Field::Text(orig_host),
        Field::Number(orig_port),
    ];
    assert(kind.body() =~= all_bytes(fields, 5));
    assert(payload =~= all_bytes(fields, 0));
    lemma_spells(payload, fields);
}

} // verus!
