//! The connection protocol as a mathematical state machine: what each
//! operation sends, which event each packet raises, and what happens to the
//! table of channels.

use super::global::GlobalRequestView;
use super::msg::{
    MSG_CHANNEL_CLOSE, MSG_CHANNEL_DATA, MSG_CHANNEL_EOF, MSG_CHANNEL_EXTENDED_DATA,
    MSG_CHANNEL_FAILURE, MSG_CHANNEL_OPEN, MSG_CHANNEL_OPEN_CONFIRMATION, MSG_CHANNEL_OPEN_FAILURE,
    MSG_CHANNEL_REQUEST, MSG_CHANNEL_SUCCESS, MSG_CHANNEL_WINDOW_ADJUST, MSG_GLOBAL_REQUEST,
    MSG_REQUEST_FAILURE, MSG_REQUEST_SUCCESS,
};
use super::open::ChannelOpenView;
use super::request::ChannelRequestView;
use super::{field, get_text, wire_text};
use crate::error::Error;
use crate::format::{
    be32, get_bool, get_string, get_u32, get_u8, wire_bool, wire_string,
};
use vstd::prelude::*;

verus! {

/// One channel's bookkeeping.
#[verifier::ext_equal]
pub ghost struct ChannelView {
    pub local_id: u32,
    pub remote_id: u32,
    pub local_window: u32,
    pub remote_window: u32,
    pub local_max_packet: u32,
    pub remote_max_packet: u32,
    pub kind: Seq<char>,
    pub local_eof: bool,
    pub remote_eof: bool,
    pub local_closed: bool,
    pub remote_closed: bool,
    pub initial_local_window: u32,
    pub pending_replenish: u32,
    pub open_confirmed: bool,
}

/// A channel multiplexer: the tracked channels by local id, the next id to
/// try, and what new channels advertise.
#[verifier::ext_equal]
pub ghost struct ConnectionView {
    pub channels: Map<u32, ChannelView>,
    pub next_local_id: u32,
    pub default_window: u32,
    pub default_max_packet: u32,
}

/// What an inbound packet means.
#[verifier::ext_equal]
pub ghost enum EventView {
    OpenRequest { channel: u32, kind: ChannelOpenView },
    OpenConfirmed { channel: u32 },
    OpenFailed { channel: u32, reason: u32, description: Seq<char> },
    Data { channel: u32, data: Seq<u8> },
    ExtendedData { channel: u32, code: u32, data: Seq<u8> },
    WindowAdjust { channel: u32, added: u32 },
    Eof { channel: u32 },
    Close { channel: u32 },
    Request { channel: u32, request: ChannelRequestView, want_reply: bool },
    Success { channel: u32 },
    Failure { channel: u32 },
    GlobalRequest { request: GlobalRequestView, want_reply: bool },
    GlobalSuccess { data: Seq<u8> },
    GlobalFailure,
}

/// How many steps of adding one, wrapping around after `u32::MAX`, lead from
/// `a` to `b`.
pub open spec fn steps(a: u32, b: u32) -> int {
    if b >= a {
        b - a
    } else {
        b - a + 0x1_0000_0000
    }
}

/// `id` is the first id from `next` on that `m` does not hold.
pub open spec fn is_next_free(m: Map<u32, ChannelView>, next: u32, id: u32) -> bool {
    &&& !m.contains_key(id)
    &&& forall|i: u32| #![trigger m.contains_key(i)]
        steps(next, i) < steps(next, id) ==> m.contains_key(i)
}

/// The sum of two windows, at most `u32::MAX`.
pub open spec fn window_sum(a: u32, b: u32) -> u32 {
    if a + b > u32::MAX {
        u32::MAX
    } else {
        (a + b) as u32
    }
}

/// `SSH_MSG_CHANNEL_OPEN`.
pub open spec fn open_payload(
    kind: ChannelOpenView,
    id: u32,
    window: u32,
    max_packet: u32,
) -> Seq<u8> {
    seq![MSG_CHANNEL_OPEN] + wire_text(kind.kind()) + be32(id) + be32(window) + be32(max_packet)
        + kind.body()
}

/// `SSH_MSG_CHANNEL_OPEN_CONFIRMATION`.
pub open spec fn confirm_payload(remote: u32, id: u32, window: u32, max_packet: u32) -> Seq<u8> {
    seq![MSG_CHANNEL_OPEN_CONFIRMATION] + be32(remote) + be32(id) + be32(window) + be32(max_packet)
}

/// `SSH_MSG_CHANNEL_OPEN_FAILURE`.
pub open spec fn reject_payload(
    remote: u32,
    reason: u32,
    description: Seq<char>,
    language: Seq<char>,
) -> Seq<u8> {
    seq![MSG_CHANNEL_OPEN_FAILURE] + be32(remote) + be32(reason) + wire_text(description)
        + wire_text(language)
}

/// `SSH_MSG_CHANNEL_REQUEST`.
pub open spec fn request_payload(remote: u32, req: ChannelRequestView, want_reply: bool) -> Seq<
    u8,
> {
    seq![MSG_CHANNEL_REQUEST] + be32(remote) + wire_text(req.name()) + wire_bool(want_reply)
        + req.body()
}

/// A message that holds nothing but the peer's channel id.
pub open spec fn id_payload(msg: u8, remote: u32) -> Seq<u8> {
    seq![msg] + be32(remote)
}

/// `SSH_MSG_CHANNEL_DATA`.
pub open spec fn data_payload(remote: u32, data: Seq<u8>) -> Seq<u8> {
    seq![MSG_CHANNEL_DATA] + be32(remote) + wire_string(data)
}

/// `SSH_MSG_CHANNEL_EXTENDED_DATA`.
pub open spec fn extended_payload(remote: u32, code: u32, data: Seq<u8>) -> Seq<u8> {
    seq![MSG_CHANNEL_EXTENDED_DATA] + be32(remote) + be32(code) + wire_string(data)
}

/// `SSH_MSG_CHANNEL_WINDOW_ADJUST`.
pub open spec fn adjust_payload(remote: u32, added: u32) -> Seq<u8> {
    seq![MSG_CHANNEL_WINDOW_ADJUST] + be32(remote) + be32(added)
}

/// `SSH_MSG_GLOBAL_REQUEST`.
pub open spec fn global_payload(req: GlobalRequestView, want_reply: bool) -> Seq<u8> {
    seq![MSG_GLOBAL_REQUEST] + wire_text(req.name()) + wire_bool(want_reply) + req.body()
}

impl ChannelView {
    /// A channel that has just been opened from either side.
    pub open spec fn fresh(
        id: u32,
        remote_id: u32,
        local_window: u32,
        local_max_packet: u32,
        remote_window: u32,
        remote_max_packet: u32,
        kind: Seq<char>,
    ) -> ChannelView {
        ChannelView {
            local_id: id,
            remote_id,
            local_window,
            remote_window,
            local_max_packet,
            remote_max_packet,
            kind,
            local_eof: false,
            remote_eof: false,
            local_closed: false,
            remote_closed: false,
            initial_local_window: local_window,
            pending_replenish: 0,
            open_confirmed: false,
        }
    }

    /// Both sides have sent `CHANNEL_CLOSE`.
    pub open spec fn is_fully_closed(self) -> bool {
        self.local_closed && self.remote_closed
    }

    /// The open has been accepted and neither side has closed.
    pub open spec fn is_open(self) -> bool {
        self.open_confirmed && !self.local_closed && !self.remote_closed
    }

    /// Neither side has closed.
    pub open spec fn sendable(self) -> bool {
        !self.local_closed && !self.remote_closed
    }

    /// How many bytes one message with a header of `header` bytes may carry
    /// to the peer: its maximum packet and its window both bound it.
    pub open spec fn capacity(self, header: int) -> int {
        if self.remote_max_packet < header {
            0
        } else if self.remote_max_packet - header < self.remote_window {
            self.remote_max_packet - header
        } else {
            self.remote_window as int
        }
    }

    /// How many received bytes are saved up before they are credited back.
    pub open spec fn threshold(self) -> int {
        if self.initial_local_window / 2 >= 1 {
            (self.initial_local_window / 2) as int
        } else {
            1
        }
    }
}

/// How many of `len` bytes go into one message of capacity `cap`.
pub open spec fn share(len: nat, cap: int) -> int {
    if len < cap {
        len as int
    } else {
        cap
    }
}

impl ConnectionView {
    /// Some channel id is not in use.
    pub open spec fn has_room(self) -> bool {
        self.channels.len() < 0x1_0000_0000
    }

    /// The id that the next channel gets.
    pub open spec fn fresh_id(self) -> u32 {
        choose|id: u32| is_next_free(self.channels, self.next_local_id, id)
    }

    /// The state with channel `id` changed to `ch`.
    pub open spec fn with(self, id: u32, ch: ChannelView) -> ConnectionView {
        ConnectionView { channels: self.channels.insert(id, ch), ..self }
    }

    /// The state without channel `id`.
    pub open spec fn without(self, id: u32) -> ConnectionView {
        ConnectionView { channels: self.channels.remove(id), ..self }
    }

    /// The state with channel `id` changed to `ch`, or dropped if that leaves
    /// it closed from both sides.
    pub open spec fn with_or_dropped(self, id: u32, ch: ChannelView) -> ConnectionView {
        if ch.is_fully_closed() {
            self.without(id)
        } else {
            self.with(id, ch)
        }
    }

    /// The state with a new channel, tracked under the next free id.
    pub open spec fn with_new(
        self,
        remote_id: u32,
        remote_window: u32,
        remote_max_packet: u32,
        kind: Seq<char>,
    ) -> ConnectionView {
        let id = self.fresh_id();
        let ch = ChannelView::fresh(
            id,
            remote_id,
            self.default_window,
            self.default_max_packet,
            remote_window,
            remote_max_packet,
            kind,
        );
        ConnectionView {
            channels: self.channels.insert(id, ch),
            next_local_id: if id == u32::MAX {
                0
            } else {
                (id + 1) as u32
            },
            ..self
        }
    }

    /// The channel with that id, or the error for an unknown one.
    pub open spec fn find(self, id: u32) -> Result<ChannelView, Error> {
        if self.channels.contains_key(id) {
            Ok(self.channels[id])
        } else {
            Err(Error::BadChannelState)
        }
    }

    /// Open a channel: the new state, the channel's id, and what to send.
    pub open spec fn open(self, kind: ChannelOpenView) -> (ConnectionView, u32, Seq<u8>) {
        (
            self.with_new(0, 0, 0, kind.kind()),
            self.fresh_id(),
            open_payload(kind, self.fresh_id(), self.default_window, self.default_max_packet),
        )
    }

    /// Accept an open: it must be tracked and not confirmed yet.
    pub open spec fn accept_open(self, id: u32) -> Result<(ConnectionView, Seq<u8>), Error> {
        match self.find(id) {
            Err(e) => Err(e),
            Ok(ch) => if ch.open_confirmed {
                Err(Error::BadChannelState)
            } else {
                Ok(
                    (
                        self.with(id, ChannelView { open_confirmed: true, ..ch }),
                        confirm_payload(ch.remote_id, id, ch.local_window, ch.local_max_packet),
                    ),
                )
            },
        }
    }

    /// Refuse an open: it must be tracked and not confirmed yet, and is
    /// dropped.
    pub open spec fn reject_open(
        self,
        id: u32,
        reason: u32,
        description: Seq<char>,
        language: Seq<char>,
    ) -> Result<(ConnectionView, Seq<u8>), Error> {
        match self.find(id) {
            Err(e) => Err(e),
            Ok(ch) => if ch.open_confirmed {
                Err(Error::BadChannelState)
            } else {
                Ok(
                    (
                        self.without(id),
                        reject_payload(ch.remote_id, reason, description, language),
                    ),
                )
            },
        }
    }

    /// Send a channel request; neither side may have closed.
    pub open spec fn send_request(
        self,
        id: u32,
        req: ChannelRequestView,
        want_reply: bool,
    ) -> Result<Seq<u8>, Error> {
        match self.find(id) {
            Err(e) => Err(e),
            Ok(ch) => if ch.sendable() {
                Ok(request_payload(ch.remote_id, req, want_reply))
            } else {
                Err(Error::BadChannelState)
            },
        }
    }

    /// Answer a channel request with the message `msg`.
    pub open spec fn send_reply(self, id: u32, msg: u8) -> Result<Seq<u8>, Error> {
        match self.find(id) {
            Err(e) => Err(e),
            Ok(ch) => Ok(id_payload(msg, ch.remote_id)),
        }
    }

    /// Send as many of the bytes as fit; they are paid for from the peer's
    /// window. Neither side may have closed, nor we have sent EOF.
    pub open spec fn send_data(self, id: u32, data: Seq<u8>) -> Result<
        (ConnectionView, Seq<u8>, int),
        Error,
    > {
        match self.find(id) {
            Err(e) => Err(e),
            Ok(ch) => if ch.sendable() && !ch.local_eof {
                let n = share(data.len(), ch.capacity(9));
                Ok(
                    (
                        self.with(
                            id,
                            ChannelView {
                                remote_window: (ch.remote_window - n) as u32,
                                ..ch
                            },
                        ),
                        data_payload(ch.remote_id, data.take(n)),
                        n,
                    ),
                )
            } else {
                Err(Error::BadChannelState)
            },
        }
    }

    /// The same for extended data.
    pub open spec fn send_extended_data(self, id: u32, code: u32, data: Seq<u8>) -> Result<
        (ConnectionView, Seq<u8>, int),
        Error,
    > {
        match self.find(id) {
            Err(e) => Err(e),
            Ok(ch) => if ch.sendable() && !ch.local_eof {
                let n = share(data.len(), ch.capacity(13));
                Ok(
                    (
                        self.with(
                            id,
                            ChannelView {
                                remote_window: (ch.remote_window - n) as u32,
                                ..ch
                            },
                        ),
                        extended_payload(ch.remote_id, code, data.take(n)),
                        n,
                    ),
                )
            } else {
                Err(Error::BadChannelState)
            },
        }
    }

    /// Send EOF; we may not have closed.
    pub open spec fn send_eof(self, id: u32) -> Result<(ConnectionView, Seq<u8>), Error> {
        match self.find(id) {
            Err(e) => Err(e),
            Ok(ch) => if ch.local_closed {
                Err(Error::BadChannelState)
            } else {
                Ok(
                    (
                        self.with(id, ChannelView { local_eof: true, ..ch }),
                        id_payload(MSG_CHANNEL_EOF, ch.remote_id),
                    ),
                )
            },
        }
    }

    /// Send CLOSE; we may not have closed already.
    pub open spec fn send_close(self, id: u32) -> Result<(ConnectionView, Seq<u8>), Error> {
        match self.find(id) {
            Err(e) => Err(e),
            Ok(ch) => if ch.local_closed {
                Err(Error::BadChannelState)
            } else {
                Ok(
                    (
                        self.with_or_dropped(id, ChannelView { local_closed: true, ..ch }),
                        id_payload(MSG_CHANNEL_CLOSE, ch.remote_id),
                    ),
                )
            },
        }
    }

    /// Save up `by` received bytes; once half the initial window has been
    /// saved up, credit all of it to the peer.
    pub open spec fn replenish_window(self, id: u32, by: u32) -> Result<
        (ConnectionView, Option<Seq<u8>>),
        Error,
    > {
        match self.find(id) {
            Err(e) => Err(e),
            Ok(ch) => if ch.local_closed {
                Err(Error::BadChannelState)
            } else if by == 0 {
                Ok((self, None))
            } else {
                let saved = window_sum(ch.pending_replenish, by);
                if saved < ch.threshold() {
                    Ok((self.with(id, ChannelView { pending_replenish: saved, ..ch }), None))
                } else {
                    Ok(
                        (
                            self.with(
                                id,
                                ChannelView {
                                    pending_replenish: 0,
                                    local_window: window_sum(ch.local_window, saved),
                                    ..ch
                                },
                            ),
                            Some(adjust_payload(ch.remote_id, saved)),
                        ),
                    )
                }
            },
        }
    }

    /// A packet from the peer: the new state and the event, or the error; an
    /// error leaves the state as it was.
    pub open spec fn on_packet(self, payload: Seq<u8>) -> Result<(ConnectionView, EventView), Error> {
        match get_u8(payload) {
            None => Err(crate::format::truncated()),
            Some((msg, body)) => if msg == MSG_GLOBAL_REQUEST {
                self.on_global_request(body)
            } else if msg == MSG_REQUEST_SUCCESS {
                Ok((self, EventView::GlobalSuccess { data: body }))
            } else if msg == MSG_REQUEST_FAILURE {
                Ok((self, EventView::GlobalFailure))
            } else if msg == MSG_CHANNEL_OPEN {
                self.on_channel_open(body)
            } else if msg == MSG_CHANNEL_OPEN_CONFIRMATION {
                self.on_open_confirmation(body)
            } else if msg == MSG_CHANNEL_OPEN_FAILURE {
                self.on_open_failure(body)
            } else if msg == MSG_CHANNEL_WINDOW_ADJUST {
                self.on_window_adjust(body)
            } else if msg == MSG_CHANNEL_DATA {
                self.on_channel_data(body)
            } else if msg == MSG_CHANNEL_EXTENDED_DATA {
                self.on_extended_data(body)
            } else if msg == MSG_CHANNEL_EOF {
                self.on_channel_eof(body)
            } else if msg == MSG_CHANNEL_CLOSE {
                self.on_channel_close(body)
            } else if msg == MSG_CHANNEL_REQUEST {
                self.on_channel_request(body)
            } else if msg == MSG_CHANNEL_SUCCESS {
                self.on_channel_success(body)
            } else if msg == MSG_CHANNEL_FAILURE {
                self.on_channel_failure(body)
            } else {
                Err(Error::Protocol("unexpected message for channel layer"))
            },
        }
    }

    pub open spec fn on_global_request(self, body: Seq<u8>) -> Result<
        (ConnectionView, EventView),
        Error,
    > {
        match get_text(body, "invalid utf-8") {
            Err(e) => Err(e),
            Ok((name, r1)) => match field(get_bool(r1)) {
                Err(e) => Err(e),
                Ok((want_reply, tail)) => match GlobalRequestView::decode(name, tail) {
                    Err(e) => Err(e),
                    Ok(request) => Ok((self, EventView::GlobalRequest { request, want_reply })),
                },
            },
        }
    }

    pub open spec fn on_channel_open(self, body: Seq<u8>) -> Result<
        (ConnectionView, EventView),
        Error,
    > {
        match get_text(body, "invalid utf-8") {
            Err(e) => Err(e),
            Ok((name, r1)) => match field(get_u32(r1)) {
                Err(e) => Err(e),
                Ok((remote_id, r2)) => match field(get_u32(r2)) {
                    Err(e) => Err(e),
                    Ok((window, r3)) => match field(get_u32(r3)) {
                        Err(e) => Err(e),
                        Ok((max_packet, tail)) => match ChannelOpenView::decode(name, tail) {
                            Err(e) => Err(e),
                            Ok(kind) => Ok(
                                (
                                    self.with_new(remote_id, window, max_packet, name),
                                    EventView::OpenRequest { channel: self.fresh_id(), kind },
                                ),
                            ),
                        },
                    },
                },
            },
        }
    }

    pub open spec fn on_open_confirmation(self, body: Seq<u8>) -> Result<
        (ConnectionView, EventView),
        Error,
    > {
        match field(get_u32(body)) {
            Err(e) => Err(e),
            Ok((id, r1)) => match field(get_u32(r1)) {
                Err(e) => Err(e),
                Ok((remote_id, r2)) => match field(get_u32(r2)) {
                    Err(e) => Err(e),
                    Ok((remote_window, r3)) => match field(get_u32(r3)) {
                        Err(e) => Err(e),
                        Ok((remote_max_packet, _)) => if !self.channels.contains_key(id) {
                            Err(Error::Protocol("open-confirm for unknown channel"))
                        } else if self.channels[id].open_confirmed {
                            Err(Error::Protocol("double open-confirm"))
                        } else {
                            Ok(
                                (
                                    self.with(
                                        id,
                                        ChannelView {
                                            remote_id,
                                            remote_window,
                                            remote_max_packet,
                                            open_confirmed: true,
                                            ..self.channels[id]
                                        },
                                    ),
                                    EventView::OpenConfirmed { channel: id },
                                ),
                            )
                        },
                    },
                },
            },
        }
    }

    pub open spec fn on_open_failure(self, body: Seq<u8>) -> Result<
        (ConnectionView, EventView),
        Error,
    > {
        match field(get_u32(body)) {
            Err(e) => Err(e),
            Ok((id, r1)) => match field(get_u32(r1)) {
                Err(e) => Err(e),
                Ok((reason, r2)) => match get_text(
                    r2,
                    "invalid utf-8 in open-failure description",
                ) {
                    Err(e) => Err(e),
                    Ok((description, r3)) => match field(get_string(r3)) {
                        Err(e) => Err(e),
                        Ok(_) => if self.channels.contains_key(id) {
                            Ok(
                                (
                                    self.without(id),
                                    EventView::OpenFailed { channel: id, reason, description },
                                ),
                            )
                        } else {
                            Err(Error::Protocol("open-failure for unknown channel"))
                        },
                    },
                },
            },
        }
    }

    pub open spec fn on_window_adjust(self, body: Seq<u8>) -> Result<
        (ConnectionView, EventView),
        Error,
    > {
        match field(get_u32(body)) {
            Err(e) => Err(e),
            Ok((id, r1)) => match field(get_u32(r1)) {
                Err(e) => Err(e),
                Ok((added, _)) => match self.find(id) {
                    Err(e) => Err(e),
                    Ok(ch) => Ok(
                        (
                            self.with(
                                id,
                                ChannelView {
                                    remote_window: window_sum(ch.remote_window, added),
                                    ..ch
                                },
                            ),
                            EventView::WindowAdjust { channel: id, added },
                        ),
                    ),
                },
            },
        }
    }

    /// The state after `data` arrived on channel `id`: it must fit the window
    /// and the maximum packet we advertised, and the peer may not have said
    /// that it is done (`late` is the complaint if it has).
    pub open spec fn receive(self, id: u32, data: Seq<u8>, late: &'static str) -> Result<
        ConnectionView,
        Error,
    > {
        match self.find(id) {
            Err(e) => Err(e),
            Ok(ch) => if ch.remote_eof || ch.remote_closed {
                Err(Error::Protocol(late))
            } else if data.len() > ch.local_window {
                Err(Error::Protocol("peer exceeded advertised window"))
            } else if data.len() > ch.local_max_packet {
                Err(Error::Protocol("peer exceeded max packet"))
            } else {
                Ok(
                    self.with(
                        id,
                        ChannelView { local_window: (ch.local_window - data.len()) as u32, ..ch },
                    ),
                )
            },
        }
    }

    pub open spec fn on_channel_data(self, body: Seq<u8>) -> Result<
        (ConnectionView, EventView),
        Error,
    > {
        match field(get_u32(body)) {
            Err(e) => Err(e),
            Ok((id, r1)) => match field(get_string(r1)) {
                Err(e) => Err(e),
                Ok((data, _)) => match self.receive(id, data, "data after EOF/close") {
                    Err(e) => Err(e),
                    Ok(s) => Ok((s, EventView::Data { channel: id, data })),
                },
            },
        }
    }

    pub open spec fn on_extended_data(self, body: Seq<u8>) -> Result<
        (ConnectionView, EventView),
        Error,
    > {
        match field(get_u32(body)) {
            Err(e) => Err(e),
            Ok((id, r1)) => match field(get_u32(r1)) {
                Err(e) => Err(e),
                Ok((code, r2)) => match field(get_string(r2)) {
                    Err(e) => Err(e),
                    Ok((data, _)) => match self.receive(id, data, "extended data after EOF/close") {
                        Err(e) => Err(e),
                        Ok(s) => Ok((s, EventView::ExtendedData { channel: id, code, data })),
                    },
                },
            },
        }
    }

    pub open spec fn on_channel_eof(self, body: Seq<u8>) -> Result<
        (ConnectionView, EventView),
        Error,
    > {
        match field(get_u32(body)) {
            Err(e) => Err(e),
            Ok((id, _)) => match self.find(id) {
                Err(e) => Err(e),
                Ok(ch) => Ok(
                    (
                        self.with(id, ChannelView { remote_eof: true, ..ch }),
                        EventView::Eof { channel: id },
                    ),
                ),
            },
        }
    }

    pub open spec fn on_channel_close(self, body: Seq<u8>) -> Result<
        (ConnectionView, EventView),
        Error,
    > {
        match field(get_u32(body)) {
            Err(e) => Err(e),
            Ok((id, _)) => match self.find(id) {
                Err(e) => Err(e),
                Ok(ch) => Ok(
                    (
                        self.with_or_dropped(id, ChannelView { remote_closed: true, ..ch }),
                        EventView::Close { channel: id },
                    ),
                ),
            },
        }
    }

    pub open spec fn on_channel_request(self, body: Seq<u8>) -> Result<
        (ConnectionView, EventView),
        Error,
    > {
        match field(get_u32(body)) {
            Err(e) => Err(e),
            Ok((id, r1)) => match get_text(r1, "invalid utf-8") {
                Err(e) => Err(e),
                Ok((name, r2)) => match field(get_bool(r2)) {
                    Err(e) => Err(e),
                    Ok((want_reply, tail)) => match ChannelRequestView::decode(name, tail) {
                        Err(e) => Err(e),
                        Ok(request) => match self.find(id) {
                            Err(e) => Err(e),
                            Ok(_) => Ok(
                                (self, EventView::Request { channel: id, request, want_reply }),
                            ),
                        },
                    },
                },
            },
        }
    }

    pub open spec fn on_channel_success(self, body: Seq<u8>) -> Result<
        (ConnectionView, EventView),
        Error,
    > {
        match field(get_u32(body)) {
            Err(e) => Err(e),
            Ok((id, _)) => match self.find(id) {
                Err(e) => Err(e),
                Ok(_) => Ok((self, EventView::Success { channel: id })),
            },
        }
    }

    pub open spec fn on_channel_failure(self, body: Seq<u8>) -> Result<
        (ConnectionView, EventView),
        Error,
    > {
        match field(get_u32(body)) {
            Err(e) => Err(e),
            Ok((id, _)) => match self.find(id) {
                Err(e) => Err(e),
                Ok(_) => Ok((self, EventView::Failure { channel: id })),
            },
        }
    }
}

} // verus!
