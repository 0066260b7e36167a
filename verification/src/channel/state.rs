//! Channel multiplexer state machine.

use super::global::GlobalRequest;
use super::model::{
    global_payload, is_next_free, open_payload, reject_payload, request_payload, steps,
    ChannelView, ConnectionView, EventView,
};
use super::msg::{
    DEFAULT_MAX_PACKET, DEFAULT_WINDOW, MSG_CHANNEL_CLOSE, MSG_CHANNEL_DATA, MSG_CHANNEL_EOF,
    MSG_CHANNEL_EXTENDED_DATA, MSG_CHANNEL_FAILURE, MSG_CHANNEL_OPEN,
    MSG_CHANNEL_OPEN_CONFIRMATION, MSG_CHANNEL_OPEN_FAILURE, MSG_CHANNEL_REQUEST,
    MSG_CHANNEL_SUCCESS, MSG_CHANNEL_WINDOW_ADJUST, MSG_GLOBAL_REQUEST, MSG_REQUEST_FAILURE,
    MSG_REQUEST_SUCCESS,
};
use super::open::ChannelOpen;
use super::read_utf8;
use super::request::ChannelRequest;
use crate::error::Error;
use crate::format::{Reader, Writer};
use std::collections::BTreeMap;
use vstd::prelude::*;
use vstd::std_specs::cmp::OrdSpec;
use vstd::std_specs::iter::IteratorSpec;

verus! {

broadcast use vstd::std_specs::btree::group_btree_axioms;

/// One channel's bookkeeping.
#[derive(Debug, Clone)]
pub struct ChannelState {
    /// Our channel id; the peer addresses us by this.
    pub local_id: u32,
    /// Peer's channel id; we address them by this.
    pub remote_id: u32,
    /// Bytes the peer may still send us.
    pub local_window: u32,
    /// Bytes we may still send to the peer.
    pub remote_window: u32,
    /// Max packet payload we accept from the peer.
    pub local_max_packet: u32,
    /// Max packet payload the peer accepts from us.
    pub remote_max_packet: u32,
    /// Channel type as advertised in `SSH_MSG_CHANNEL_OPEN`.
    pub kind: String,
    /// `CHANNEL_EOF` already sent locally.
    pub local_eof: bool,
    /// `CHANNEL_EOF` received from the peer.
    pub remote_eof: bool,
    /// `CHANNEL_CLOSE` already sent locally.
    pub local_closed: bool,
    /// `CHANNEL_CLOSE` received from the peer.
    pub remote_closed: bool,
    initial_local_window: u32,
    pending_replenish: u32,
    open_confirmed: bool,
}

impl View for ChannelState {
    type V = ChannelView;

    closed spec fn view(&self) -> ChannelView {
        ChannelView {
            local_id: self.local_id,
            remote_id: self.remote_id,
            local_window: self.local_window,
            remote_window: self.remote_window,
            local_max_packet: self.local_max_packet,
            remote_max_packet: self.remote_max_packet,
            kind: self.kind@,
            local_eof: self.local_eof,
            remote_eof: self.remote_eof,
            local_closed: self.local_closed,
            remote_closed: self.remote_closed,
            initial_local_window: self.initial_local_window,
            pending_replenish: self.pending_replenish,
            open_confirmed: self.open_confirmed,
        }
    }
}

impl ChannelState {
    /// True once both sides have sent `CHANNEL_CLOSE`. The id may be reused.
    pub fn is_fully_closed(&self) -> (r: bool)
        ensures
            r == self@.is_fully_closed(),
    {
        self.local_closed && self.remote_closed
    }

    /// True once the peer accepted (or we accepted) the open.
    pub fn is_open(&self) -> (r: bool)
        ensures
            r == self@.is_open(),
    {
        self.open_confirmed && !self.local_closed && !self.remote_closed
    }

    /// Our channel id.
    pub fn local_id(&self) -> (r: u32)
        ensures
            r == self@.local_id,
    {
        self.local_id
    }

    /// The peer's channel id.
    pub fn remote_id(&self) -> (r: u32)
        ensures
            r == self@.remote_id,
    {
        self.remote_id
    }

    /// Bytes the peer may still send us.
    pub fn local_window(&self) -> (r: u32)
        ensures
            r == self@.local_window,
    {
        self.local_window
    }

    /// Bytes we may still send to the peer.
    pub fn remote_window(&self) -> (r: u32)
        ensures
            r == self@.remote_window,
    {
        self.remote_window
    }

    /// Max packet payload we accept from the peer.
    pub fn local_max_packet(&self) -> (r: u32)
        ensures
            r == self@.local_max_packet,
    {
        self.local_max_packet
    }

    /// Max packet payload the peer accepts from us.
    pub fn remote_max_packet(&self) -> (r: u32)
        ensures
            r == self@.remote_max_packet,
    {
        self.remote_max_packet
    }

    /// The channel type.
    pub fn kind(&self) -> (r: &str)
        ensures
            r@ == self@.kind,
    {
        self.kind.as_str()
    }

    /// Whether we have sent `CHANNEL_EOF`.
    pub fn local_eof(&self) -> (r: bool)
        ensures
            r == self@.local_eof,
    {
        self.local_eof
    }

    /// Whether the peer has sent `CHANNEL_EOF`.
    pub fn remote_eof(&self) -> (r: bool)
        ensures
            r == self@.remote_eof,
    {
        self.remote_eof
    }

    /// Whether we have sent `CHANNEL_CLOSE`.
    pub fn local_closed(&self) -> (r: bool)
        ensures
            r == self@.local_closed,
    {
        self.local_closed
    }

    /// Whether the peer has sent `CHANNEL_CLOSE`.
    pub fn remote_closed(&self) -> (r: bool)
        ensures
            r == self@.remote_closed,
    {
        self.remote_closed
    }
}

/// A decoded inbound event, surfaced by [`ConnectionState::on_packet`].
#[derive(Debug, Clone)]
pub enum ChannelEvent {
    /// `SSH_MSG_CHANNEL_OPEN` from the peer.
    OpenRequest {
        /// Local id we allocated to track this channel.
        channel: u32,
        /// The channel-type-specific body.
        kind: ChannelOpen,
    },
    /// `SSH_MSG_CHANNEL_OPEN_CONFIRMATION` for a channel we opened.
    OpenConfirmed {
        /// Local id.
        channel: u32,
    },
    /// `SSH_MSG_CHANNEL_OPEN_FAILURE` for a channel we opened.
    OpenFailed {
        /// Local id (now released).
        channel: u32,
        /// `reason_code`.
        reason: u32,
        /// `description` field.
        description: String,
    },
    /// `SSH_MSG_CHANNEL_DATA`.
    Data {
        /// Local id.
        channel: u32,
        /// The data bytes.
        data: Vec<u8>,
    },
    /// `SSH_MSG_CHANNEL_EXTENDED_DATA`.
    ExtendedData {
        /// Local id.
        channel: u32,
        /// Extended-data type code (e.g. `1` for stderr).
        code: u32,
        /// The data bytes.
        data: Vec<u8>,
    },
    /// `SSH_MSG_CHANNEL_WINDOW_ADJUST`.
    WindowAdjust {
        /// Local id.
        channel: u32,
        /// Bytes the peer just credited to our send window.
        added: u32,
    },
    /// `SSH_MSG_CHANNEL_EOF`.
    Eof {
        /// Local id.
        channel: u32,
    },
    /// `SSH_MSG_CHANNEL_CLOSE`.
    Close {
        /// Local id.
        channel: u32,
    },
    /// `SSH_MSG_CHANNEL_REQUEST`.
    Request {
        /// Local id.
        channel: u32,
        /// Decoded request body.
        request: ChannelRequest,
        /// Whether the peer wants a reply.
        want_reply: bool,
    },
    /// `SSH_MSG_CHANNEL_SUCCESS` to a request we sent with `want_reply = true`.
    Success {
        /// Local id.
        channel: u32,
    },
    /// `SSH_MSG_CHANNEL_FAILURE` to a request we sent with `want_reply = true`.
    Failure {
        /// Local id.
        channel: u32,
    },
    /// `SSH_MSG_GLOBAL_REQUEST` from the peer.
    GlobalRequest {
        /// Decoded request body.
        request: GlobalRequest,
        /// Whether the peer wants a reply.
        want_reply: bool,
    },
    /// `SSH_MSG_REQUEST_SUCCESS` to a global request we sent.
    GlobalSuccess {
        /// Any request-specific tail bytes.
        data: Vec<u8>,
    },
    /// `SSH_MSG_REQUEST_FAILURE` to a global request we sent.
    GlobalFailure,
}

impl View for ChannelEvent {
    type V = EventView;

    open spec fn view(&self) -> EventView {
        match self {
            ChannelEvent::OpenRequest { channel, kind } => EventView::OpenRequest {
                channel: *channel,
                kind: kind@,
            },
            ChannelEvent::OpenConfirmed { channel } => EventView::OpenConfirmed {
                channel: *channel,
            },
            ChannelEvent::OpenFailed { channel, reason, description } => EventView::OpenFailed {
                channel: *channel,
                reason: *reason,
                description: description@,
            },
            ChannelEvent::Data { channel, data } => EventView::Data {
                channel: *channel,
                data: data@,
            },
            ChannelEvent::ExtendedData { channel, code, data } => EventView::ExtendedData {
                channel: *channel,
                code: *code,
                data: data@,
            },
            ChannelEvent::WindowAdjust { channel, added } => EventView::WindowAdjust {
                channel: *channel,
                added: *added,
            },
            ChannelEvent::Eof { channel } => EventView::Eof { channel: *channel },
            ChannelEvent::Close { channel } => EventView::Close { channel: *channel },
            ChannelEvent::Request { channel, request, want_reply } => EventView::Request {
                channel: *channel,
                request: request@,
                want_reply: *want_reply,
            },
            ChannelEvent::Success { channel } => EventView::Success { channel: *channel },
            ChannelEvent::Failure { channel } => EventView::Failure { channel: *channel },
            ChannelEvent::GlobalRequest { request, want_reply } => EventView::GlobalRequest {
                request: request@,
                want_reply: *want_reply,
            },
            ChannelEvent::GlobalSuccess { data } => EventView::GlobalSuccess { data: data@ },
            ChannelEvent::GlobalFailure => EventView::GlobalFailure,
        }
    }
}

/// Channel multiplexer for one peer.
#[derive(Debug, Clone)]
pub struct ConnectionState {
    channels: BTreeMap<u32, ChannelState>,
    next_local_id: u32,
    /// Initial window we advertise for new local channels.
    pub default_window: u32,
    /// Max packet size we advertise for new local channels.
    pub default_max_packet: u32,
}

impl View for ConnectionState {
    type V = ConnectionView;

    closed spec fn view(&self) -> ConnectionView {
        ConnectionView {
            channels: self.channels@.map_values(|c: ChannelState| c@),
            next_local_id: self.next_local_id,
            default_window: self.default_window,
            default_max_packet: self.default_max_packet,
        }
    }
}

impl Default for ConnectionState {
    fn default() -> (r: Self)
        ensures
            r@.channels == Map::<u32, ChannelView>::empty(),
            r@.next_local_id == 0,
            r@.default_window == DEFAULT_WINDOW,
            r@.default_max_packet == DEFAULT_MAX_PACKET,
    {
        Self::new()
    }
}

/// The outcome of an operation whose model gives a new state and a payload:
/// on success both are as in the model, on failure the state is untouched.
pub open spec fn sent(
    before: ConnectionView,
    after: ConnectionView,
    r: Result<Vec<u8>, Error>,
    model: Result<(ConnectionView, Seq<u8>), Error>,
) -> bool {
    match model {
        Ok((s, payload)) => r matches Ok(p) && p@ == payload && after == s,
        Err(e) => r == Err::<Vec<u8>, Error>(e) && after == before,
    }
}

/// The outcome of handling a packet: on success the event and the state are
/// as in the model, on failure the state is untouched.
pub open spec fn handled(
    before: ConnectionView,
    after: ConnectionView,
    r: Result<ChannelEvent, Error>,
    model: Result<(ConnectionView, EventView), Error>,
) -> bool {
    match model {
        Ok((s, event)) => r matches Ok(ev) && ev@ == event && after == s,
        Err(e) => r == Err::<ChannelEvent, Error>(e) && after == before,
    }
}

/// A table of fewer than 2^32 channels leaves an id free.
pub(crate) proof fn lemma_free_id_exists(m: Map<u32, ChannelView>)
    requires
        m.dom().finite(),
        m.len() < 0x1_0000_0000,
    ensures
        exists|id: u32| !m.contains_key(id),
{
    if forall|id: u32| m.contains_key(id) {
        let ints = vstd::set_lib::set_int_range(0, 0x1_0000_0000);
        let f = |i: int| i as u32;
        vstd::set_lib::lemma_int_range(0, 0x1_0000_0000);
        vstd::set_lib::lemma_map_size(ints, ints.map(f), f);
        assert(ints.map(f).subset_of(m.dom())) by {
            assert forall|x: u32| ints.map(f).contains(x) implies m.dom().contains(x) by {
                assert(m.contains_key(x));
            }
        }
        vstd::set_lib::lemma_len_subset(ints.map(f), m.dom());
    }
}

/// The first free id is determined by the table and the starting point.
proof fn lemma_next_free_unique(m: Map<u32, ChannelView>, next: u32, a: u32, b: u32)
    requires
        is_next_free(m, next, a),
        is_next_free(m, next, b),
    ensures
        a == b,
{
    assert(!m.contains_key(a) && !m.contains_key(b));
    assert(!(steps(next, a) < steps(next, b)));
    assert(!(steps(next, b) < steps(next, a)));
}

impl ConnectionState {
    /// Build an empty connection state with reasonable defaults.
    pub fn new() -> (r: Self)
        ensures
            r@.channels == Map::<u32, ChannelView>::empty(),
            r@.next_local_id == 0,
            r@.default_window == DEFAULT_WINDOW,
            r@.default_max_packet == DEFAULT_MAX_PACKET,
    {
        let r = ConnectionState {
            channels: BTreeMap::new(),
            next_local_id: 0,
            default_window: DEFAULT_WINDOW,
            default_max_packet: DEFAULT_MAX_PACKET,
        };
        assert(r@.channels =~= Map::<u32, ChannelView>::empty());
        r
    }

    /// Initial window we advertise for new local channels.
    pub fn default_window(&self) -> (r: u32)
        ensures
            r == self@.default_window,
    {
        self.default_window
    }

    /// Set the initial window we advertise for new local channels.
    pub fn set_default_window(&mut self, n: u32)
        ensures
            final(self)@ == (ConnectionView { default_window: n, ..old(self)@ }),
    {
        self.default_window = n;
    }

    /// Max packet size we advertise for new local channels.
    pub fn default_max_packet(&self) -> (r: u32)
        ensures
            r == self@.default_max_packet,
    {
        self.default_max_packet
    }

    /// Set the max packet size we advertise for new local channels.
    pub fn set_default_max_packet(&mut self, n: u32)
        ensures
            final(self)@ == (ConnectionView { default_max_packet: n, ..old(self)@ }),
    {
        self.default_max_packet = n;
    }

    /// Look up a channel by local id.
    pub fn channel(&self, id: u32) -> (r: Option<&ChannelState>)
        ensures
            match r {
                Some(c) => self@.channels.contains_key(id) && c@ == self@.channels[id],
                None => !self@.channels.contains_key(id),
            },
    {
        self.channels.get(&id)
    }

    /// All currently tracked channels, in the order of their local ids.
    pub fn channels(&self) -> (r: Vec<&ChannelState>)
        ensures
            exists|ids: Seq<u32>|
                #![trigger ids.to_set()]
                {
                    &&& ids.to_set() == self@.channels.dom()
                    &&& forall|i: int, j: int| 0 <= i < j < ids.len() ==> ids[i] < ids[j]
                    &&& r@.len() == ids.len()
                    &&& forall|i: int|
                        #![trigger ids[i]]
                        0 <= i < ids.len() ==> r@[i]@ == self@.channels[ids[i]]
                },
    {
        let mut out: Vec<&ChannelState> = Vec::new();
        let ghost mut ids: Seq<u32> = Seq::empty();
        let items = self.channels.iter();
        let ghost model = vstd::std_specs::btree::into_iter(items);
        assert(items.remaining().map_values(|kv: (&u32, &ChannelState)| *kv.0).len()
            == items.remaining().len());
        assert forall|i: int, j: int| 0 <= i < j < model.len() implies model[i].0 < model[j].0 by {
            let keys = items.remaining().map_values(|kv: (&u32, &ChannelState)| *kv.0);
            assert(keys[i].cmp_spec(&keys[j]) is Less);
            assert(keys[i] == model[i].0 && keys[j] == model[j].0);
        }
        assert(model.len() == self.channels@.dom().len());
        assert(model.to_set() == self.channels@.kv_pairs());
        for kv in it: items
            invariant
                ids.len() == it.index(),
                out@.len() == it.index(),
                it.seq().unref() == model,
                forall|i: int| #![trigger ids[i]] 0 <= i < ids.len() ==> ids[i] == model[i].0,
                forall|i: int|
                    #![trigger out@[i]]
                    0 <= i < out@.len() ==> *out@[i] == model[i].1,
        {
            proof {
                ids = ids.push(*kv.0);
            }
            out.push(kv.1);
        }
        proof {
            assert(ids.len() == model.len());
            assert forall|i: int| #![trigger ids[i]] 0 <= i < ids.len() implies self@.channels.contains_key(ids[i]) && out@[i]@
                == self@.channels[ids[i]] by {
                assert(model.to_set().contains(model[i]));
            }
            assert(ids.to_set() =~= self@.channels.dom()) by {
                assert forall|k: u32| self@.channels.dom().contains(k) implies ids.to_set().contains(k) by {
                    assert(self.channels@.kv_pairs().contains((k, self.channels@[k])));
                    let i = choose|i: int| 0 <= i < model.len() && model[i] == (k, self.channels@[k]);
                    assert(ids[i] == k);
                }
            }
        }
        out
    }

    /// Whether a new channel can still be given an id.
    pub fn has_room(&self) -> (r: bool)
        ensures
            r == self@.has_room(),
    {
        assert(self@.channels.dom() =~= self.channels@.dom());
        (self.channels.len() as u64) < 0x1_0000_0000
    }

    fn allocate_local_id(&mut self) -> (id: u32)
        requires
            old(self)@.has_room(),
        ensures
            is_next_free(old(self)@.channels, old(self)@.next_local_id, id),
            id == old(self)@.fresh_id(),
            final(self)@ == (ConnectionView {
                next_local_id: if id == u32::MAX {
                    0
                } else {
                    (id + 1) as u32
                },
                ..old(self)@
            }),
    {
        let ghost m = self@.channels;
        let ghost start = self.next_local_id;
        assert(self@.channels.dom() =~= self.channels@.dom());
        proof {
            lemma_free_id_exists(m);
        }
        let ghost free = choose|id: u32| !m.contains_key(id);
        loop
            invariant
                m == old(self)@.channels,
                start == old(self)@.next_local_id,
                self.channels == old(self).channels,
                self.default_window == old(self).default_window,
                self.default_max_packet == old(self).default_max_packet,
                !m.contains_key(free),
                steps(start, self.next_local_id) + steps(self.next_local_id, free) == steps(
                    start,
                    free,
                ),
                forall|i: u32| #![trigger m.contains_key(i)]
                    steps(start, i) < steps(start, self.next_local_id) ==> m.contains_key(i),
            decreases steps(self.next_local_id, free),
        {
            let id: u32 = self.next_local_id;
            self.next_local_id = self.next_local_id.wrapping_add(1);
            if !self.channels.contains_key(&id) {
                proof {
                    assert(!m.contains_key(id));
                    assert(is_next_free(m, start, id));
                    lemma_next_free_unique(m, start, id, old(self)@.fresh_id());
                }
                return id;
            }
            assert(m.contains_key(id));
        }
    }

    /// Track `ch` under `id`.
    fn put(&mut self, id: u32, ch: ChannelState)
        ensures
            final(self)@ == old(self)@.with(id, ch@),
    {
        self.channels.insert(id, ch);
        assert(self@.channels =~= old(self)@.channels.insert(id, ch@));
    }

    /// Stop tracking `id`.
    fn take(&mut self, id: u32) -> (r: Option<ChannelState>)
        ensures
            final(self)@ == old(self)@.without(id),
            match r {
                Some(c) => old(self)@.channels.contains_key(id) && c@ == old(self)@.channels[id],
                None => !old(self)@.channels.contains_key(id),
            },
    {
        let r = self.channels.remove(&id);
        assert(self@.channels =~= old(self)@.channels.remove(id));
        r
    }

    /// Open a new outgoing channel.
    ///
    /// Returns `(local_id, payload)` where `payload` is the bytes of the
    /// `SSH_MSG_CHANNEL_OPEN` to hand off to the transport. The channel is
    /// tracked but not yet open; the peer must reply with
    /// `OPEN_CONFIRMATION` (turning it into [`ChannelEvent::OpenConfirmed`])
    /// or `OPEN_FAILURE` (turning it into [`ChannelEvent::OpenFailed`] and
    /// dropping the entry).
    pub fn open(&mut self, kind: ChannelOpen) -> (r: Result<(u32, Vec<u8>), Error>)
        requires
            old(self)@.has_room(),
        ensures
            r matches Ok((id, payload)) && (final(self)@, id, payload@) == old(self)@.open(kind@),
            is_next_free(old(self)@.channels, old(self)@.next_local_id, r->Ok_0.0),
    {
        let local_id: u32 = self.allocate_local_id();
        let local_window: u32 = self.default_window;
        let local_max_packet: u32 = self.default_max_packet;
        let state = ChannelState {
            local_id,
            remote_id: 0,
            local_window,
            remote_window: 0,
            local_max_packet,
            remote_max_packet: 0,
            kind: kind.kind().to_owned(),
            local_eof: false,
            remote_eof: false,
            local_closed: false,
            remote_closed: false,
            initial_local_window: local_window,
            pending_replenish: 0,
            open_confirmed: false,
        };
        self.put(local_id, state);
        let mut w = Writer::new();
        w.write_u8(MSG_CHANNEL_OPEN);
        w.write_string(kind.kind().as_bytes());
        w.write_u32(local_id);
        w.write_u32(local_window);
        w.write_u32(local_max_packet);
        kind.encode_tail(&mut w);
        assert(w@ =~= open_payload(kind@, local_id, local_window, local_max_packet));
        Ok((local_id, w.into_vec()))
    }

    /// Build an `OPEN_CONFIRMATION` payload accepting a peer-initiated open.
    ///
    /// `local_id` must reference a channel that was created by
    /// [`Self::on_packet`] but not yet confirmed.
    pub fn accept_open(&mut self, local_id: u32) -> (r: Result<Vec<u8>, Error>)
        ensures
            sent(old(self)@, final(self)@, r, old(self)@.accept_open(local_id)),
    {
        match self.take(local_id) {
            None => {
                assert(self@ =~= old(self)@);
                Err(Error::BadChannelState)
            },
            Some(mut ch) => {
                if ch.open_confirmed {
                    self.put(local_id, ch);
                    assert(self@ =~= old(self)@);
                    return Err(Error::BadChannelState);
                }
                ch.open_confirmed = true;
                let mut w = Writer::new();
                w.write_u8(MSG_CHANNEL_OPEN_CONFIRMATION);
                w.write_u32(ch.remote_id);
                w.write_u32(local_id);
                w.write_u32(ch.local_window);
                w.write_u32(ch.local_max_packet);
                self.put(local_id, ch);
                assert(self@ =~= old(self)@.accept_open(local_id)->Ok_0.0);
                Ok(w.into_vec())
            },
        }
    }

    /// Build an `OPEN_FAILURE` payload rejecting a peer-initiated open.
    ///
    /// The local-side bookkeeping for the channel is dropped.
    pub fn reject_open(
        &mut self,
        local_id: u32,
        reason: u32,
        description: &str,
        language: &str,
    ) -> (r: Result<Vec<u8>, Error>)
        ensures
            sent(
                old(self)@,
                final(self)@,
                r,
                old(self)@.reject_open(local_id, reason, description@, language@),
            ),
    {
        match self.take(local_id) {
            None => {
                assert(self@ =~= old(self)@);
                Err(Error::BadChannelState)
            },
            Some(ch) => {
                if ch.open_confirmed {
                    self.put(local_id, ch);
                    assert(self@ =~= old(self)@);
                    return Err(Error::BadChannelState);
                }
                let mut w = Writer::new();
                w.write_u8(MSG_CHANNEL_OPEN_FAILURE);
                w.write_u32(ch.remote_id);
                w.write_u32(reason);
                w.write_string(description.as_bytes());
                w.write_string(language.as_bytes());
                assert(w@ =~= reject_payload(ch.remote_id, reason, description@, language@));
                Ok(w.into_vec())
            },
        }
    }

    /// Build a `CHANNEL_REQUEST` payload.
    pub fn send_request(
        &mut self,
        channel: u32,
        req: ChannelRequest,
        want_reply: bool,
    ) -> (r: Result<Vec<u8>, Error>)
        ensures
            final(self)@ == old(self)@,
            match old(self)@.send_request(channel, req@, want_reply) {
                Ok(payload) => r matches Ok(p) && p@ == payload,
                Err(e) => r == Err::<Vec<u8>, Error>(e),
            },
    {
        match self.channel(channel) {
            None => Err(Error::BadChannelState),
            Some(ch) => {
                if ch.local_closed || ch.remote_closed {
                    return Err(Error::BadChannelState);
                }
                let mut w = Writer::new();
                w.write_u8(MSG_CHANNEL_REQUEST);
                w.write_u32(ch.remote_id);
                w.write_string(req.name().as_bytes());
                w.write_bool(want_reply);
                req.encode(&mut w);
                assert(w@ =~= request_payload(ch.remote_id, req@, want_reply));
                Ok(w.into_vec())
            },
        }
    }

    /// Build a message that holds nothing but the peer's channel id.
    fn reply(&self, channel: u32, msg: u8) -> (r: Result<Vec<u8>, Error>)
        ensures
            match self@.send_reply(channel, msg) {
                Ok(payload) => r matches Ok(p) && p@ == payload,
                Err(e) => r == Err::<Vec<u8>, Error>(e),
            },
    {
        match self.channel(channel) {
            None => Err(Error::BadChannelState),
            Some(ch) => {
                let mut w = Writer::new();
                w.write_u8(msg);
                w.write_u32(ch.remote_id);
                Ok(w.into_vec())
            },
        }
    }

    /// Build a `CHANNEL_SUCCESS` reply.
    pub fn send_request_success(&mut self, channel: u32) -> (r: Result<Vec<u8>, Error>)
        ensures
            final(self)@ == old(self)@,
            match old(self)@.send_reply(channel, MSG_CHANNEL_SUCCESS) {
                Ok(payload) => r matches Ok(p) && p@ == payload,
                Err(e) => r == Err::<Vec<u8>, Error>(e),
            },
            r matches Ok(p) ==> p@.len() == 5 && p@[0] == 99,
    {
        self.reply(channel, MSG_CHANNEL_SUCCESS)
    }

    /// Build a `CHANNEL_FAILURE` reply.
    pub fn send_request_failure(&mut self, channel: u32) -> (r: Result<Vec<u8>, Error>)
        ensures
            final(self)@ == old(self)@,
            match old(self)@.send_reply(channel, MSG_CHANNEL_FAILURE) {
                Ok(payload) => r matches Ok(p) && p@ == payload,
                Err(e) => r == Err::<Vec<u8>, Error>(e),
            },
            r matches Ok(p) ==> p@.len() == 5 && p@[0] == 100,
    {
        self.reply(channel, MSG_CHANNEL_FAILURE)
    }

    /// Send up to `data.len()` bytes via `CHANNEL_DATA`, capped by both the
    /// peer's advertised window and its maximum packet size. Returns the
    /// payload to transmit plus the number of `data` bytes actually taken.
    /// A return of `0` bytes means the peer's window is exhausted; the caller
    /// must wait for a `WindowAdjust` event before retrying.
    pub fn send_data(&mut self, channel: u32, data: &[u8]) -> (r: Result<(Vec<u8>, usize), Error>)
        ensures
            match old(self)@.send_data(channel, data@) {
                Ok((s, payload, n)) => {
                    &&& r matches Ok((p, k))
                    &&& p@ == payload
                    &&& k == n
                    &&& final(self)@ == s
                },
                Err(e) => r == Err::<(Vec<u8>, usize), Error>(e) && final(self)@ == old(self)@,
            },
    {
        match self.take(channel) {
            None => {
                assert(self@ =~= old(self)@);
                Err(Error::BadChannelState)
            },
            Some(mut ch) => {
                if ch.local_closed || ch.remote_closed || ch.local_eof {
                    self.put(channel, ch);
                    assert(self@ =~= old(self)@);
                    return Err(Error::BadChannelState);
                }
                let take: usize = at_most(data.len(), data_capacity(&ch));
                let chunk = vstd::slice::slice_subrange(data, 0, take);
                let mut w = Writer::new();
                w.write_u8(MSG_CHANNEL_DATA);
                w.write_u32(ch.remote_id);
                w.write_string(chunk);
                assert(chunk@ =~= data@.take(take as int));
                ch.remote_window = ch.remote_window - take as u32;
                self.put(channel, ch);
                assert(self@ =~= old(self)@.send_data(channel, data@)->Ok_0.0);
                Ok((w.into_vec(), take))
            },
        }
    }

    /// Same as [`Self::send_data`] for `CHANNEL_EXTENDED_DATA`.
    pub fn send_extended_data(&mut self, channel: u32, code: u32, data: &[u8]) -> (r: Result<
        (Vec<u8>, usize),
        Error,
    >)
        ensures
            match old(self)@.send_extended_data(channel, code, data@) {
                Ok((s, payload, n)) => {
                    &&& r matches Ok((p, k))
                    &&& p@ == payload
                    &&& k == n
                    &&& final(self)@ == s
                },
                Err(e) => r == Err::<(Vec<u8>, usize), Error>(e) && final(self)@ == old(self)@,
            },
    {
        match self.take(channel) {
            None => {
                assert(self@ =~= old(self)@);
                Err(Error::BadChannelState)
            },
            Some(mut ch) => {
                if ch.local_closed || ch.remote_closed || ch.local_eof {
                    self.put(channel, ch);
                    assert(self@ =~= old(self)@);
                    return Err(Error::BadChannelState);
                }
                let take: usize = at_most(data.len(), extended_data_capacity(&ch));
                let chunk = vstd::slice::slice_subrange(data, 0, take);
                let mut w = Writer::new();
                w.write_u8(MSG_CHANNEL_EXTENDED_DATA);
                w.write_u32(ch.remote_id);
                w.write_u32(code);
                w.write_string(chunk);
                assert(chunk@ =~= data@.take(take as int));
                ch.remote_window = ch.remote_window - take as u32;
                self.put(channel, ch);
                assert(self@ =~= old(self)@.send_extended_data(channel, code, data@)->Ok_0.0);
                Ok((w.into_vec(), take))
            },
        }
    }

    /// Build a `CHANNEL_EOF` payload.
    pub fn send_eof(&mut self, channel: u32) -> (r: Result<Vec<u8>, Error>)
        ensures
            sent(old(self)@, final(self)@, r, old(self)@.send_eof(channel)),
    {
        match self.take(channel) {
            None => {
                assert(self@ =~= old(self)@);
                Err(Error::BadChannelState)
            },
            Some(mut ch) => {
                if ch.local_closed {
                    self.put(channel, ch);
                    assert(self@ =~= old(self)@);
                    return Err(Error::BadChannelState);
                }
                ch.local_eof = true;
                let mut w = Writer::new();
                w.write_u8(MSG_CHANNEL_EOF);
                w.write_u32(ch.remote_id);
                self.put(channel, ch);
                assert(self@ =~= old(self)@.send_eof(channel)->Ok_0.0);
                Ok(w.into_vec())
            },
        }
    }

    /// Build a `CHANNEL_CLOSE` payload. If both sides have now sent CLOSE the
    /// channel entry is dropped and its id may be reused.
    pub fn send_close(&mut self, channel: u32) -> (r: Result<Vec<u8>, Error>)
        ensures
            sent(old(self)@, final(self)@, r, old(self)@.send_close(channel)),
    {
        match self.take(channel) {
            None => {
                assert(self@ =~= old(self)@);
                Err(Error::BadChannelState)
            },
            Some(mut ch) => {
                if ch.local_closed {
                    self.put(channel, ch);
                    assert(self@ =~= old(self)@);
                    return Err(Error::BadChannelState);
                }
                ch.local_closed = true;
                let mut w = Writer::new();
                w.write_u8(MSG_CHANNEL_CLOSE);
                w.write_u32(ch.remote_id);
                if !ch.is_fully_closed() {
                    self.put(channel, ch);
                }
                assert(self@ =~= old(self)@.send_close(channel)->Ok_0.0);
                Ok(w.into_vec())
            },
        }
    }

    /// Build a `GLOBAL_REQUEST` payload.
    pub fn send_global_request(&self, req: GlobalRequest, want_reply: bool) -> (r: Vec<u8>)
        ensures
            r@ == global_payload(req@, want_reply),
    {
        let mut w = Writer::new();
        w.write_u8(MSG_GLOBAL_REQUEST);
        w.write_string(req.name().as_bytes());
        w.write_bool(want_reply);
        req.encode(&mut w);
        assert(w@ =~= global_payload(req@, want_reply));
        w.into_vec()
    }

    /// Build a `REQUEST_SUCCESS` payload, optionally with a request-specific tail.
    pub fn send_global_success(&self, data: &[u8]) -> (r: Vec<u8>)
        ensures
            r@ == seq![MSG_REQUEST_SUCCESS] + data@,
            r@[0] == 81 && r@.skip(1) == data@,
    {
        let mut w = Writer::new();
        w.write_u8(MSG_REQUEST_SUCCESS);
        w.write_raw(data);
        assert(w@ =~= seq![MSG_REQUEST_SUCCESS] + data@);
        assert(w@.skip(1) =~= data@);
        w.into_vec()
    }

    /// Build a `REQUEST_FAILURE` payload (no body).
    pub fn send_global_failure(&self) -> (r: Vec<u8>)
        ensures
            r@ == seq![MSG_REQUEST_FAILURE],
            r@[0] == 82,
    {
        let mut w = Writer::new();
        w.write_u8(MSG_REQUEST_FAILURE);
        assert(w@ =~= seq![MSG_REQUEST_FAILURE]);
        w.into_vec()
    }

    /// Credit `by` bytes back to the peer's send window after the caller has
    /// consumed that many inbound payload bytes. The bytes are accumulated
    /// against an internal counter; once the counter crosses half the channel's
    /// initial window we flush a `CHANNEL_WINDOW_ADJUST` payload and reset.
    /// Returns the payload to send, or `None` if the threshold was not reached.
    pub fn replenish_window(&mut self, channel: u32, by: u32) -> (r: Result<
        Option<Vec<u8>>,
        Error,
    >)
        ensures
            match old(self)@.replenish_window(channel, by) {
                Ok((s, Some(payload))) => {
                    &&& r matches Ok(Some(p))
                    &&& p@ == payload
                    &&& final(self)@ == s
                },
                Ok((s, None)) => r == Ok::<Option<Vec<u8>>, Error>(None) && final(self)@ == s,
                Err(e) => r == Err::<Option<Vec<u8>>, Error>(e) && final(self)@ == old(self)@,
            },
    {
        match self.take(channel) {
            None => {
                assert(self@ =~= old(self)@);
                Err(Error::BadChannelState)
            },
            Some(mut ch) => {
                if ch.local_closed {
                    self.put(channel, ch);
                    assert(self@ =~= old(self)@);
                    return Err(Error::BadChannelState);
                }
                if by == 0 {
                    self.put(channel, ch);
                    assert(self@ =~= old(self)@);
                    return Ok(None);
                }
                let saved: u32 = ch.pending_replenish.saturating_add(by);
                let half: u32 = ch.initial_local_window / 2;
                let threshold: u32 = if half >= 1 {
                    half
                } else {
                    1
                };
                if saved < threshold {
                    ch.pending_replenish = saved;
                    self.put(channel, ch);
                    assert(self@ =~= old(self)@.replenish_window(channel, by)->Ok_0.0);
                    return Ok(None);
                }
                ch.pending_replenish = 0;
                ch.local_window = ch.local_window.saturating_add(saved);
                let mut w = Writer::new();
                w.write_u8(MSG_CHANNEL_WINDOW_ADJUST);
                w.write_u32(ch.remote_id);
                w.write_u32(saved);
                self.put(channel, ch);
                assert(self@ =~= old(self)@.replenish_window(channel, by)->Ok_0.0);
                Ok(Some(w.into_vec()))
            },
        }
    }

    /// Parse one inbound payload (first byte = message type) and update internal
    /// state, returning the structured event.
    pub fn on_packet(&mut self, payload: &[u8]) -> (r: Result<ChannelEvent, Error>)
        requires
            payload@.len() > 0 && payload@[0] == MSG_CHANNEL_OPEN ==> old(self)@.has_room(),
        ensures
            handled(old(self)@, final(self)@, r, old(self)@.on_packet(payload@)),
    {
        let mut r = Reader::new(payload);
        let msg: u8 = r.read_u8()?;
        if msg == MSG_GLOBAL_REQUEST {
            self.on_global_request(&mut r)
        } else if msg == MSG_REQUEST_SUCCESS {
            let n: usize = r.remaining();
            let rest = r.take(n)?;
            let data = vstd::slice::slice_to_vec(rest);
            assert(data@ =~= payload@.skip(1));
            Ok(ChannelEvent::GlobalSuccess { data })
        } else if msg == MSG_REQUEST_FAILURE {
            Ok(ChannelEvent::GlobalFailure)
        } else if msg == MSG_CHANNEL_OPEN {
            self.on_channel_open(&mut r)
        } else if msg == MSG_CHANNEL_OPEN_CONFIRMATION {
            self.on_open_confirmation(&mut r)
        } else if msg == MSG_CHANNEL_OPEN_FAILURE {
            self.on_open_failure(&mut r)
        } else if msg == MSG_CHANNEL_WINDOW_ADJUST {
            self.on_window_adjust(&mut r)
        } else if msg == MSG_CHANNEL_DATA {
            self.on_channel_data(&mut r)
        } else if msg == MSG_CHANNEL_EXTENDED_DATA {
            self.on_extended_data(&mut r)
        } else if msg == MSG_CHANNEL_EOF {
            self.on_channel_eof(&mut r)
        } else if msg == MSG_CHANNEL_CLOSE {
            self.on_channel_close(&mut r)
        } else if msg == MSG_CHANNEL_REQUEST {
            self.on_channel_request(&mut r)
        } else if msg == MSG_CHANNEL_SUCCESS {
            self.on_channel_success(&mut r)
        } else if msg == MSG_CHANNEL_FAILURE {
            self.on_channel_failure(&mut r)
        } else {
            Err(Error::Protocol("unexpected message for channel layer"))
        }
    }

    fn on_global_request(&mut self, r: &mut Reader<'_>) -> (res: Result<ChannelEvent, Error>)
        ensures
            handled(old(self)@, final(self)@, res, old(self)@.on_global_request(old(r)@)),
    {
        let name = read_utf8(r, "invalid utf-8")?;
        let want_reply = r.read_bool()?;
        let tail = rest_of(r);
        let request = GlobalRequest::decode(name, tail)?;
        Ok(ChannelEvent::GlobalRequest { request, want_reply })
    }

    fn on_channel_open(&mut self, r: &mut Reader<'_>) -> (res: Result<ChannelEvent, Error>)
        requires
            old(self)@.has_room(),
        ensures
            handled(old(self)@, final(self)@, res, old(self)@.on_channel_open(old(r)@)),
    {
        let kind_name = read_utf8(r, "invalid utf-8")?;
        let remote_id: u32 = r.read_u32()?;
        let initial_window: u32 = r.read_u32()?;
        let max_packet: u32 = r.read_u32()?;
        let tail = rest_of(r);
        let kind = ChannelOpen::decode(kind_name, tail)?;

        let local_id: u32 = self.allocate_local_id();
        let local_window: u32 = self.default_window;
        let local_max_packet: u32 = self.default_max_packet;
        let state = ChannelState {
            local_id,
            remote_id,
            local_window,
            remote_window: initial_window,
            local_max_packet,
            remote_max_packet: max_packet,
            kind: kind_name.to_owned(),
            local_eof: false,
            remote_eof: false,
            local_closed: false,
            remote_closed: false,
            initial_local_window: local_window,
            pending_replenish: 0,
            open_confirmed: false,
        };
        self.put(local_id, state);
        Ok(ChannelEvent::OpenRequest { channel: local_id, kind })
    }

    fn on_open_confirmation(&mut self, r: &mut Reader<'_>) -> (res: Result<ChannelEvent, Error>)
        ensures
            handled(old(self)@, final(self)@, res, old(self)@.on_open_confirmation(old(r)@)),
    {
        let local_id: u32 = r.read_u32()?;
        let remote_id: u32 = r.read_u32()?;
        let initial_window: u32 = r.read_u32()?;
        let max_packet: u32 = r.read_u32()?;
        match self.take(local_id) {
            None => {
                assert(self@ =~= old(self)@);
                Err(Error::Protocol("open-confirm for unknown channel"))
            },
            Some(mut ch) => {
                if ch.open_confirmed {
                    self.put(local_id, ch);
                    assert(self@ =~= old(self)@);
                    return Err(Error::Protocol("double open-confirm"));
                }
                ch.remote_id = remote_id;
                ch.remote_window = initial_window;
                ch.remote_max_packet = max_packet;
                ch.open_confirmed = true;
                self.put(local_id, ch);
                assert(self@ =~= old(self)@.on_open_confirmation(old(r)@)->Ok_0.0);
                Ok(ChannelEvent::OpenConfirmed { channel: local_id })
            },
        }
    }

    fn on_open_failure(&mut self, r: &mut Reader<'_>) -> (res: Result<ChannelEvent, Error>)
        ensures
            handled(old(self)@, final(self)@, res, old(self)@.on_open_failure(old(r)@)),
    {
        let local_id: u32 = r.read_u32()?;
        let reason: u32 = r.read_u32()?;
        let description = read_utf8(r, "invalid utf-8 in open-failure description")?;
        let _lang = r.read_string()?;
        match self.take(local_id) {
            None => {
                assert(self@ =~= old(self)@);
                Err(Error::Protocol("open-failure for unknown channel"))
            },
            Some(_) => Ok(
                ChannelEvent::OpenFailed {
                    channel: local_id,
                    reason,
                    description: description.to_owned(),
                },
            ),
        }
    }

    fn on_window_adjust(&mut self, r: &mut Reader<'_>) -> (res: Result<ChannelEvent, Error>)
        ensures
            handled(old(self)@, final(self)@, res, old(self)@.on_window_adjust(old(r)@)),
    {
        let local_id: u32 = r.read_u32()?;
        let added: u32 = r.read_u32()?;
        match self.take(local_id) {
            None => {
                assert(self@ =~= old(self)@);
                Err(Error::BadChannelState)
            },
            Some(mut ch) => {
                ch.remote_window = ch.remote_window.saturating_add(added);
                self.put(local_id, ch);
                assert(self@ =~= old(self)@.on_window_adjust(old(r)@)->Ok_0.0);
                Ok(ChannelEvent::WindowAdjust { channel: local_id, added })
            },
        }
    }

    /// Pay for received bytes from the window that we advertised.
    fn receive(&mut self, id: u32, data: &[u8], late: &'static str) -> (res: Result<(), Error>)
        requires
            data@.len() <= u32::MAX,
        ensures
            match old(self)@.receive(id, data@, late) {
                Ok(s) => res is Ok && final(self)@ == s,
                Err(e) => res == Err::<(), Error>(e) && final(self)@ == old(self)@,
            },
    {
        match self.take(id) {
            None => {
                assert(self@ =~= old(self)@);
                Err(Error::BadChannelState)
            },
            Some(mut ch) => {
                let len: u32 = data.len() as u32;
                let err = if ch.remote_eof || ch.remote_closed {
                    Some(Error::Protocol(late))
                } else if len > ch.local_window {
                    Some(Error::Protocol("peer exceeded advertised window"))
                } else if len > ch.local_max_packet {
                    Some(Error::Protocol("peer exceeded max packet"))
                } else {
                    ch.local_window = ch.local_window - len;
                    None
                };
                self.put(id, ch);
                match err {
                    Some(e) => {
                        assert(self@ =~= old(self)@);
                        Err(e)
                    },
                    None => {
                        assert(self@ =~= old(self)@.receive(id, data@, late)->Ok_0);
                        Ok(())
                    },
                }
            },
        }
    }

    fn on_channel_data(&mut self, r: &mut Reader<'_>) -> (res: Result<ChannelEvent, Error>)
        ensures
            handled(old(self)@, final(self)@, res, old(self)@.on_channel_data(old(r)@)),
    {
        let local_id: u32 = r.read_u32()?;
        let bytes = r.read_string()?;
        let data = vstd::slice::slice_to_vec(bytes);
        self.receive(local_id, bytes, "data after EOF/close")?;
        Ok(ChannelEvent::Data { channel: local_id, data })
    }

    fn on_extended_data(&mut self, r: &mut Reader<'_>) -> (res: Result<ChannelEvent, Error>)
        ensures
            handled(old(self)@, final(self)@, res, old(self)@.on_extended_data(old(r)@)),
    {
        let local_id: u32 = r.read_u32()?;
        let code: u32 = r.read_u32()?;
        let bytes = r.read_string()?;
        let data = vstd::slice::slice_to_vec(bytes);
        self.receive(local_id, bytes, "extended data after EOF/close")?;
        Ok(ChannelEvent::ExtendedData { channel: local_id, code, data })
    }

    fn on_channel_eof(&mut self, r: &mut Reader<'_>) -> (res: Result<ChannelEvent, Error>)
        ensures
            handled(old(self)@, final(self)@, res, old(self)@.on_channel_eof(old(r)@)),
    {
        let local_id: u32 = r.read_u32()?;
        match self.take(local_id) {
            None => {
                assert(self@ =~= old(self)@);
                Err(Error::BadChannelState)
            },
            Some(mut ch) => {
                ch.remote_eof = true;
                self.put(local_id, ch);
                assert(self@ =~= old(self)@.on_channel_eof(old(r)@)->Ok_0.0);
                Ok(ChannelEvent::Eof { channel: local_id })
            },
        }
    }

    fn on_channel_close(&mut self, r: &mut Reader<'_>) -> (res: Result<ChannelEvent, Error>)
        ensures
            handled(old(self)@, final(self)@, res, old(self)@.on_channel_close(old(r)@)),
    {
        let local_id: u32 = r.read_u32()?;
        match self.take(local_id) {
            None => {
                assert(self@ =~= old(self)@);
                Err(Error::BadChannelState)
            },
            Some(mut ch) => {
                ch.remote_closed = true;
                if !ch.is_fully_closed() {
                    self.put(local_id, ch);
                }
                assert(self@ =~= old(self)@.on_channel_close(old(r)@)->Ok_0.0);
                Ok(ChannelEvent::Close { channel: local_id })
            },
        }
    }

    fn on_channel_request(&mut self, r: &mut Reader<'_>) -> (res: Result<ChannelEvent, Error>)
        ensures
            handled(old(self)@, final(self)@, res, old(self)@.on_channel_request(old(r)@)),
    {
        let local_id: u32 = r.read_u32()?;
        let name = read_utf8(r, "invalid utf-8")?;
        let want_reply = r.read_bool()?;
        let tail = rest_of(r);
        let request = ChannelRequest::decode(name, tail)?;
        if self.channel(local_id).is_none() {
            return Err(Error::BadChannelState);
        }
        Ok(ChannelEvent::Request { channel: local_id, request, want_reply })
    }

    fn on_channel_success(&mut self, r: &mut Reader<'_>) -> (res: Result<ChannelEvent, Error>)
        ensures
            handled(old(self)@, final(self)@, res, old(self)@.on_channel_success(old(r)@)),
    {
        let local_id: u32 = r.read_u32()?;
        if self.channel(local_id).is_none() {
            return Err(Error::BadChannelState);
        }
        Ok(ChannelEvent::Success { channel: local_id })
    }

    fn on_channel_failure(&mut self, r: &mut Reader<'_>) -> (res: Result<ChannelEvent, Error>)
        ensures
            handled(old(self)@, final(self)@, res, old(self)@.on_channel_failure(old(r)@)),
    {
        let local_id: u32 = r.read_u32()?;
        if self.channel(local_id).is_none() {
            return Err(Error::BadChannelState);
        }
        Ok(ChannelEvent::Failure { channel: local_id })
    }
}

/// Everything that has not been read yet.
fn rest_of<'a>(r: &mut Reader<'a>) -> (tail: &'a [u8])
    ensures
        tail@ == old(r)@,
{
    let n: usize = r.remaining();
    match r.take(n) {
        Ok(tail) => {
            assert(tail@ =~= old(r)@);
            tail
        },
        Err(_) => {
            assert(false);
            &[]
        },
    }
}

/// The smaller of two sizes.
fn at_most(a: usize, b: usize) -> (r: usize)
    ensures
        r == if a < b { a } else { b },
{
    if a < b {
        a
    } else {
        b
    }
}

/// How many bytes one `CHANNEL_DATA` may carry.
fn data_capacity(ch: &ChannelState) -> (r: usize)
    ensures
        r == ch@.capacity(9),
{
    if ch.remote_max_packet < 9 {
        return 0;
    }
    at_most((ch.remote_max_packet - 9) as usize, ch.remote_window as usize)
}

/// How many bytes one `CHANNEL_EXTENDED_DATA` may carry.
fn extended_data_capacity(ch: &ChannelState) -> (r: usize)
    ensures
        r == ch@.capacity(13),
{
    if ch.remote_max_packet < 13 {
        return 0;
    }
    at_most((ch.remote_max_packet - 13) as usize, ch.remote_window as usize)
}

} // verus!
