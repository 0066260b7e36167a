//! What holds of a channel over everything that happens on its connection: what
//! one side has ended stays ended, and received bytes are credited back exactly
//! once.

use super::laws::{lemma_fresh_id_is_fresh, lemma_on_packet_well_formed};
use super::model::{adjust_payload, window_sum, ChannelView, ConnectionView};
use super::msg::{MSG_CHANNEL_OPEN, MSG_CHANNEL_WINDOW_ADJUST};
use super::open::ChannelOpenView;
use super::request::ChannelRequestView;
use crate::error::Error;
use crate::format::{be32, get_u32, lemma_get_put_u32};
use vstd::prelude::*;

verus! {

/// What can happen on a connection. Requests and replies are not here: they
/// are sent without a change to any channel.
pub ghost enum Operation {
    Open { kind: ChannelOpenView },
    Accept { id: u32 },
    Reject { id: u32, reason: u32, description: Seq<char>, language: Seq<char> },
    Data { id: u32, data: Seq<u8> },
    ExtendedData { id: u32, code: u32, data: Seq<u8> },
    Eof { id: u32 },
    Close { id: u32 },
    Replenish { id: u32, by: u32 },
    Packet { payload: Seq<u8> },
    Defaults { window: u32, max_packet: u32 },
}

impl ConnectionView {
    /// What an operation leaves behind. One that fails changes nothing.
    #[verifier::opaque]
    pub open spec fn after(self, op: Operation) -> ConnectionView {
        match op {
            Operation::Open { kind } => self.open(kind).0,
            Operation::Accept { id } => match self.accept_open(id) {
                Ok((t, _)) => t,
                Err(_) => self,
            },
            Operation::Reject { id, reason, description, language } => match self.reject_open(
                id,
                reason,
                description,
                language,
            ) {
                Ok((t, _)) => t,
                Err(_) => self,
            },
            Operation::Data { id, data } => match self.send_data(id, data) {
                Ok((t, _, _)) => t,
                Err(_) => self,
            },
            Operation::ExtendedData { id, code, data } => match self.send_extended_data(
                id,
                code,
                data,
            ) {
                Ok((t, _, _)) => t,
                Err(_) => self,
            },
            Operation::Eof { id } => match self.send_eof(id) {
                Ok((t, _)) => t,
                Err(_) => self,
            },
            Operation::Close { id } => match self.send_close(id) {
                Ok((t, _)) => t,
                Err(_) => self,
            },
            Operation::Replenish { id, by } => match self.replenish_window(id, by) {
                Ok((t, _)) => t,
                Err(_) => self,
            },
            Operation::Packet { payload } => match self.on_packet(payload) {
                Ok((t, _)) => t,
                Err(_) => self,
            },
            Operation::Defaults { window, max_packet } => ConnectionView {
                default_window: window,
                default_max_packet: max_packet,
                ..self
            },
        }
    }

    /// Whether there is room for the channel that an operation opens.
    pub open spec fn admits(self, op: Operation) -> bool {
        match op {
            Operation::Open { .. } => self.has_room(),
            Operation::Packet { payload } => payload.len() > 0 && payload[0] == MSG_CHANNEL_OPEN
                ==> self.has_room(),
            _ => true,
        }
    }
}

/// What a run of operations leaves behind.
pub open spec fn run(s: ConnectionView, ops: Seq<Operation>) -> ConnectionView
    decreases ops.len(),
{
    if ops.len() == 0 {
        s
    } else {
        run(s, ops.drop_last()).after(ops.last())
    }
}

/// Channel `id` is tracked before, between and after the operations, and there
/// is room for each channel that they open.
pub open spec fn lives_through(s: ConnectionView, ops: Seq<Operation>, id: u32) -> bool
    decreases ops.len(),
{
    &&& run(s, ops).channels.contains_key(id)
    &&& ops.len() > 0 ==> {
        &&& lives_through(s, ops.drop_last(), id)
        &&& run(s, ops.drop_last()).admits(ops.last())
    }
}

/// What never changes back while a channel is tracked: that we have sent EOF,
/// that we have closed, and the window that it began with.
pub open spec fn lasting(before: ChannelView, after: ChannelView) -> bool {
    &&& before.local_eof ==> after.local_eof
    &&& before.local_closed ==> after.local_closed
    &&& after.initial_local_window == before.initial_local_window
}

/// A packet leaves lasting what is, and has no part in what is saved up.
proof fn lemma_packet_is_lasting(s: ConnectionView, payload: Seq<u8>, id: u32)
    requires
        s.channels.dom().finite(),
        s.channels.contains_key(id),
        payload.len() > 0 && payload[0] == MSG_CHANNEL_OPEN ==> s.has_room(),
    ensures
        s.on_packet(payload) matches Ok((t, _)) ==> {
            &&& t.channels.dom().finite()
            &&& t.channels.contains_key(id) ==> lasting(s.channels[id], t.channels[id])
                && t.channels[id].pending_replenish == s.channels[id].pending_replenish
        },
{
    if payload.len() > 0 && payload[0] == MSG_CHANNEL_OPEN {
        lemma_fresh_id_is_fresh(s);
    }
}

/// Whatever is done and whatever arrives: as long as a channel is tracked, the
/// EOF that we have sent on it stays sent, its close stays sent, and it keeps
/// the window that it began with.
pub proof fn lemma_the_end_is_lasting(s: ConnectionView, op: Operation, id: u32)
    requires
        s.channels.dom().finite(),
        s.admits(op),
        s.channels.contains_key(id),
    ensures
        s.after(op).channels.dom().finite(),
        s.after(op).channels.contains_key(id) ==> lasting(
            s.channels[id],
            s.after(op).channels[id],
        ),
        s.after(op).channels.contains_key(id) && !(op matches Operation::Replenish { id: i, .. }
            && i == id) ==> s.after(op).channels[id].pending_replenish
            == s.channels[id].pending_replenish,
{
    reveal(ConnectionView::after);
    match op {
        Operation::Open { .. } => {
            lemma_fresh_id_is_fresh(s);
        },
        Operation::Packet { payload } => {
            lemma_packet_is_lasting(s, payload, id);
        },
        _ => {},
    }
}

/// Whatever is done and whatever arrives, a well-formed connection stays well
/// formed.
pub proof fn lemma_operation_well_formed(s: ConnectionView, op: Operation)
    requires
        s.well_formed(),
    ensures
        s.after(op).well_formed(),
{
    reveal(ConnectionView::after);
    match op {
        Operation::Packet { payload } => {
            lemma_on_packet_well_formed(s, payload);
        },
        _ => {},
    }
}

/// The same over a run.
proof fn lemma_run_is_lasting(s: ConnectionView, ops: Seq<Operation>, id: u32)
    requires
        s.channels.dom().finite(),
        lives_through(s, ops, id),
    ensures
        s.channels.contains_key(id),
        run(s, ops).channels.dom().finite(),
        lasting(s.channels[id], run(s, ops).channels[id]),
        s.well_formed() ==> run(s, ops).well_formed(),
    decreases ops.len(),
{
    if ops.len() > 0 {
        let before = run(s, ops.drop_last());
        lemma_run_is_lasting(s, ops.drop_last(), id);
        lemma_the_end_is_lasting(before, ops.last(), id);
        if s.well_formed() {
            lemma_operation_well_formed(before, ops.last());
        }
    }
}

/// EOF is the end of our data: once it has been sent, every later attempt to
/// send data on that channel is refused, whatever has happened in between.
/// EOF itself is refused exactly where the channel is unknown or closed by us.
pub proof fn lemma_no_data_after_eof(
    s: ConnectionView,
    id: u32,
    ops: Seq<Operation>,
    data: Seq<u8>,
    code: u32,
)
    requires
        s.channels.dom().finite(),
        s.send_eof(id) matches Ok((t, _)) ==> lives_through(t, ops, id),
    ensures
        match s.send_eof(id) {
            Err(e) => e == Error::BadChannelState && (!s.channels.contains_key(id)
                || s.channels[id].local_closed),
            Ok((t, _)) => {
                &&& s.channels.contains_key(id) && !s.channels[id].local_closed
                &&& run(t, ops).send_data(id, data) == Err::<
                    (ConnectionView, Seq<u8>, int),
                    Error,
                >(Error::BadChannelState)
                &&& run(t, ops).send_extended_data(id, code, data) == Err::<
                    (ConnectionView, Seq<u8>, int),
                    Error,
                >(Error::BadChannelState)
            },
        },
{
    if let Ok((t, _)) = s.send_eof(id) {
        lemma_run_is_lasting(t, ops, id);
    }
}

/// A close is the end of all we send but replies: once it has been sent, every
/// later attempt on that channel is refused, whatever has happened in between.
pub proof fn lemma_nothing_after_close(
    s: ConnectionView,
    id: u32,
    ops: Seq<Operation>,
    data: Seq<u8>,
    code: u32,
    by: u32,
    req: ChannelRequestView,
    want_reply: bool,
)
    requires
        s.channels.dom().finite(),
        s.send_close(id) matches Ok((t, _)) && lives_through(t, ops, id),
    ensures
        ({
            let t = run(s.send_close(id)->Ok_0.0, ops);
            let refused = Error::BadChannelState;
            &&& t.send_data(id, data) == Err::<(ConnectionView, Seq<u8>, int), Error>(refused)
            &&& t.send_extended_data(id, code, data) == Err::<
                (ConnectionView, Seq<u8>, int),
                Error,
            >(refused)
            &&& t.send_eof(id) == Err::<(ConnectionView, Seq<u8>), Error>(refused)
            &&& t.send_close(id) == Err::<(ConnectionView, Seq<u8>), Error>(refused)
            &&& t.send_request(id, req, want_reply) == Err::<Seq<u8>, Error>(refused)
            &&& t.replenish_window(id, by) == Err::<(ConnectionView, Option<Seq<u8>>), Error>(
                refused,
            )
        }),
{
    lemma_run_is_lasting(s.send_close(id)->Ok_0.0, ops, id);
}

/// A channel begins with nothing saved up, and with the window that it
/// advertises.
pub proof fn lemma_a_channel_begins_with_nothing_saved_up(
    s: ConnectionView,
    remote_id: u32,
    remote_window: u32,
    remote_max_packet: u32,
    kind: Seq<char>,
)
    ensures
        ({
            let t = s.with_new(remote_id, remote_window, remote_max_packet, kind);
            let ch = t.channels[s.fresh_id()];
            &&& t.channels.contains_key(s.fresh_id())
            &&& ch.pending_replenish == 0
            &&& ch.initial_local_window == ch.local_window == s.default_window
        }),
{
}

/// The bytes reported on channel `id` since its last window adjustment. Where
/// the run has none, those that were saved up before it count too.
pub open spec fn uncredited(s: ConnectionView, ops: Seq<Operation>, id: u32) -> int
    decreases ops.len(),
{
    if ops.len() == 0 {
        s.channels[id].pending_replenish as int
    } else {
        let earlier = uncredited(s, ops.drop_last(), id);
        match ops.last() {
            Operation::Replenish { id: i, by } => if i != id {
                earlier
            } else {
                match run(s, ops.drop_last()).replenish_window(id, by) {
                    Ok((_, Some(_))) => 0,
                    Ok((_, None)) => earlier + by,
                    Err(_) => earlier,
                }
            },
            _ => earlier,
        }
    }
}

/// What one report does: it adds to what is saved up, or all of that is
/// credited.
proof fn lemma_report(s: ConnectionView, id: u32, by: u32)
    requires
        s.channels.contains_key(id),
    ensures
        ({
            let t = s.after(Operation::Replenish { id, by });
            let saved = s.channels[id].pending_replenish;
            match s.replenish_window(id, by) {
                Ok((_, Some(adjust))) => {
                    &&& t.channels[id].pending_replenish == 0
                    &&& saved + by <= u32::MAX ==> credit_in(Some(adjust)) == saved + by
                },
                Ok((_, None)) => t.channels[id].pending_replenish == saved + by,
                Err(_) => t == s,
            }
        }),
{
    reveal(ConnectionView::after);
    let ch = s.channels[id];
    lemma_credit_of_adjust(ch.remote_id, window_sum(ch.pending_replenish, by));
}

/// What is saved up is what has been reported since the last adjustment.
proof fn lemma_saved_up(s: ConnectionView, ops: Seq<Operation>, id: u32)
    requires
        s.channels.dom().finite(),
        s.well_formed(),
        lives_through(s, ops, id),
    ensures
        run(s, ops).channels[id].pending_replenish == uncredited(s, ops, id),
    decreases ops.len(),
{
    if ops.len() > 0 {
        let before = run(s, ops.drop_last());
        lemma_saved_up(s, ops.drop_last(), id);
        lemma_run_is_lasting(s, ops.drop_last(), id);
        lemma_the_end_is_lasting(before, ops.last(), id);
        if let Operation::Replenish { by, .. } = ops.last() {
            lemma_report(before, id, by);
        }
    }
}

/// Received bytes are saved up, and credited all at once. With `total` for the
/// bytes that have been reported since the last adjustment, those of this call
/// with them: once they come to half the window that the channel began with,
/// and to one byte at least, an adjustment of exactly `total` is sent, our
/// window grows by it and nothing is left saved up. Until then nothing is sent,
/// and our window stays as it is.
pub proof fn lemma_credit_is_what_was_reported(
    s: ConnectionView,
    ops: Seq<Operation>,
    id: u32,
    by: u32,
)
    requires
        s.channels.dom().finite(),
        s.well_formed(),
        lives_through(s, ops, id),
        uncredited(s, ops, id) + by <= u32::MAX,
    ensures
        ({
            let t = run(s, ops);
            let ch = t.channels[id];
            let total = (uncredited(s, ops, id) + by) as u32;
            let half = s.channels[id].initial_local_window / 2;
            let enough = total >= half && total >= 1;
            &&& 0 <= uncredited(s, ops, id)
            &&& uncredited(s, ops, id) < half || uncredited(s, ops, id) < 1
            &&& t.replenish_window(id, by) == if ch.local_closed {
                Err::<(ConnectionView, Option<Seq<u8>>), Error>(Error::BadChannelState)
            } else if enough {
                Ok(
                    (
                        t.with(
                            id,
                            ChannelView {
                                pending_replenish: 0,
                                local_window: window_sum(ch.local_window, total),
                                ..ch
                            },
                        ),
                        Some(
                            seq![MSG_CHANNEL_WINDOW_ADJUST] + be32(ch.remote_id) + be32(total),
                        ),
                    ),
                )
            } else {
                Ok((t.with(id, ChannelView { pending_replenish: total, ..ch }), None))
            }
        }),
{
    let t = run(s, ops);
    lemma_saved_up(s, ops, id);
    lemma_run_is_lasting(s, ops, id);
    assert(t.channels.contains_key(id));
    if by == 0 {
        let ch = t.channels[id];
        assert(t.channels.insert(id, ch) =~= t.channels);
    }
}

/// How many bytes a window adjustment credits.
pub open spec fn credit_in(adjust: Option<Seq<u8>>) -> int {
    match adjust {
        Some(payload) => match get_u32(payload.skip(5)) {
            Some((added, _)) => added as int,
            None => 0,
        },
        None => 0,
    }
}

/// How many bytes a run has credited to the peer of channel `id`.
pub open spec fn credited(s: ConnectionView, ops: Seq<Operation>, id: u32) -> int
    decreases ops.len(),
{
    if ops.len() == 0 {
        0
    } else {
        let earlier = credited(s, ops.drop_last(), id);
        match ops.last() {
            Operation::Replenish { id: i, by } => if i != id {
                earlier
            } else {
                match run(s, ops.drop_last()).replenish_window(id, by) {
                    Ok((_, adjust)) => earlier + credit_in(adjust),
                    Err(_) => earlier,
                }
            },
            _ => earlier,
        }
    }
}

/// How many bytes have been reported on channel `id` over a run, but for those
/// that were refused.
pub open spec fn reported(s: ConnectionView, ops: Seq<Operation>, id: u32) -> int
    decreases ops.len(),
{
    if ops.len() == 0 {
        0
    } else {
        let earlier = reported(s, ops.drop_last(), id);
        match ops.last() {
            Operation::Replenish { id: i, by } => if i != id || run(
                s,
                ops.drop_last(),
            ).replenish_window(id, by) is Err {
                earlier
            } else {
                earlier + by
            },
            _ => earlier,
        }
    }
}

/// No report adds to more than 32 bits can hold.
pub open spec fn countable(s: ConnectionView, ops: Seq<Operation>, id: u32) -> bool
    decreases ops.len(),
{
    ops.len() > 0 ==> {
        &&& countable(s, ops.drop_last(), id)
        &&& ops.last() matches Operation::Replenish { id: i, by } ==> i == id ==> uncredited(
            s,
            ops.drop_last(),
            id,
        ) + by <= u32::MAX
    }
}

/// No byte is lost and none is credited twice: over any run, what has been
/// credited and what is still saved up come to what was saved up before and
/// what has been reported.
pub proof fn lemma_credit_adds_up(s: ConnectionView, ops: Seq<Operation>, id: u32)
    requires
        s.channels.dom().finite(),
        s.well_formed(),
        lives_through(s, ops, id),
        countable(s, ops, id),
    ensures
        credited(s, ops, id) + run(s, ops).channels[id].pending_replenish
            == s.channels[id].pending_replenish + reported(s, ops, id),
    decreases ops.len(),
{
    if ops.len() > 0 {
        let before = run(s, ops.drop_last());
        lemma_credit_adds_up(s, ops.drop_last(), id);
        lemma_run_is_lasting(s, ops.drop_last(), id);
        lemma_the_end_is_lasting(before, ops.last(), id);
        lemma_saved_up(s, ops.drop_last(), id);
        if let Operation::Replenish { by, .. } = ops.last() {
            lemma_report(before, id, by);
        }
    }
}

proof fn lemma_credit_of_adjust(remote: u32, added: u32)
    ensures
        credit_in(Some(adjust_payload(remote, added))) == added,
{
    lemma_get_put_u32(added, Seq::empty());
    assert(adjust_payload(remote, added).skip(5) =~= be32(added) + Seq::<u8>::empty());
}

} // verus!
