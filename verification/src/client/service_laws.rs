//! What a session gathers and what a served connection does, event by event.

use super::forward::{ForwardRequestView, ForwardingView, GrantsView};
use super::mio::{ExecStateView, MioEventView};
use super::serve::{
    clamped, ActView, ClientHandlers, Egress, EgressView, Granted, Inbound, InboundView,
    RuntimeView, ServeAct, ServeView,
};
use super::session::{Next, Reply, SessionView};
use super::state::{PtyReqArgs, X11ReqArgs};
use super::ExecOutput;
use crate::channel::layout::{all_bytes, lemma_spells, spells, Field};
use crate::channel::model::{ConnectionView, EventView};
use crate::channel::request::ChannelRequestView;
use crate::error::Error;
use crate::text::opt_view;
use vstd::prelude::*;

verus! {

/// The terminal that is asked for is the one that was described: its width, its
/// height, and both in pixels; and so is the display.
pub proof fn lemma_arguments_stand_for_themselves(pty: PtyReqArgs, x11: X11ReqArgs)
    ensures
        pty@ == (ChannelRequestView::PtyReq {
            term: pty.term@,
            cols: pty.cols,
            rows: pty.rows,
            px_w: pty.px_w,
            px_h: pty.px_h,
            modes: pty.modes@,
        }),
        x11@ == (ChannelRequestView::X11Req {
            single_connection: x11.single_connection,
            auth_protocol: x11.auth_protocol@,
            auth_cookie: x11.auth_cookie@,
            screen: x11.screen,
        }),
{
}

/// What a command came to stands for itself.
pub proof fn lemma_output_stands_for_itself(out: ExecOutput)
    ensures
        out@.stdout == out.stdout@,
        out@.stderr == out.stderr@,
        out@.exit_status == out.exit_status,
        out@.exit_signal == opt_view(out.exit_signal),
{
}

/// While a session gathers, its channel's data is stdout, its extended data of
/// type 1 is stderr, an exit status is the status and an exit signal the signal;
/// each changes nothing else of the output. The session goes on.
pub proof fn lemma_gathering(
    s: SessionView,
    conn: ConnectionView,
    data: Seq<u8>,
    code: u32,
    signal: Seq<char>,
    core_dumped: bool,
    message: Seq<char>,
    language: Seq<char>,
)
    requires
        s.wf(),
        s.stage is Collecting,
        !s.collect->0.data_only,
        s.rounds + 2 < 1_000_000,
        s.out.size() + data.len() <= 64 * 1024 * 1024,
        conn.replenish_window(s.channel, data.len() as u32) is Ok,
    ensures
        ({
            let r = s.on_event(conn, EventView::Data { channel: s.channel, data });
            &&& r.next is Wait
            &&& r.session.out.stdout == s.out.stdout + data
            &&& r.session.out.stderr == s.out.stderr
            &&& r.session.out.exit_status == s.out.exit_status
            &&& r.session.out.exit_signal == s.out.exit_signal
            &&& r.conn == conn.replenish_window(s.channel, data.len() as u32)->Ok_0.0
        }),
        ({
            let r = s.on_event(conn, EventView::ExtendedData { channel: s.channel, code: 1, data });
            &&& r.next is Wait
            &&& r.session.out.stdout == s.out.stdout
            &&& r.session.out.stderr == s.out.stderr + data
            &&& r.session.out.exit_status == s.out.exit_status
            &&& r.conn == conn.replenish_window(s.channel, data.len() as u32)->Ok_0.0
        }),
        ({
            let r = s.on_event(
                conn,
                EventView::Request {
                    channel: s.channel,
                    request: ChannelRequestView::ExitStatus { code },
                    want_reply: false,
                },
            );
            &&& r.next is Wait && r.send.len() == 0 && r.conn == conn
            &&& r.session.out.exit_status == Some(code)
            &&& r.session.out.exit_signal == s.out.exit_signal
            &&& r.session.out.stdout == s.out.stdout && r.session.out.stderr == s.out.stderr
        }),
        ({
            let r = s.on_event(
                conn,
                EventView::Request {
                    channel: s.channel,
                    request: ChannelRequestView::ExitSignal {
                        name: signal,
                        core_dumped,
                        message,
                        language,
                    },
                    want_reply: false,
                },
            );
            &&& r.next is Wait && r.send.len() == 0 && r.conn == conn
            &&& r.session.out.exit_signal == Some(signal)
            &&& r.session.out.exit_status == s.out.exit_status
            &&& r.session.out.stdout == s.out.stdout && r.session.out.stderr == s.out.stderr
        }),
{
}

/// Only the data of a subsystem is its output: extended data is credited and
/// dropped, and requests are not heard.
pub proof fn lemma_gathering_data_only(
    s: SessionView,
    conn: ConnectionView,
    data: Seq<u8>,
    code: u32,
)
    requires
        s.wf(),
        s.stage is Collecting,
        s.collect->0.data_only,
        s.rounds + 2 < 1_000_000,
        conn.replenish_window(s.channel, data.len() as u32) is Ok,
    ensures
        ({
            let r = s.on_event(conn, EventView::ExtendedData { channel: s.channel, code, data });
            &&& r.next is Wait && r.session.out == s.out
            &&& r.conn == conn.replenish_window(s.channel, data.len() as u32)->Ok_0.0
        }),
        ({
            let r = s.on_event(
                conn,
                EventView::Request {
                    channel: s.channel,
                    request: ChannelRequestView::ExitStatus { code },
                    want_reply: true,
                },
            );
            &&& r.next is Wait && r.session.out == s.out && r.send.len() == 0
        }),
{
}

/// A session is done when the peer closes its channel, and says so by a CLOSE of
/// its own. An EOF is answered by an EOF, once, where that is wanted.
pub proof fn lemma_gathering_ends(s: SessionView, conn: ConnectionView)
    requires
        s.wf(),
        s.stage is Collecting,
        s.rounds + 2 < 1_000_000,
        conn.channels.contains_key(s.channel),
        !conn.channels[s.channel].local_closed,
    ensures
        ({
            let r = s.on_event(conn, EventView::Close { channel: s.channel });
            &&& r.next is Done && r.session.out == s.out && r.session.stage is Over
            &&& r.send.len() == 1 && spells(
                r.send[0],
                seq![Field::Byte(97), Field::Number(conn.channels[s.channel].remote_id)],
            )
        }),
        ({
            let r = s.on_event(conn, EventView::Eof { channel: s.channel });
            &&& r.next is Wait && r.session.out == s.out && r.session.stage is Collecting
            &&& s.collect->0.echo_eof && !s.eof_sent ==> r.send.len() == 1 && r.session.eof_sent
                && spells(
                r.send[0],
                seq![Field::Byte(96), Field::Number(conn.channels[s.channel].remote_id)],
            )
            &&& !s.collect->0.echo_eof || s.eof_sent ==> r.send.len() == 0 && r.conn == conn
        }),
{
    reveal_with_fuel(all_bytes, 3);
    let peer = conn.channels[s.channel].remote_id;
    let eof = seq![Field::Byte(96), Field::Number(peer)];
    let close = seq![Field::Byte(97), Field::Number(peer)];
    if let Ok((_, payload)) = conn.send_eof(s.channel) {
        assert(payload =~= all_bytes(eof, 0));
        lemma_spells(payload, eof);
    }
    if let Ok((_, payload)) = conn.send_close(s.channel) {
        assert(payload =~= all_bytes(close, 0));
        lemma_spells(payload, close);
    }
}

/// A port that does not fit is taken for the largest.
pub proof fn lemma_ports_are_clamped(v: u32)
    ensures
        v <= 65_535 ==> clamped(v) == v,
        v > 65_535 ==> clamped(v) == 65_535,
{
}

/// Channels that commands asked for are told as they come: confirmed or refused,
/// and then they are pending no more. Others mean nothing.
pub proof fn lemma_opens_are_told(
    s: ServeView,
    granted: Granted,
    handlers: ClientHandlers,
    conn: ConnectionView,
    channel: u32,
    reason: u32,
    description: Seq<char>,
)
    ensures
        ({
            let r = s.on_event(granted, handlers, conn, EventView::OpenConfirmed { channel });
            &&& r.conn == conn && r.send is None && r.result is Ok
            &&& r.act == (if s.pending_opens.contains(channel) {
                ActView::Confirm { channel }
            } else {
                ActView::Nothing
            })
            &&& !r.serve.pending_opens.contains(channel)
            &&& r.serve.runtimes == s.runtimes
        }),
        ({
            let r = s.on_event(
                granted,
                handlers,
                conn,
                EventView::OpenFailed { channel, reason, description },
            );
            &&& r.conn == conn && r.send is None && r.result is Ok
            &&& s.pending_opens.contains(channel) ==> r.act is Refused
                && r.act->Refused_channel == channel
            &&& !s.pending_opens.contains(channel) ==> r.act is Nothing
            &&& !r.serve.pending_opens.contains(channel)
        }),
{
}

/// What else arrives while a connection is served: the end of input is told to
/// the channel's handler; a CLOSE ends its handler and no other, and is answered;
/// extended data is credited and told to nobody; a global request that wants a
/// reply is refused, by a message 82.
pub proof fn lemma_other_events_are_served(
    s: ServeView,
    granted: Granted,
    handlers: ClientHandlers,
    conn: ConnectionView,
    channel: u32,
    code: u32,
    data: Seq<u8>,
    request: crate::channel::global::GlobalRequestView,
    other: u32,
)
    requires
        other != channel,
        conn.channels.contains_key(channel),
        !conn.channels[channel].local_closed,
    ensures
        ({
            let r = s.on_event(granted, handlers, conn, EventView::Eof { channel });
            &&& r.serve == s && r.conn == conn && r.send is None && r.result is Ok
            &&& r.act == (if s.runtimes.contains_key(channel) {
                ActView::EndOfInput { channel }
            } else {
                ActView::Nothing
            })
        }),
        ({
            let r = s.on_event(granted, handlers, conn, EventView::Close { channel });
            &&& r.act == (ActView::Drop { channel }) && r.result is Ok
            &&& !r.serve.runtimes.contains_key(channel)
            &&& s.runtimes.contains_key(other) ==> r.serve.runtimes.contains_key(other)
                && r.serve.runtimes[other] == s.runtimes[other]
            &&& r.send is Some && spells(
                r.send->0,
                seq![Field::Byte(97), Field::Number(conn.channels[channel].remote_id)],
            )
        }),
        ({
            let r = s.on_event(
                granted,
                handlers,
                conn,
                EventView::ExtendedData { channel, code, data },
            );
            &&& r.serve == s && r.act is Nothing
            &&& match conn.replenish_window(channel, data.len() as u32) {
                Ok((after, adjust)) => r.result is Ok && r.conn == after && r.send == adjust,
                Err(e) => r.result == Err::<(), Error>(e),
            }
        }),
        s.on_event(
            granted,
            handlers,
            conn,
            EventView::GlobalRequest { request, want_reply: true },
        ).send == Some(seq![82u8]),
        s.on_event(
            granted,
            handlers,
            conn,
            EventView::GlobalRequest { request, want_reply: false },
        ).send is None,
{
    reveal_with_fuel(all_bytes, 3);
    let close = seq![Field::Byte(97), Field::Number(conn.channels[channel].remote_id)];
    if let Ok((_, payload)) = conn.send_close(channel) {
        assert(payload =~= all_bytes(close, 0));
        lemma_spells(payload, close);
    }
}

/// A channel that is not wanted is refused as prohibited, by a message that says
/// why, and nothing of it is left.
pub proof fn lemma_refusals_say_why(
    s: ServeView,
    conn: ConnectionView,
    channel: u32,
    why: &'static str,
)
    requires
        conn.channels.contains_key(channel),
        !conn.channels[channel].open_confirmed,
    ensures
        ({
            let r = s.refuse(conn, channel, why);
            &&& r.result is Ok && r.act is Nothing && r.serve == s
            &&& !r.conn.channels.contains_key(channel)
            &&& r.send is Some && spells(
                r.send->0,
                seq![
                    Field::Byte(92),
                    Field::Number(conn.channels[channel].remote_id),
                    Field::Number(1),
                    Field::Text(why@),
                    Field::Text(""@),
                ],
            )
        }),
{
    reveal_with_fuel(all_bytes, 6);
    let fields = seq![
        Field::Byte(92),
        Field::Number(conn.channels[channel].remote_id),
        Field::Number(1),
        Field::Text(why@),
        Field::Text(""@),
    ];
    let payload = s.refuse(conn, channel, why).send->0;
    assert(payload =~= all_bytes(fields, 0));
    lemma_spells(payload, fields);
}

/// What a handler says is kept until it can be done: the end of its output, and
/// the end of its channel, which a handler that is gone has ended too.
pub proof fn lemma_handlers_are_heard(rt: RuntimeView, conn: ConnectionView, channel: u32)
    ensures
        rt.on_egress(conn, channel, EgressView::Eof).runtime == (RuntimeView {
            pending_eof: true,
            ..rt
        }),
        rt.on_egress(conn, channel, EgressView::Close).runtime == (RuntimeView {
            pending_close: true,
            ..rt
        }),
        rt.on_egress(conn, channel, EgressView::Disconnected).runtime == (RuntimeView {
            pending_close: true,
            ..rt
        }),
        rt.on_egress(conn, channel, EgressView::Empty).runtime == rt,
        rt.on_egress(conn, channel, EgressView::Eof).send.len() == 0,
        rt.on_egress(conn, channel, EgressView::Close).send.len() == 0,
        rt.on_egress(conn, channel, EgressView::Empty).send.len() == 0,
{
}

/// The end of a served channel goes out once nothing is left to send: an EOF, and
/// behind it a CLOSE where the channel is to be closed. While data is left,
/// nothing does.
pub proof fn lemma_ends_go_out_last(rt: RuntimeView, conn: ConnectionView, channel: u32)
    requires
        conn.channels.contains_key(channel),
        !conn.channels[channel].local_closed,
        !rt.eof_sent && !rt.close_sent,
    ensures
        ({
            let r = rt.settle(conn, channel);
            let peer = conn.channels[channel].remote_id;
            &&& rt.pending_data.len() > 0 || (!rt.pending_eof && !rt.pending_close) ==> r.send.len()
                == 0 && r.runtime == rt && r.conn == conn
            &&& rt.pending_data.len() == 0 && (rt.pending_eof || rt.pending_close)
                ==> r.runtime.eof_sent && r.send.len() > 0 && spells(
                r.send[0],
                seq![Field::Byte(96), Field::Number(peer)],
            )
            &&& rt.pending_data.len() == 0 && rt.pending_close ==> r.runtime.close_sent
                && r.send.len() == 2 && spells(
                r.send[1],
                seq![Field::Byte(97), Field::Number(peer)],
            )
            &&& rt.pending_data.len() == 0 && rt.pending_eof && !rt.pending_close
                ==> !r.runtime.close_sent && r.send.len() == 1
        }),
{
    reveal_with_fuel(all_bytes, 3);
    let peer = conn.channels[channel].remote_id;
    let eof = seq![Field::Byte(96), Field::Number(peer)];
    let close = seq![Field::Byte(97), Field::Number(peer)];
    if let Ok((after, payload)) = conn.send_eof(channel) {
        assert(payload =~= all_bytes(eof, 0));
        lemma_spells(payload, eof);
        if let Ok((_, last)) = after.send_close(channel) {
            assert(last =~= all_bytes(close, 0));
            lemma_spells(last, close);
        }
    }
}

/// The reply to a forward that was asked for: agreement puts it in force, refusal
/// is an error, and anything else is waited through.
pub proof fn lemma_forward_replies(
    f: ForwardRequestView,
    conn: ConnectionView,
    grants: GrantsView,
    payload: Seq<u8>,
)
    requires
        payload.len() > 0,
        f.rounds + 1 < 1_000_000,
    ensures
        payload[0] == 81 ==> f.on_payload(conn, grants, payload).grants == f.what.agreed(
            grants,
            payload.skip(1),
        ).0 && f.on_payload(conn, grants, payload).step == f.what.agreed(
            grants,
            payload.skip(1),
        ).1,
        payload[0] == 82 ==> f.on_payload(conn, grants, payload).grants == grants && f.on_payload(
            conn,
            grants,
            payload,
        ).step is Failed,
        payload[0] != 81 && payload[0] != 82 ==> f.on_payload(conn, grants, payload).grants
            == grants && (conn.on_packet(payload) is Ok ==> f.on_payload(
            conn,
            grants,
            payload,
        ).step is Wait),
{
}

/// A forward of a socket that was asked for and then cancelled leaves the
/// forwards as they were.
pub proof fn lemma_cancelled_socket_is_gone(grants: GrantsView, path: Seq<char>, tail: Seq<u8>)
    requires
        !grants.streamlocal.contains(path),
    ensures
        ({
            let f = ForwardingView::Streamlocal { socket_path: path };
            let c = ForwardingView::CancelStreamlocal { socket_path: path };
            let (g, _) = f.agreed(grants, tail);
            &&& g.streamlocal == grants.streamlocal.push(path)
            &&& c.agreed(g, tail).0 == grants
            &&& c.agreed(g, tail).1 is Done
        }),
{
    let g = grants.streamlocal.push(path);
    let p = super::forward::at_path(path);
    let last = grants.streamlocal.len() as int;
    assert forall|j: int| 0 <= j < last implies !p(#[trigger] g[j]) by {
        assert(g[j] == grants.streamlocal[j]);
        assert(grants.streamlocal.contains(grants.streamlocal[j]));
    }
    assert(super::forward::is_first(g, p, last));
    let i = choose|i: int| super::forward::is_first(g, p, i);
    assert(i == last);
    assert(g.update(i, g.last()).drop_last() =~= grants.streamlocal);
}

/// What the frontend is told to do stands for itself: the channel, what is behind
/// it, and the bytes for it.
pub proof fn lemma_acts_stand_for_themselves(act: ServeAct, inbound: Inbound, egress: Egress)
    ensures
        match act {
            ServeAct::Nothing => act@ is Nothing,
            ServeAct::Confirm { channel } => act@ == (ActView::Confirm { channel }),
            ServeAct::Refused { channel, error } => act@ == (ActView::Refused { channel, error }),
            ServeAct::Spawn { channel, inbound } => act@ == (ActView::Spawn {
                channel,
                inbound: inbound@,
            }),
            ServeAct::Deliver { channel, data } => act@ == (ActView::Deliver {
                channel,
                data: data@,
            }),
            ServeAct::EndOfInput { channel } => act@ == (ActView::EndOfInput { channel }),
            ServeAct::Drop { channel } => act@ == (ActView::Drop { channel }),
        },
        match inbound {
            Inbound::ForwardedTcpip(o) => inbound@ == (InboundView::ForwardedTcpip {
                bound_address: o.bound_address@,
                bound_port: o.bound_port,
                orig_address: o.orig_address@,
                orig_port: o.orig_port,
            }),
            Inbound::ForwardedStreamlocal(o) => inbound@ == (InboundView::ForwardedStreamlocal {
                socket_path: o.socket_path@,
            }),
            Inbound::AuthAgent => inbound@ is AuthAgent,
            Inbound::X11 => inbound@ is X11,
        },
        match egress {
            Egress::Data(bytes) => egress@ == EgressView::Data(bytes@),
            Egress::Eof => egress@ is Eof,
            Egress::Close => egress@ is Close,
            Egress::Empty => egress@ is Empty,
            Egress::Disconnected => egress@ is Disconnected,
        },
{
}

/// A request from the peer that wants a reply is turned down, by a message 100,
/// while a command's output is gathered.
pub proof fn lemma_requests_are_turned_down(
    s: SessionView,
    run: ExecStateView,
    events: Seq<MioEventView>,
    conn: ConnectionView,
    request: ChannelRequestView,
)
    requires
        s.wf(),
        s.stage is Collecting,
        !s.collect->0.data_only,
        s.rounds + 2 < 1_000_000,
        conn.channels.contains_key(s.channel),
        run.channel == s.channel,
    ensures
        ({
            let asked = EventView::Request { channel: s.channel, request, want_reply: true };
            let turned_down = seq![
                Field::Byte(100),
                Field::Number(conn.channels[s.channel].remote_id),
            ];
            let r = s.on_event(conn, asked);
            let m = run.on_event(conn, events, asked);
            &&& r.next is Wait && r.send.len() == 1 && spells(r.send[0], turned_down)
            &&& m.result is Ok && m.send is Some && spells(m.send->0, turned_down)
        }),
        ({
            let quiet = EventView::Request { channel: s.channel, request, want_reply: false };
            &&& s.on_event(conn, quiet).send.len() == 0
            &&& run.on_event(conn, events, quiet).send is None
        }),
{
    reveal_with_fuel(all_bytes, 3);
    let fields = seq![Field::Byte(100), Field::Number(conn.channels[s.channel].remote_id)];
    if let Ok(payload) = conn.send_reply(s.channel, 100) {
        assert(payload =~= all_bytes(fields, 0));
        lemma_spells(payload, fields);
    }
}

/// A session fails where its output grows over 64 MiB, where any of its stages
/// takes a million rounds, and where the peer closes before it has all the input.
/// What was gathered before is kept.
pub proof fn lemma_sessions_are_bounded(
    s: SessionView,
    conn: ConnectionView,
    data: Seq<u8>,
    code: u32,
)
    requires
        s.wf(),
    ensures
        s.stage is Collecting && s.out.size() + data.len() > 64 * 1024 * 1024 ==> ({
            let r = s.on_event(conn, EventView::Data { channel: s.channel, data });
            r.next is Failed && r.session.stage is Over && r.session.out == s.out
        }),
        s.stage is Collecting && !s.collect->0.data_only && s.out.size() + data.len() > 64 * 1024
            * 1024 ==> ({
            let r = s.on_event(conn, EventView::ExtendedData { channel: s.channel, code, data });
            r.next is Failed && r.session.stage is Over && r.session.out == s.out
        }),
        (s.stage is Collecting || s.stage is Opening || s.stage is Asking) && s.rounds
            >= 999_999 ==> s.on_event(conn, EventView::GlobalFailure).next is Failed,
        (s.stage is Collecting || s.stage is Opening || s.stage is Asking) && s.rounds
            < 999_999 ==> s.on_event(conn, EventView::GlobalFailure).next is Wait,
        s.stage is Feeding ==> s.on_event(
            conn,
            EventView::Close { channel: s.channel },
        ).next is Failed,
        s.stage is Over ==> s.on_event(conn, EventView::GlobalFailure) == (Reply {
            conn,
            session: s,
            send: Seq::empty(),
            next: Next::Wait,
        }),
{
}

/// A session whose channel is confirmed, or whose request is granted, goes on
/// with the next request; a refusal of either ends it.
pub proof fn lemma_sessions_go_on_as_answered(
    s: SessionView,
    conn: ConnectionView,
    reason: u32,
    description: Seq<char>,
)
    ensures
        s.stage is Opening ==> s.on_event(conn, EventView::OpenConfirmed { channel: s.channel })
            == s.ask(conn, Seq::empty()),
        s.stage is Opening ==> s.on_event(
            conn,
            EventView::OpenFailed { channel: s.channel, reason, description },
        ).next is Failed,
        s.stage is Asking ==> s.on_event(conn, EventView::Success { channel: s.channel }) == s.ask(
            conn,
            Seq::empty(),
        ),
        s.stage is Asking ==> s.on_event(
            conn,
            EventView::Failure { channel: s.channel },
        ).next is Failed,
{
}

/// A served connection starts with nothing: no channels, no opens in flight, no
/// probes. A served channel starts with nothing to send and nothing said. A probe
/// is counted and takes the time; any sign of life sets the count back.
pub proof fn lemma_serving_starts_clean(s: ServeView, now: u128)
    ensures
        ({
            let f = ServeView::fresh(now);
            &&& forall|id: u32| !#[trigger] f.runtimes.contains_key(id)
            &&& forall|id: u32| !#[trigger] f.pending_opens.contains(id)
            &&& f.steps == 0 && f.probes_pending == 0 && f.last_activity == now
        }),
        ({
            let r = RuntimeView::fresh();
            &&& r.pending_data.len() == 0
            &&& !r.pending_eof && !r.pending_close && !r.eof_sent && !r.close_sent
        }),
        s.probed(now) == (ServeView {
            probes_pending: s.probes_pending + 1,
            last_activity: now,
            ..s
        }),
        s.alive(now) == (ServeView { probes_pending: 0, last_activity: now, ..s }),
{
}

} // verus!
