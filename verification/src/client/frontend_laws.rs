//! What the ways to use a connection have in common, whichever transport is
//! behind them: what arrives reaches the caller unchanged, in order and on the
//! right stream, what the caller writes goes out in order, and all that arrived
//! is credited to the peer.

use super::asynchronous::{async_exec_script, async_open_script, AsyncChannelView};
use super::mio::{ExecStateView, MioEventView, MioPhaseView, MioView};
use super::pump::AuthStep;
use super::session::ScriptView;
use super::stream::PumpView;
use crate::channel::layout::{all_bytes, lemma_spells, spells, Field};
use crate::channel::model::{ConnectionView, EventView};
use crate::channel::open::ChannelOpenView;
use crate::channel::request::ChannelRequestView;
use crate::error::Error;
use vstd::prelude::*;

verus! {

/// A stream keeps what its own channel brings: data behind the data that was not
/// read yet, extended data apart from it, and both are credited in full. EOF ends
/// the stream. So does CLOSE, which is answered by a CLOSE of ours, but only
/// once.
pub proof fn lemma_streams_keep_what_arrives(
    pump: PumpView,
    conn: ConnectionView,
    data: Seq<u8>,
    code: u32,
)
    ensures
        ({
            let channel = pump.channel;
            let r = pump.on_event(conn, EventView::Data { channel, data });
            &&& r.pump == (PumpView { read_buf: pump.read_buf + data, ..pump })
            &&& match conn.replenish_window(channel, data.len() as u32) {
                Ok((after, adjust)) => r.result is Ok && r.conn == after && r.send == adjust,
                Err(e) => r.result == Err::<(), Error>(e) && r.conn == conn,
            }
        }),
        ({
            let channel = pump.channel;
            let r = pump.on_event(conn, EventView::ExtendedData { channel, code, data });
            &&& r.pump == (PumpView { stderr_buf: pump.stderr_buf + data, ..pump })
            &&& match conn.replenish_window(channel, data.len() as u32) {
                Ok((after, adjust)) => r.result is Ok && r.conn == after && r.send == adjust,
                Err(e) => r.result == Err::<(), Error>(e) && r.conn == conn,
            }
        }),
        ({
            let r = pump.on_event(conn, EventView::Eof { channel: pump.channel });
            &&& r.pump == (PumpView { remote_eof: true, ..pump })
            &&& r.conn == conn && r.send is None && r.result is Ok
        }),
        ({
            let r = pump.on_event(conn, EventView::Close { channel: pump.channel });
            &&& r.pump.remote_eof
            &&& r.pump.read_buf == pump.read_buf && r.pump.stderr_buf == pump.stderr_buf
            &&& pump.local_close_sent ==> r.conn == conn && r.send is None && r.result is Ok
            &&& !pump.local_close_sent && r.result is Ok ==> r.pump.local_close_sent && spells(
                r.send->0,
                seq![Field::Byte(97), Field::Number(conn.channels[pump.channel].remote_id)],
            )
        }),
{
    reveal_with_fuel(all_bytes, 3);
    let id = pump.channel;
    if let Ok((_, payload)) = conn.send_close(id) {
        let fields = seq![Field::Byte(97), Field::Number(conn.channels[id].remote_id)];
        assert(payload =~= all_bytes(fields, 0));
        lemma_spells(payload, fields);
    }
}

/// Giving a stream up sends EOF and then CLOSE, unless CLOSE has been sent.
pub proof fn lemma_giving_up_says_so(pump: PumpView, conn: ConnectionView)
    requires
        conn.channels.contains_key(pump.channel),
        !conn.channels[pump.channel].local_closed,
    ensures
        ({
            let (_, sent) = pump.closing(conn);
            let peer = conn.channels[pump.channel].remote_id;
            &&& pump.local_close_sent ==> sent.len() == 0
            &&& !pump.local_close_sent ==> sent.len() == 2 && spells(
                sent[0],
                seq![Field::Byte(96), Field::Number(peer)],
            ) && spells(sent[1], seq![Field::Byte(97), Field::Number(peer)])
        }),
{
    reveal_with_fuel(all_bytes, 3);
    let peer = conn.channels[pump.channel].remote_id;
    let sent = pump.closing(conn).1;
    if !pump.local_close_sent {
        let eof = seq![Field::Byte(96), Field::Number(peer)];
        let close = seq![Field::Byte(97), Field::Number(peer)];
        assert(sent[0] =~= all_bytes(eof, 0));
        assert(sent[1] =~= all_bytes(close, 0));
        lemma_spells(sent[0], eof);
        lemma_spells(sent[1], close);
    }
}

/// Authentication that succeeds makes a command possible, one that fails does
/// not; both are told behind what the caller has not seen yet. What the engine
/// wants sent is sent.
pub proof fn lemma_authentication_is_told(s: MioView, payload: Vec<u8>, e: Error)
    requires
        s.phase is Authenticating,
    ensures
        ({
            let r = s.on_auth_step(Ok(AuthStep::Success));
            &&& r.client.phase is Authenticated
            &&& r.client.events == s.events + seq![MioEventView::Authenticated]
            &&& r.client.conn == s.conn && r.send is None && r.result is Ok
        }),
        ({
            let r = s.on_auth_step(Ok(AuthStep::Failed));
            &&& r.client.phase is Failed
            &&& r.client.events == s.events + seq![MioEventView::AuthFailed]
            &&& r.client.conn == s.conn && r.send is None && r.result is Ok
        }),
        ({
            let r = s.on_auth_step(Ok(AuthStep::Send(payload)));
            &&& r.client == s && r.send == Some(payload@) && r.result is Ok
        }),
        ({
            let r = s.on_auth_step(Ok(AuthStep::Idle));
            &&& r.client == s && r.send is None && r.result is Ok
        }),
        ({
            let r = s.on_auth_step(Err(e));
            &&& r.client.phase is Done && r.send is None && r.result == Err::<(), Error>(e)
        }),
{
    assert(s.events + seq![MioEventView::Authenticated] =~= s.events.push(
        MioEventView::Authenticated,
    ));
    assert(s.events + seq![MioEventView::AuthFailed] =~= s.events.push(MioEventView::AuthFailed));
}

/// Once its channel is open, a command is asked for as it was given, and a reply
/// is wanted.
pub proof fn lemma_command_is_asked_for(
    run: ExecStateView,
    conn: ConnectionView,
    events: Seq<MioEventView>,
)
    requires
        conn.channels.contains_key(run.channel),
        conn.channels[run.channel].sendable(),
    ensures
        ({
            let r = run.on_event(conn, events, EventView::OpenConfirmed { channel: run.channel });
            &&& r.result is Ok && r.conn == conn && r.state == run && r.events == events
            &&& r.send is Some && spells(
                r.send->0,
                seq![
                    Field::Byte(98),
                    Field::Number(conn.channels[run.channel].remote_id),
                    Field::Text("exec"@),
                    Field::Flag(true),
                    Field::Text(run.command),
                ],
            )
        }),
{
    reveal_with_fuel(all_bytes, 6);
    let r = run.on_event(conn, events, EventView::OpenConfirmed { channel: run.channel });
    let fields = seq![
        Field::Byte(98),
        Field::Number(conn.channels[run.channel].remote_id),
        Field::Text("exec"@),
        Field::Flag(true),
        Field::Text(run.command),
    ];
    assert(r.send->0 =~= all_bytes(fields, 0));
    lemma_spells(r.send->0, fields);
}

/// While a command runs, its data is told as stdout, its extended data of type 1
/// as stderr, and its exit status as it is, each behind what was told before; the
/// data is credited in full.
pub proof fn lemma_output_is_told(
    run: ExecStateView,
    conn: ConnectionView,
    events: Seq<MioEventView>,
    data: Seq<u8>,
    code: u32,
)
    ensures
        ({
            let r = run.on_event(conn, events, EventView::Data { channel: run.channel, data });
            &&& r.events == events + seq![MioEventView::Data { stderr: false, data }]
            &&& r.state == run
            &&& match conn.replenish_window(run.channel, data.len() as u32) {
                Ok((after, adjust)) => r.result is Ok && r.conn == after && r.send == adjust,
                Err(e) => r.result == Err::<(), Error>(e),
            }
        }),
        ({
            let r = run.on_event(
                conn,
                events,
                EventView::ExtendedData { channel: run.channel, code, data },
            );
            &&& r.events == events + seq![MioEventView::Data { stderr: code == 1, data }]
            &&& r.state == run
            &&& match conn.replenish_window(run.channel, data.len() as u32) {
                Ok((after, adjust)) => r.result is Ok && r.conn == after && r.send == adjust,
                Err(e) => r.result == Err::<(), Error>(e),
            }
        }),
        ({
            let r = run.on_event(
                conn,
                events,
                EventView::Request {
                    channel: run.channel,
                    request: ChannelRequestView::ExitStatus { code },
                    want_reply: false,
                },
            );
            &&& r.events == events + seq![MioEventView::ExitStatus(code)]
            &&& r.state == run && r.conn == conn && r.send is None && r.result is Ok
        }),
{
    let out = MioEventView::Data { stderr: false, data };
    let err = MioEventView::Data { stderr: code == 1, data };
    assert(events + seq![out] =~= events.push(out));
    assert(events + seq![err] =~= events.push(err));
    assert(events + seq![MioEventView::ExitStatus(code)] =~= events.push(
        MioEventView::ExitStatus(code),
    ));
}

/// A command ends when its channel is closed at both ends: a CLOSE is answered
/// by ours, an EOF by ours, a refusal of the channel ends it at once, and a
/// refusal of the command is an error. What happens on another channel changes
/// nothing.
pub proof fn lemma_commands_end(
    run: ExecStateView,
    conn: ConnectionView,
    events: Seq<MioEventView>,
    reason: u32,
    description: Seq<char>,
    other: u32,
    data: Seq<u8>,
)
    requires
        conn.channels.contains_key(run.channel),
        !conn.channels[run.channel].local_closed,
        other != run.channel,
    ensures
        ({
            let r = run.on_event(conn, events, EventView::Close { channel: run.channel });
            &&& r.result is Ok && r.state.finished() && r.events == events
            &&& !run.close_sent ==> spells(
                r.send->0,
                seq![Field::Byte(97), Field::Number(conn.channels[run.channel].remote_id)],
            )
            &&& run.close_sent ==> r.send is None && r.conn == conn
        }),
        ({
            let r = run.on_event(conn, events, EventView::Eof { channel: run.channel });
            &&& r.result is Ok && r.state == (ExecStateView { eof_sent: true, ..run })
            &&& r.events == events
            &&& !run.eof_sent ==> spells(
                r.send->0,
                seq![Field::Byte(96), Field::Number(conn.channels[run.channel].remote_id)],
            )
            &&& run.eof_sent ==> r.send is None && r.conn == conn
        }),
        ({
            let r = run.on_event(
                conn,
                events,
                EventView::OpenFailed { channel: run.channel, reason, description },
            );
            &&& r.result is Ok && r.state.finished() && r.events == events && r.send is None
        }),
        run.on_event(conn, events, EventView::Failure { channel: run.channel }).result is Err,
        run.on_event(conn, events, EventView::Data { channel: other, data }).events == events,
        run.on_event(conn, events, EventView::Data { channel: other, data }).state == run,
        run.on_event(conn, events, EventView::Eof { channel: other }).state == run,
        run.on_event(conn, events, EventView::Close { channel: other }).state == run,
        run.on_event(conn, events, EventView::Failure { channel: other }).result is Ok,
{
    reveal_with_fuel(all_bytes, 3);
    let peer = conn.channels[run.channel].remote_id;
    let eof = seq![Field::Byte(96), Field::Number(peer)];
    let close = seq![Field::Byte(97), Field::Number(peer)];
    if let Ok((_, payload)) = conn.send_close(run.channel) {
        assert(payload =~= all_bytes(close, 0));
        lemma_spells(payload, close);
    }
    if let Ok((_, payload)) = conn.send_eof(run.channel) {
        assert(payload =~= all_bytes(eof, 0));
        lemma_spells(payload, eof);
    }
    if run.eof_sent {
        assert(run == (ExecStateView { eof_sent: true, ..run }));
    }
}

/// A command that has ended makes room for the next, and is told last. An error
/// ends the connection.
pub proof fn lemma_ended_commands_are_told(s: MioView, payload: Seq<u8>)
    requires
        s.phase is Exec,
    ensures
        ({
            let run = s.phase->Exec_0;
            let r = s.on_app_data(payload);
            match s.conn.on_packet(payload) {
                Err(e) => r.result == Err::<(), Error>(e) && r.client.phase is Done
                    && r.client.events == s.events,
                Ok((after, event)) => {
                    let step = run.on_event(after, s.events, event);
                    &&& r.send == step.send && r.result == step.result
                    &&& step.result is Err ==> r.client.phase is Done
                    &&& step.result is Ok && step.state.finished()
                        ==> r.client.phase is Authenticated && r.client.events == step.events
                        + seq![MioEventView::ExecClosed]
                    &&& step.result is Ok && !step.state.finished() ==> r.client.phase
                        == MioPhaseView::Exec(step.state) && r.client.events == step.events
                },
            }
        }),
{
    if let Ok((after, event)) = s.conn.on_packet(payload) {
        let step = s.phase->Exec_0.on_event(after, s.events, event);
        assert(step.events + seq![MioEventView::ExecClosed] =~= step.events.push(
            MioEventView::ExecClosed,
        ));
    }
}

/// An asynchronous client opens a session for a command, asks for the command as
/// it was given, waits for the reply, and collects stdout and stderr; for a
/// proxied connection it opens the channel and asks for nothing.
pub proof fn lemma_asynchronous_operations(command: Seq<char>, kind: ChannelOpenView)
    ensures
        ({
            let s: ScriptView = async_exec_script(command);
            &&& s.kind == ChannelOpenView::Session
            &&& s.asks.len() == 1
            &&& s.asks[0].request == (ChannelRequestView::Exec { command })
            &&& s.asks[0].reply is Some
            &&& s.feed is None
            &&& s.collect is Some && s.collect->0.echo_eof && !s.collect->0.data_only
        }),
        ({
            let s: ScriptView = async_open_script(kind);
            &&& s.kind == kind && s.asks.len() == 0 && s.feed is None && s.collect is None
        }),
{
}

/// What an asynchronous channel gets: data behind the data that was not read
/// yet, credited in full; EOF and CLOSE end it; what is for another channel
/// changes nothing about it.
pub proof fn lemma_asynchronous_channel_keeps_what_arrives(
    ch: AsyncChannelView,
    conn: ConnectionView,
    payload: Seq<u8>,
)
    requires
        conn.on_packet(payload) is Ok,
    ensures
        ({
            let (after, event) = conn.on_packet(payload)->Ok_0;
            let r = ch.on_payload(conn, payload);
            match event {
                EventView::Data { channel, data } => if channel == ch.channel {
                    &&& r.channel == (AsyncChannelView { read_buf: ch.read_buf + data, ..ch })
                    &&& match after.replenish_window(channel, data.len() as u32) {
                        Ok((credited, adjust)) => r.result is Ok && r.conn == credited && r.send
                            == adjust,
                        Err(e) => r.result == Err::<(), Error>(e),
                    }
                } else {
                    r.channel == ch && r.conn == after && r.send is None
                },
                EventView::Eof { channel } => r.channel.read_buf == ch.read_buf
                    && r.channel.remote_eof == (ch.remote_eof || channel == ch.channel),
                EventView::Close { channel } => r.channel.read_buf == ch.read_buf
                    && r.channel.remote_eof == (ch.remote_eof || channel == ch.channel),
                _ => r.channel == ch && r.conn == after && r.send is None && r.result is Ok,
            }
        }),
{
}

/// Whether a payload carries `data` to the peer's channel `remote`.
pub open spec fn carries(payload: Seq<u8>, remote: u32, data: Seq<u8>) -> bool {
    spells(payload, seq![Field::Byte(94), Field::Number(remote), Field::Bytes(data)])
}

/// Whether payloads carry `data` to the peer's channel `remote`, in order.
pub open spec fn carry(payloads: Seq<Seq<u8>>, remote: u32, data: Seq<u8>) -> bool
    decreases payloads.len(),
{
    if payloads.len() == 0 {
        data.len() == 0
    } else {
        exists|n: int|
            0 <= n <= data.len() && #[trigger] carries(payloads[0], remote, data.take(n)) && carry(
                payloads.skip(1),
                remote,
                data.skip(n),
            )
    }
}

/// What is written goes out in order, from the front, and all of it but what the
/// peer has no room for.
pub proof fn lemma_writes_go_out_in_order(
    ch: AsyncChannelView,
    conn: ConnectionView,
    data: Seq<u8>,
)
    requires
        conn.channels.contains_key(ch.channel),
        conn.channels[ch.channel].sendable(),
        !conn.channels[ch.channel].local_eof,
    ensures
        ({
            let w = ch.write(conn, data, Seq::empty());
            let left = w.conn.channels[ch.channel];
            &&& w.result is Ok
            &&& w.written <= data.len()
            &&& carry(w.send, conn.channels[ch.channel].remote_id, data.take(w.written as int))
            &&& w.written < data.len() ==> left.remote_window == 0 || left.remote_max_packet <= 9
            &&& left.remote_window + w.written == conn.channels[ch.channel].remote_window
        }),
{
    lemma_written(ch, conn, data, Seq::empty());
    let w = ch.write(conn, data, Seq::empty());
    assert(w.send.skip(0) =~= w.send);
}

proof fn lemma_written(
    ch: AsyncChannelView,
    conn: ConnectionView,
    data: Seq<u8>,
    send: Seq<Seq<u8>>,
)
    requires
        conn.channels.contains_key(ch.channel),
        conn.channels[ch.channel].sendable(),
        !conn.channels[ch.channel].local_eof,
    ensures
        ({
            let w = ch.write(conn, data, send);
            let left = w.conn.channels[ch.channel];
            &&& w.result is Ok
            &&& w.written <= data.len()
            &&& w.send.len() >= send.len()
            &&& w.send.take(send.len() as int) == send
            &&& carry(
                w.send.skip(send.len() as int),
                conn.channels[ch.channel].remote_id,
                data.take(w.written as int),
            )
            &&& w.written < data.len() ==> left.remote_window == 0 || left.remote_max_packet <= 9
            &&& left.remote_window + w.written == conn.channels[ch.channel].remote_window
        }),
    decreases data.len(),
{
    reveal_with_fuel(carry, 2);
    reveal_with_fuel(all_bytes, 4);
    let w = ch.write(conn, data, send);
    let peer = conn.channels[ch.channel].remote_id;
    if data.len() == 0 {
        assert(w.send.skip(send.len() as int) =~= Seq::empty());
        assert(w.send.take(send.len() as int) =~= send);
    } else {
        let (after, payload, n) = conn.send_data(ch.channel, data)->Ok_0;
        let fields = seq![Field::Byte(94), Field::Number(peer), Field::Bytes(data.take(n))];
        assert(payload =~= all_bytes(fields, 0));
        lemma_spells(payload, fields);
        if n <= 0 {
            let tail = w.send.skip(send.len() as int);
            let none = data.take(0);
            assert(w.send.take(send.len() as int) =~= send);
            assert(tail =~= seq![payload]);
            assert(none.take(0) =~= data.take(n));
            assert(tail.skip(1) =~= Seq::empty());
            assert(none.skip(0) =~= Seq::empty());
            assert(carries(tail[0], peer, none.take(0)));
            assert(data.take(w.written as int) =~= none);
        } else {
            let more = send.push(payload);
            lemma_written(ch, after, data.skip(n), more);
            let rest = ch.write(after, data.skip(n), more);
            let tail = w.send.skip(send.len() as int);
            let all = data.take(w.written as int);
            assert(rest.send.take(more.len() as int)[send.len() as int] == payload);
            assert(tail[0] == payload);
            assert(tail.skip(1) =~= rest.send.skip(more.len() as int));
            assert(w.send.take(send.len() as int) =~= send) by {
                assert forall|i: int| 0 <= i < send.len() implies w.send[i] == send[i] by {
                    assert(rest.send.take(more.len() as int)[i] == more[i]);
                }
            }
            assert(all.take(n) =~= data.take(n));
            assert(all.skip(n) =~= data.skip(n).take(rest.written as int));
            assert(carries(tail[0], peer, all.take(n)));
        }
    }
}

/// A command that has been asked for is that command, on its own channel, with
/// nothing closed; it is finished once both sides have closed. A stream starts
/// empty.
pub proof fn lemma_beginnings(channel: u32, command: Seq<char>, run: ExecStateView)
    ensures
        ({
            let f = ExecStateView::fresh(channel, command);
            &&& f.channel == channel && f.command == command
            &&& !f.remote_closed && !f.close_sent && !f.eof_sent
            &&& !f.finished()
        }),
        run.finished() <==> run.remote_closed && run.close_sent,
        ({
            let p = PumpView::fresh(channel);
            &&& p.channel == channel
            &&& p.read_buf.len() == 0 && p.stderr_buf.len() == 0
            &&& !p.remote_eof && !p.local_close_sent
        }),
{
}

} // verus!
