//! Laws of the client: what holds of its sessions and its serve loop as a
//! whole.

use super::serve::{ClientHandlers, EgressView, Granted, RuntimeView, ServeView};
use super::session::{Collect, Next, OutputView, Reply, SessionView, MAX_EXEC_ITER};
use crate::channel::model::{data_payload, ConnectionView, EventView};
use crate::channel::open::ChannelOpenView;
use crate::channel::request::ChannelRequestView;
use crate::channel::SSH_EXTENDED_DATA_STDERR;
use vstd::prelude::*;

verus! {

/// The channel that an event is about, if it is about one that is open or
/// being opened by us.
pub open spec fn channel_of(event: EventView) -> Option<u32> {
    match event {
        EventView::OpenRequest { .. } => None,
        EventView::OpenConfirmed { channel } => Some(channel),
        EventView::OpenFailed { channel, .. } => Some(channel),
        EventView::Data { channel, .. } => Some(channel),
        EventView::ExtendedData { channel, .. } => Some(channel),
        EventView::WindowAdjust { channel, .. } => Some(channel),
        EventView::Eof { channel } => Some(channel),
        EventView::Close { channel } => Some(channel),
        EventView::Request { channel, .. } => Some(channel),
        EventView::Success { channel } => Some(channel),
        EventView::Failure { channel } => Some(channel),
        EventView::GlobalRequest { .. } => None,
        EventView::GlobalSuccess { .. } => None,
        EventView::GlobalFailure => None,
    }
}

/// The messages that carry the chunks, in order.
pub open spec fn data_messages(remote: u32, chunks: Seq<Seq<u8>>) -> Seq<Seq<u8>> {
    chunks.map_values(|c: Seq<u8>| data_payload(remote, c))
}

/// Sending data changes nothing about a channel but the peer's window.
proof fn lemma_send_data_keeps_the_rest(conn: ConnectionView, id: u32, data: Seq<u8>)
    requires
        conn.send_data(id, data) is Ok,
    ensures
        ({
            let (after, payload, n) = conn.send_data(id, data)->Ok_0;
            &&& conn.channels.contains_key(id)
            &&& after.channels.contains_key(id)
            &&& after.channels[id].remote_id == conn.channels[id].remote_id
            &&& 0 <= n <= data.len()
            &&& payload == data_payload(conn.channels[id].remote_id, data.take(n))
        }),
{
}

/// One more chunk in front.
proof fn lemma_chunk_in_front(remote: u32, first: Seq<u8>, rest: Seq<Seq<u8>>)
    ensures
        data_messages(remote, seq![first] + rest) == seq![data_payload(remote, first)]
            + data_messages(remote, rest),
        (seq![first] + rest).flatten() == first + rest.flatten(),
{
    let all = seq![first] + rest;
    assert(data_messages(remote, all) =~= seq![data_payload(remote, first)] + data_messages(
        remote,
        rest,
    ));
    assert(all.drop_first() =~= rest);
}

/// Handler output is neither lost nor reordered: what is sent and what is
/// kept for later are, together, exactly what there was to send.
pub proof fn lemma_serve_loses_nothing(
    rt: RuntimeView,
    conn: ConnectionView,
    channel: u32,
    bytes: Seq<u8>,
    send: Seq<Seq<u8>>,
) -> (chunks: Seq<Seq<u8>>)
    requires
        rt.pending_data.len() == 0,
        conn.channels.contains_key(channel),
        rt.emit(conn, channel, bytes, send).result is Ok,
    ensures
        ({
            let out = rt.emit(conn, channel, bytes, send);
            &&& out.send == send + data_messages(conn.channels[channel].remote_id, chunks)
            &&& chunks.flatten() + out.runtime.pending_data == bytes
        }),
    decreases bytes.len(),
{
    let remote = conn.channels[channel].remote_id;
    let out = rt.emit(conn, channel, bytes, send);
    let none = Seq::<Seq<u8>>::empty();
    if bytes.len() == 0 {
        assert(send + data_messages(remote, none) =~= send);
        assert(none.flatten() + out.runtime.pending_data =~= bytes);
        none
    } else {
        lemma_send_data_keeps_the_rest(conn, channel, bytes);
        let (after, payload, n) = conn.send_data(channel, bytes)->Ok_0;
        if n <= 0 {
            assert(send + data_messages(remote, none) =~= send);
            assert(rt.pending_data + bytes =~= bytes);
            assert(none.flatten() + out.runtime.pending_data =~= bytes);
            none
        } else {
            let rest = lemma_serve_loses_nothing(
                rt,
                after,
                channel,
                bytes.skip(n),
                send.push(payload),
            );
            let chunks = seq![bytes.take(n)] + rest;
            lemma_chunk_in_front(remote, bytes.take(n), rest);
            assert(out.send =~= send + data_messages(remote, chunks));
            assert(chunks.flatten() + out.runtime.pending_data =~= bytes.take(n) + (
            rest.flatten() + out.runtime.pending_data));
            assert(bytes.take(n) + bytes.skip(n) =~= bytes);
            chunks
        }
    }
}

/// What a session feeds into its channel is its input, byte for byte and in
/// order: the messages that a stretch of feeding sends carry exactly the part
/// of the input that it moves past. If it gets to the end, EOF follows.
pub proof fn lemma_input_is_sent_in_order(
    s: SessionView,
    conn: ConnectionView,
    send: Seq<Seq<u8>>,
) -> (chunks: Seq<Seq<u8>>)
    requires
        s.feed is Some,
        s.off <= s.feed->0.bytes.len(),
        conn.channels.contains_key(s.channel),
        s.push_input(conn, send).next !is Failed,
    ensures
        ({
            let out = s.push_input(conn, send);
            let remote = conn.channels[s.channel].remote_id;
            let sent = send + data_messages(remote, chunks);
            &&& s.off <= out.session.off <= s.feed->0.bytes.len()
            &&& chunks.flatten() == s.feed->0.bytes.subrange(s.off as int, out.session.off as int)
            &&& if out.session.stage is Feeding {
                out.send == sent
            } else {
                &&& out.session.off == s.feed->0.bytes.len()
                &&& out.send == sent.push(
                    crate::channel::model::id_payload(
                        crate::channel::MSG_CHANNEL_EOF,
                        remote,
                    ),
                )
            }
        }),
    decreases s.feed->0.bytes.len() - s.off,
{
    let bytes = s.feed->0.bytes;
    let remote = conn.channels[s.channel].remote_id;
    let out = s.push_input(conn, send);
    let none = Seq::<Seq<u8>>::empty();
    if s.off >= bytes.len() {
        assert(send + data_messages(remote, none) =~= send);
        assert(none.flatten() =~= bytes.subrange(s.off as int, s.off as int));
        none
    } else {
        let left = bytes.skip(s.off as int);
        lemma_send_data_keeps_the_rest(conn, s.channel, left);
        let (after, payload, n) = conn.send_data(s.channel, left)->Ok_0;
        if n <= 0 {
            assert(send + data_messages(remote, none) =~= send);
            assert(none.flatten() =~= bytes.subrange(s.off as int, s.off as int));
            none
        } else {
            let next = SessionView {
                off: (s.off + n) as nat,
                rounds: s.rounds + 1,
                ..s
            };
            let rest = lemma_input_is_sent_in_order(next, after, send.push(payload));
            let chunks = seq![left.take(n)] + rest;
            lemma_chunk_in_front(remote, left.take(n), rest);
            assert(send + data_messages(remote, chunks) =~= send.push(payload) + data_messages(
                remote,
                rest,
            ));
            assert(chunks.flatten() =~= bytes.subrange(s.off as int, out.session.off as int));
            chunks
        }
    }
}

/// A session is over exactly when a step says that nothing is waited for.
pub proof fn lemma_session_ends_once(s: SessionView, conn: ConnectionView, payload: Seq<u8>)
    requires
        s.stage !is Over,
        s.wf(),
    ensures
        s.on_payload(conn, payload).next is Wait <==> s.on_payload(
            conn,
            payload,
        ).session.stage !is Over,
{
    match conn.on_packet(payload) {
        Err(_) => {},
        Ok((after, event)) => {
            lemma_ask_ends(s, after, Seq::empty());
            if s.stage is Feeding {
                lemma_push_input_ends(s, after, Seq::empty());
            }
        },
    }
}

/// The same for the requests of a session.
proof fn lemma_ask_ends(s: SessionView, conn: ConnectionView, send: Seq<Seq<u8>>)
    requires
        s.feed matches Some(f) ==> s.off <= f.bytes.len(),
    ensures
        s.ask(conn, send).next is Wait <==> s.ask(conn, send).session.stage !is Over,
    decreases s.asks.len(),
{
    if s.asks.len() == 0 {
        if s.feed is Some {
            lemma_push_input_ends(SessionView { rounds: 0, ..s }, conn, send);
        }
    } else {
        let rest = SessionView { asks: s.asks.skip(1), ..s };
        match conn.send_request(s.channel, s.asks[0].request, s.asks[0].reply is Some) {
            Err(_) => {},
            Ok(payload) => {
                lemma_ask_ends(rest, conn, send.push(payload));
            },
        }
    }
}

/// The same for the input of a session.
proof fn lemma_push_input_ends(s: SessionView, conn: ConnectionView, send: Seq<Seq<u8>>)
    requires
        s.feed is Some,
        s.off <= s.feed->0.bytes.len(),
    ensures
        s.push_input(conn, send).next is Wait <==> s.push_input(
            conn,
            send,
        ).session.stage !is Over,
    decreases s.feed->0.bytes.len() - s.off,
{
    let bytes = s.feed->0.bytes;
    if s.off < bytes.len() && s.rounds < MAX_EXEC_ITER {
        match conn.send_data(s.channel, bytes.skip(s.off as int)) {
            Err(_) => {},
            Ok((after, payload, n)) => {
                if n > 0 {
                    let next = SessionView { off: (s.off + n) as nat, rounds: s.rounds + 1, ..s };
                    lemma_push_input_ends(next, after, send.push(payload));
                }
            },
        }
    }
}

/// Output is complete only when the peer closes the session's own channel,
/// and then our own CLOSE is the last thing that is sent.
pub proof fn lemma_done_only_on_close(s: SessionView, conn: ConnectionView, event: EventView)
    requires
        s.stage is Collecting,
        s.on_event(conn, event).next is Done,
    ensures
        event == (EventView::Close { channel: s.channel }),
        s.on_event(conn, event).session.out == s.out,
        s.on_event(conn, event).send.len() == 1,
{
}

/// What happens on other channels, or on none, means nothing to a session
/// that collects output: nothing is sent, and what has been collected stays.
pub proof fn lemma_session_minds_its_channel(
    s: SessionView,
    conn: ConnectionView,
    event: EventView,
)
    requires
        s.stage is Collecting,
        channel_of(event) != Some(s.channel),
    ensures
        s.on_event(conn, event).send.len() == 0,
        s.on_event(conn, event).conn == conn,
        s.on_event(conn, event).session.out == s.out,
        s.on_event(conn, event).next is Wait || s.rounds + 1 >= MAX_EXEC_ITER,
{
}

/// Collected output only ever grows: no event takes back a byte.
pub proof fn lemma_output_only_grows(s: SessionView, conn: ConnectionView, event: EventView)
    requires
        s.stage is Collecting,
    ensures
        s.out.stdout.is_prefix_of(s.on_event(conn, event).session.out.stdout),
        s.out.stderr.is_prefix_of(s.on_event(conn, event).session.out.stderr),
{
    match event {
        EventView::Data { data, .. } => {
            assert(s.out.stdout =~= (s.out.stdout + data).take(s.out.stdout.len() as int));
        },
        EventView::ExtendedData { data, .. } => {
            assert(s.out.stdout =~= (s.out.stdout + data).take(s.out.stdout.len() as int));
            assert(s.out.stderr =~= (s.out.stderr + data).take(s.out.stderr.len() as int));
        },
        _ => {},
    }
}

/// What a stretch of inbound payloads leads to.
#[verifier::opaque]
pub open spec fn after_all(s: SessionView, conn: ConnectionView, payloads: Seq<Seq<u8>>) -> Reply
    decreases payloads.len(),
{
    if payloads.len() == 0 {
        Reply { conn, session: s, send: Seq::empty(), next: Next::Wait }
    } else {
        let before = after_all(s, conn, payloads.drop_last());
        let last = before.session.on_payload(before.conn, payloads.last());
        Reply { send: before.send + last.send, ..last }
    }
}

/// The events of a stretch that come in while the session collects output, in
/// order.
#[verifier::opaque]
pub open spec fn gathered(
    s: SessionView,
    conn: ConnectionView,
    payloads: Seq<Seq<u8>>,
) -> Seq<EventView>
    decreases payloads.len(),
{
    if payloads.len() == 0 {
        Seq::empty()
    } else {
        let before = after_all(s, conn, payloads.drop_last());
        let earlier = gathered(s, conn, payloads.drop_last());
        match before.conn.on_packet(payloads.last()) {
            Ok((_, event)) => if before.session.stage is Collecting {
                earlier.push(event)
            } else {
                earlier
            },
            Err(_) => earlier,
        }
    }
}

/// What an event adds to standard output: the data of the channel, and its
/// extended data of any sort but standard error.
pub open spec fn to_stdout(how: Collect, channel: u32, event: EventView) -> Seq<u8> {
    match event {
        EventView::Data { channel: c, data } => if c == channel {
            data
        } else {
            Seq::empty()
        },
        EventView::ExtendedData { channel: c, code, data } => if c == channel && !how.data_only
            && code != SSH_EXTENDED_DATA_STDERR {
            data
        } else {
            Seq::empty()
        },
        _ => Seq::empty(),
    }
}

/// What an event adds to standard error.
pub open spec fn to_stderr(how: Collect, channel: u32, event: EventView) -> Seq<u8> {
    match event {
        EventView::ExtendedData { channel: c, code, data } => if c == channel && !how.data_only
            && code == SSH_EXTENDED_DATA_STDERR {
            data
        } else {
            Seq::empty()
        },
        _ => Seq::empty(),
    }
}

/// What events add to standard output, one after the other.
pub open spec fn all_stdout(how: Collect, channel: u32, events: Seq<EventView>) -> Seq<u8>
    decreases events.len(),
{
    if events.len() == 0 {
        Seq::empty()
    } else {
        all_stdout(how, channel, events.drop_last()) + to_stdout(how, channel, events.last())
    }
}

/// What events add to standard error, one after the other.
pub open spec fn all_stderr(how: Collect, channel: u32, events: Seq<EventView>) -> Seq<u8>
    decreases events.len(),
{
    if events.len() == 0 {
        Seq::empty()
    } else {
        all_stderr(how, channel, events.drop_last()) + to_stderr(how, channel, events.last())
    }
}

/// The exit status that an event reports, or else the one from before.
pub open spec fn status_after(
    how: Collect,
    channel: u32,
    event: EventView,
    before: Option<u32>,
) -> Option<u32> {
    match event {
        EventView::Request {
            channel: c,
            request: ChannelRequestView::ExitStatus { code },
            ..
        } => if c == channel && !how.data_only {
            Some(code)
        } else {
            before
        },
        _ => before,
    }
}

/// The signal that an event reports the command to have died of, or else the
/// one from before.
pub open spec fn signal_after(
    how: Collect,
    channel: u32,
    event: EventView,
    before: Option<Seq<char>>,
) -> Option<Seq<char>> {
    match event {
        EventView::Request {
            channel: c,
            request: ChannelRequestView::ExitSignal { name, .. },
            ..
        } => if c == channel && !how.data_only {
            Some(name)
        } else {
            before
        },
        _ => before,
    }
}

/// The last exit status that events report, or else the one from before.
pub open spec fn last_status(
    how: Collect,
    channel: u32,
    events: Seq<EventView>,
    before: Option<u32>,
) -> Option<u32>
    decreases events.len(),
{
    if events.len() == 0 {
        before
    } else {
        status_after(
            how,
            channel,
            events.last(),
            last_status(how, channel, events.drop_last(), before),
        )
    }
}

/// The last signal that events report, or else the one from before.
pub open spec fn last_signal(
    how: Collect,
    channel: u32,
    events: Seq<EventView>,
    before: Option<Seq<char>>,
) -> Option<Seq<char>>
    decreases events.len(),
{
    if events.len() == 0 {
        before
    } else {
        signal_after(
            how,
            channel,
            events.last(),
            last_signal(how, channel, events.drop_last(), before),
        )
    }
}

/// What has been collected after an event.
pub open spec fn heard(
    how: Collect,
    channel: u32,
    event: EventView,
    before: OutputView,
) -> OutputView {
    OutputView {
        stdout: before.stdout + to_stdout(how, channel, event),
        stderr: before.stderr + to_stderr(how, channel, event),
        exit_status: status_after(how, channel, event, before.exit_status),
        exit_signal: signal_after(how, channel, event, before.exit_signal),
    }
}

/// What has been collected after events: their data, and the last of the exit
/// reports.
pub open spec fn all_heard(
    how: Collect,
    channel: u32,
    events: Seq<EventView>,
    before: OutputView,
) -> OutputView {
    OutputView {
        stdout: before.stdout + all_stdout(how, channel, events),
        stderr: before.stderr + all_stderr(how, channel, events),
        exit_status: last_status(how, channel, events, before.exit_status),
        exit_signal: last_signal(how, channel, events, before.exit_signal),
    }
}

/// Input is sent without a change to what has been collected.
proof fn lemma_push_input_keeps_output(s: SessionView, conn: ConnectionView, send: Seq<Seq<u8>>)
    ensures
        ({
            let r = s.push_input(conn, send);
            &&& r.session.out == s.out
            &&& r.session.channel == s.channel
            &&& r.session.collect == s.collect
            &&& r.next !is Done
        }),
    decreases s.feed->0.bytes.len() - s.off,
{
    let bytes = s.feed->0.bytes;
    if s.off < bytes.len() && s.rounds < MAX_EXEC_ITER {
        match conn.send_data(s.channel, bytes.skip(s.off as int)) {
            Err(_) => {},
            Ok((after, payload, n)) => {
                if n > 0 {
                    let next = SessionView { off: (s.off + n) as nat, rounds: s.rounds + 1, ..s };
                    lemma_push_input_keeps_output(next, after, send.push(payload));
                }
            },
        }
    }
}

/// Requests are sent without a change to what has been collected.
proof fn lemma_ask_keeps_output(s: SessionView, conn: ConnectionView, send: Seq<Seq<u8>>)
    ensures
        ({
            let r = s.ask(conn, send);
            &&& r.session.out == s.out
            &&& r.session.channel == s.channel
            &&& r.session.collect == s.collect
            &&& r.next !is Done
        }),
    decreases s.asks.len(),
{
    if s.asks.len() == 0 {
        if s.feed is Some {
            lemma_push_input_keeps_output(SessionView { rounds: 0, ..s }, conn, send);
        }
    } else {
        let rest = SessionView { asks: s.asks.skip(1), ..s };
        match conn.send_request(s.channel, s.asks[0].request, s.asks[0].reply is Some) {
            Err(_) => {},
            Ok(payload) => {
                lemma_ask_keeps_output(rest, conn, send.push(payload));
            },
        }
    }
}

/// What one event adds to what has been collected, unless it ends the session
/// without success.
proof fn lemma_event_adds(s: SessionView, conn: ConnectionView, event: EventView)
    ensures
        ({
            let r = s.on_event(conn, event);
            let how = s.collect->0;
            let more = s.stage is Collecting;
            &&& s.stage is Over ==> r.session.stage is Over && r.next !is Done
            &&& r.session.stage !is Over || r.next is Done ==> {
                &&& r.session.channel == s.channel
                &&& r.session.collect == s.collect
                &&& r.session.out == if more {
                    heard(how, s.channel, event, s.out)
                } else {
                    s.out
                }
            }
        }),
{
    assert(s.out.stdout + Seq::<u8>::empty() =~= s.out.stdout);
    assert(s.out.stderr + Seq::<u8>::empty() =~= s.out.stderr);
    if s.stage is Feeding {
        lemma_push_input_keeps_output(s, conn, Seq::empty());
    } else if s.stage !is Collecting {
        lemma_ask_keeps_output(s, conn, Seq::empty());
    }
}

/// The last payload of a stretch adds to what has been collected what it adds
/// to the events.
proof fn lemma_payload_adds(
    s: SessionView,
    conn: ConnectionView,
    payloads: Seq<Seq<u8>>,
    how: Collect,
    channel: u32,
)
    requires
        payloads.len() > 0,
    ensures
        ({
            let before = after_all(s, conn, payloads.drop_last());
            let after = after_all(s, conn, payloads);
            let earlier = gathered(s, conn, payloads.drop_last());
            let events = gathered(s, conn, payloads);
            &&& before.session.stage is Over ==> after.session.stage is Over && after.next !is Done
            &&& after.session.stage !is Over || after.next is Done ==> {
                &&& after.session.channel == before.session.channel
                &&& after.session.collect == before.session.collect
                &&& before.session.channel == channel && before.session.collect->0 == how ==> {
                    ||| events == earlier && after.session.out == before.session.out
                    ||| events.len() > 0 && events.drop_last() == earlier && after.session.out
                        == heard(how, channel, events.last(), before.session.out)
                }
            }
        }),
{
    reveal_with_fuel(after_all, 2);
    reveal_with_fuel(gathered, 2);
    let before = after_all(s, conn, payloads.drop_last());
    let earlier = gathered(s, conn, payloads.drop_last());
    if let Ok((after, event)) = before.conn.on_packet(payloads.last()) {
        lemma_event_adds(before.session, after, event);
        assert(earlier.push(event).drop_last() =~= earlier);
    }
}

/// What has been collected, unless the session has failed, is what the events
/// that came in meanwhile have added.
proof fn lemma_collected_so_far(s: SessionView, conn: ConnectionView, payloads: Seq<Seq<u8>>)
    ensures
        ({
            let r = after_all(s, conn, payloads);
            let events = gathered(s, conn, payloads);
            let how = s.collect->0;
            &&& r.session.stage !is Over || r.next is Done ==> {
                &&& r.session.channel == s.channel
                &&& r.session.collect == s.collect
                &&& r.session.out == all_heard(how, s.channel, events, s.out)
            }
        }),
    decreases payloads.len(),
{
    let how = s.collect->0;
    let events = gathered(s, conn, payloads);
    if payloads.len() == 0 {
        reveal_with_fuel(after_all, 1);
        reveal_with_fuel(gathered, 1);
        assert(s.out.stdout + all_stdout(how, s.channel, events) =~= s.out.stdout);
        assert(s.out.stderr + all_stderr(how, s.channel, events) =~= s.out.stderr);
    } else {
        lemma_collected_so_far(s, conn, payloads.drop_last());
        lemma_payload_adds(s, conn, payloads, how, s.channel);
        let earlier = gathered(s, conn, payloads.drop_last());
        if events != earlier {
            let old_out = all_stdout(how, s.channel, earlier);
            let old_err = all_stderr(how, s.channel, earlier);
            let more_out = to_stdout(how, s.channel, events.last());
            let more_err = to_stderr(how, s.channel, events.last());
            assert(s.out.stdout + (old_out + more_out) =~= s.out.stdout + old_out + more_out);
            assert(s.out.stderr + (old_err + more_err) =~= s.out.stderr + old_err + more_err);
        }
    }
}

/// Output comes out as it went in: once a session is done, its standard output
/// is the channel's data, all of it and in order, and so is its standard
/// error, from the moment on at which it began to collect. Its exit status is
/// the last that was reported meanwhile, or what it was before if none was, and
/// so is the signal that ended the command.
pub proof fn lemma_output_is_what_the_channel_carried(
    s: SessionView,
    conn: ConnectionView,
    payloads: Seq<Seq<u8>>,
)
    requires
        after_all(s, conn, payloads).next is Done,
    ensures
        ({
            let out = after_all(s, conn, payloads).session.out;
            let events = gathered(s, conn, payloads);
            let how = s.collect->0;
            &&& out.stdout == s.out.stdout + all_stdout(how, s.channel, events)
            &&& out.stderr == s.out.stderr + all_stderr(how, s.channel, events)
            &&& out.exit_status == last_status(how, s.channel, events, s.out.exit_status)
            &&& out.exit_signal == last_signal(how, s.channel, events, s.out.exit_signal)
        }),
{
    lemma_collected_so_far(s, conn, payloads);
}

/// A connection that is forwarded although no forward of its sort is in force
/// is never handed to a handler.
pub proof fn lemma_unsolicited_forwards_are_refused(
    serve: ServeView,
    granted: Granted,
    handlers: ClientHandlers,
    conn: ConnectionView,
    channel: u32,
    kind: ChannelOpenView,
)
    requires
        kind is ForwardedTcpip ==> !granted.tcpip,
        kind is Other ==> !granted.streamlocal,
        kind is AuthAgent ==> !handlers.on_auth_agent,
        kind is X11 ==> !handlers.on_x11,
    ensures
        serve.on_open(granted, handlers, conn, channel, kind).act !is Spawn,
        serve.on_open(granted, handlers, conn, channel, kind).serve.runtimes == serve.runtimes,
{
}

/// Without handlers, no packet ever starts one.
pub proof fn lemma_no_handlers_no_channels(
    serve: ServeView,
    granted: Granted,
    conn: ConnectionView,
    payload: Seq<u8>,
)
    ensures
        serve.dispatch(conn, granted, ClientHandlers::none(), payload).act !is Spawn,
{
}

/// Once the CLOSE of a served channel has been sent, its EOF has been sent
/// before and none of its data is left.
pub open spec fn orderly(rt: RuntimeView) -> bool {
    rt.close_sent ==> rt.eof_sent && rt.pending_data.len() == 0
}

/// Every step of a served channel keeps the order data, EOF, CLOSE.
pub proof fn lemma_channels_close_in_order(
    rt: RuntimeView,
    conn: ConnectionView,
    channel: u32,
    message: EgressView,
)
    requires
        orderly(rt),
    ensures
        orderly(RuntimeView::fresh()),
        orderly(rt.retry(conn, channel).runtime),
        !rt.close_sent ==> orderly(rt.on_egress(conn, channel, message).runtime),
        orderly(rt.settle(conn, channel).runtime),
{
    let cleared = RuntimeView { pending_data: Seq::empty(), ..rt };
    lemma_emit_keeps_flags(cleared, conn, channel, rt.pending_data, Seq::empty());
    if let EgressView::Data(bytes) = message {
        lemma_emit_keeps_flags(rt, conn, channel, bytes, Seq::empty());
    }
}

/// Sending data closes nothing.
proof fn lemma_emit_keeps_flags(
    rt: RuntimeView,
    conn: ConnectionView,
    channel: u32,
    bytes: Seq<u8>,
    send: Seq<Seq<u8>>,
)
    ensures
        ({
            let after = rt.emit(conn, channel, bytes, send).runtime;
            after == (RuntimeView { pending_data: after.pending_data, ..rt })
        }),
    decreases bytes.len(),
{
    if bytes.len() > 0 {
        match conn.send_data(channel, bytes) {
            Err(_) => {},
            Ok((after, payload, n)) => {
                if n > 0 {
                    lemma_emit_keeps_flags(rt, after, channel, bytes.skip(n), send.push(payload));
                }
            },
        }
    }
}

/// A silent peer is given up on after exactly as many probes as were allowed,
/// each an interval after the one before it, and any packet in between starts
/// the count anew.
pub proof fn lemma_keepalive_counts(serve: ServeView, interval: u64, count_max: u32, now: u128)
    requires
        interval > 0,
    ensures
        ({
            let keepalive = Some((interval, count_max));
            let due = now >= serve.last_activity + interval * 1_000_000_000;
            &&& serve.probe(keepalive, false, now) is Quiet <==> !due
            &&& serve.probe(keepalive, false, now) is Dead <==> due && serve.probes_pending
                >= count_max
            &&& serve.probe(keepalive, true, now) is Quiet
            &&& serve.probed(now).probe(keepalive, false, now) is Quiet
            &&& serve.alive(now).probe(keepalive, false, now) is Quiet
            &&& count_max > 0 ==> !(serve.alive(now).probe(keepalive, false, u128::MAX) is Dead)
        }),
{
    assert(interval * 1_000_000_000 > 0) by (nonlinear_arith)
        requires
            interval > 0,
    ;
}

} // verus!
