//! What the operations of a client ask of the server: which channels they open,
//! what they request on them and in which order, and whom they let in.

use super::forward::{Forwarding, ForwardingView, GrantsView, ForwardStep};
use super::serve::{
    ActView, ClientHandlers, Granted, InboundView, RuntimeView, ServeCommand, ServeView,
};
use super::session::{AskView, Next, ScriptView, SessionView, Stage};
use super::state::{env_asks, ClientView};
use super::streamlocal::{direct_open, forwarded_path};
use crate::channel::layout::{all_bytes, lemma_spells, spells, Field};
use crate::channel::model::{global_payload, ConnectionView, EventView};
use crate::channel::open::ChannelOpenView;
use crate::channel::request::ChannelRequestView;
use crate::channel::{lemma_get_put_text, text_fits, wire_text};
use crate::error::Error;
use crate::format::{be32, lemma_get_put_string, lemma_get_put_u32, wire_string};
use vstd::prelude::*;

verus! {

/// Whether the requests of a script begin with those that are set up for every
/// session, and with nothing else: the agent, then the display, then the
/// variables in their order. None of them waits for a reply.
pub open spec fn begins_as_set_up(c: ClientView, asks: Seq<AskView>, env: bool) -> bool {
    let a: int = if c.request_auth_agent {
        1
    } else {
        0
    };
    let x: int = if c.request_x11 is Some {
        1
    } else {
        0
    };
    let e: int = if env {
        c.session_env.len() as int
    } else {
        0
    };
    &&& asks.len() >= a + x + e
    &&& c.request_auth_agent ==> asks[0].request is AuthAgentReq
    &&& c.request_x11 matches Some(request) ==> asks[a].request == request
    &&& forall|i: int|
        0 <= i < e ==> (#[trigger] asks[a + x + i]).request == (ChannelRequestView::Env {
            name: c.session_env[i].0,
            value: c.session_env[i].1,
        })
    &&& forall|i: int| 0 <= i < a + x + e ==> (#[trigger] asks[i]).reply is None
}

/// How many requests are set up for every session.
pub open spec fn set_up_len(c: ClientView, env: bool) -> int {
    (if c.request_auth_agent {
        1int
    } else {
        0
    }) + (if c.request_x11 is Some {
        1int
    } else {
        0
    }) + (if env {
        c.session_env.len() as int
    } else {
        0
    })
}

/// Running a command asks for what is set up, for a terminal if one is wanted,
/// and last for that command, whose reply alone is waited for; its output is
/// collected whole.
pub proof fn lemma_exec_asks_for_the_command(c: ClientView, command: Seq<char>)
    ensures
        ({
            let s = c.exec_script(command);
            let n = set_up_len(c, true);
            let p: int = if c.request_pty is Some {
                1
            } else {
                0
            };
            &&& s.kind is Session
            &&& begins_as_set_up(c, s.asks, true)
            &&& s.asks.len() == n + p + 1
            &&& c.request_pty matches Some(request) ==> s.asks[n].request == request
                && s.asks[n].reply is None
            &&& s.asks[n + p].request == (ChannelRequestView::Exec { command })
            &&& s.asks[n + p].reply is Some
            &&& s.feed is None
            &&& s.collect matches Some(how) && !how.data_only && how.echo_eof
        }),
        ({
            let s = c.exec_stream_script(command);
            let n = set_up_len(c, true);
            &&& s.kind is Session
            &&& begins_as_set_up(c, s.asks, true)
            &&& s.asks.len() == n + 1
            &&& s.asks[n].request == (ChannelRequestView::Exec { command })
            &&& s.asks[n].reply is Some
            &&& s.feed is None && s.collect is None
        }),
{
    lemma_env_asks(c);
}

/// Running a shell asks for what is set up, for a terminal of that name, width
/// and height, and last for the shell; the input is given to it as it is.
pub proof fn lemma_shell_asks_for_its_terminal(
    c: ClientView,
    term: Seq<char>,
    cols: u32,
    rows: u32,
    stdin: Seq<u8>,
)
    ensures
        ({
            let s = c.shell_script(term, cols, rows, stdin);
            let n = set_up_len(c, true);
            &&& s.kind is Session
            &&& begins_as_set_up(c, s.asks, true)
            &&& s.asks.len() == n + 2
            &&& s.asks[n].request matches ChannelRequestView::PtyReq {
                term: t,
                cols: w,
                rows: h,
                px_w,
                px_h,
                modes,
            } && t == term && w == cols && h == rows && px_w == 0 && px_h == 0 && modes.len() == 0
            &&& s.asks[n].reply is Some
            &&& s.asks[n + 1].request is Shell
            &&& s.asks[n + 1].reply is Some
            &&& s.feed matches Some(feed) && feed.bytes == stdin
            &&& s.collect matches Some(how) && !how.data_only && !how.echo_eof
        }),
{
    lemma_env_asks(c);
}

/// Running a subsystem asks for it by its name, and for nothing else; SFTP asks
/// for the agent and the display first, where they are set up.
pub proof fn lemma_subsystems_are_asked_for(c: ClientView, name: Seq<char>, stdin: Seq<u8>)
    ensures
        ({
            let s = ClientView::subsystem_script(name, stdin);
            &&& s.kind is Session
            &&& s.asks.len() == 1
            &&& s.asks[0].request == (ChannelRequestView::Subsystem { name })
            &&& s.asks[0].reply is Some
            &&& s.feed matches Some(feed) && feed.bytes == stdin
            &&& s.collect matches Some(how) && how.data_only
        }),
        ({
            let s = c.sftp_script();
            let n = set_up_len(c, false);
            &&& s.kind is Session
            &&& begins_as_set_up(c, s.asks, false)
            &&& s.asks.len() == n + 1
            &&& s.asks[n].request matches ChannelRequestView::Subsystem { name: sub } && sub
                == "sftp"@
            &&& s.asks[n].reply is Some
            &&& s.feed is None && s.collect is None
        }),
{
    lemma_env_asks(c);
}

proof fn lemma_env_asks(c: ClientView)
    ensures
        env_asks(c.session_env).len() == c.session_env.len(),
        forall|i: int|
            0 <= i < c.session_env.len() ==> (#[trigger] env_asks(c.session_env)[i]).request == (
            ChannelRequestView::Env { name: c.session_env[i].0, value: c.session_env[i].1 })
                && env_asks(c.session_env)[i].reply is None,
{
}

/// An operation opens the channel of its script, and starts with all its
/// requests, its input and nothing said.
pub proof fn lemma_operations_begin_with_an_open(c: ClientView, script: ScriptView)
    ensures
        ({
            let (after, session, payload) = c.begin(script);
            let (conn, id, opening) = c.conn.open(script.kind);
            &&& payload == opening
            &&& after == (ClientView { conn, ..c })
            &&& session.channel == id
            &&& session.stage is Opening
            &&& session.asks == script.asks
            &&& session.feed == script.feed && session.off == 0
            &&& session.collect == script.collect
            &&& session.out.stdout.len() == 0 && session.out.stderr.len() == 0
            &&& session.out.exit_status is None && session.out.exit_signal is None
            &&& !session.eof_sent
        }),
{
}

/// Once its channel is open, or a request has been granted, a session sends its
/// next requests in their order, each once, up to the first that waits for a
/// reply, and then waits for that.
pub proof fn lemma_requests_go_out_in_order(
    s: SessionView,
    conn: ConnectionView,
    send: Seq<Seq<u8>>,
    k: int,
)
    requires
        0 <= k < s.asks.len(),
        s.asks[k].reply is Some,
        forall|i: int| 0 <= i < k ==> (#[trigger] s.asks[i]).reply is None,
        s.ask(conn, send).next !is Failed,
    ensures
        ({
            let r = s.ask(conn, send);
            &&& r.conn == conn
            &&& r.send.len() == send.len() + k + 1
            &&& r.send.take(send.len() as int) == send
            &&& forall|i: int|
                0 <= i <= k ==> conn.send_request(
                    s.channel,
                    s.asks[i].request,
                    s.asks[i].reply is Some,
                ) == Ok::<Seq<u8>, Error>(#[trigger] r.send[send.len() + i])
            &&& r.session.asks == s.asks.skip(k + 1)
            &&& r.session.stage == Stage::Asking(s.asks[k].reply->0)
            &&& r.next is Wait
        }),
    decreases s.asks.len(),
{
    let rest = SessionView { asks: s.asks.skip(1), ..s };
    let payload = conn.send_request(s.channel, s.asks[0].request, s.asks[0].reply is Some);
    let sent = send.push(payload->Ok_0);
    let r = s.ask(conn, send);
    if k == 0 {
        assert(r.send.take(send.len() as int) =~= send);
    } else {
        assert(s.asks[0].reply is None);
        assert forall|i: int| 0 <= i < k - 1 implies (#[trigger] rest.asks[i]).reply is None by {
            assert(rest.asks[i] == s.asks[i + 1]);
        }
        lemma_requests_go_out_in_order(rest, conn, sent, k - 1);
        assert(r.send.take(send.len() as int) =~= sent.take(send.len() as int)) by {
            assert(r.send.take(sent.len() as int) == sent);
            assert forall|i: int| 0 <= i < send.len() implies r.send[i] == sent[i] by {
                assert(r.send.take(sent.len() as int)[i] == sent[i]);
            }
        }
        assert(sent.take(send.len() as int) =~= send);
        assert forall|i: int| 0 <= i <= k implies conn.send_request(
            s.channel,
            s.asks[i].request,
            s.asks[i].reply is Some,
        ) == Ok::<Seq<u8>, Error>(#[trigger] r.send[send.len() + i]) by {
            if i == 0 {
                assert(r.send.take(sent.len() as int)[send.len() as int] == sent.last());
            } else {
                assert(rest.asks[i - 1] == s.asks[i]);
                assert(r.send[sent.len() + (i - 1)] == r.send[send.len() + i]);
            }
        }
        assert(rest.asks.skip(k) =~= s.asks.skip(k + 1));
    }
}

/// A refusal ends the session, whether of the channel or of a request that was
/// waited for, and what was granted lets it go on.
pub proof fn lemma_refusals_end_the_session(
    s: SessionView,
    conn: ConnectionView,
    reason: u32,
    description: Seq<char>,
)
    ensures
        s.stage is Opening ==> s.on_event(
            conn,
            EventView::OpenFailed { channel: s.channel, reason, description },
        ).next == Next::Failed(Error::Protocol(s.failed)),
        s.stage is Opening ==> s.on_event(
            conn,
            EventView::OpenConfirmed { channel: s.channel },
        ) == s.ask(conn, Seq::empty()),
        s.stage matches Stage::Asking(words) ==> s.on_event(
            conn,
            EventView::Failure { channel: s.channel },
        ).next == Next::Failed(Error::Protocol(words.denied)),
        s.stage is Asking ==> s.on_event(conn, EventView::Success { channel: s.channel }) == s.ask(
            conn,
            Seq::empty(),
        ),
{
}

/// Output is paid for: each byte that is received while output is collected is
/// credited to the window of its own channel, and nothing else is sent for it.
pub proof fn lemma_output_is_credited(
    s: SessionView,
    conn: ConnectionView,
    data: Seq<u8>,
    code: u32,
)
    requires
        s.stage is Collecting,
        s.wf(),
        data.len() <= u32::MAX,
    ensures
        ({
            let a = s.on_event(conn, EventView::Data { channel: s.channel, data });
            let b = s.on_event(conn, EventView::ExtendedData { channel: s.channel, code, data });
            let paid = conn.replenish_window(s.channel, data.len() as u32);
            &&& a.next !is Failed ==> paid is Ok && a.conn == paid->Ok_0.0 && (
            match paid->Ok_0.1 {
                Some(payload) => a.send == seq![payload],
                None => a.send.len() == 0,
            })
            &&& b.next !is Failed ==> paid is Ok && b.conn == paid->Ok_0.0 && (
            match paid->Ok_0.1 {
                Some(payload) => b.send == seq![payload],
                None => b.send.len() == 0,
            })
        }),
{
}

/// What asks for a forward, and for its end: the address and the port, or the
/// path of the socket, behind the name of the request, and always for a reply.
pub proof fn lemma_forward_request_layout(what: Forwarding)
    ensures
        match what {
            Forwarding::Tcpip { bind_address, bind_port } => spells(
                global_payload(what@.request(), true),
                seq![
                    Field::Byte(80),
                    Field::Text("tcpip-forward"@),
                    Field::Flag(true),
                    Field::Text(bind_address@),
                    Field::Number(bind_port as u32),
                ],
            ),
            Forwarding::CancelTcpip { bind_address, bind_port } => spells(
                global_payload(what@.request(), true),
                seq![
                    Field::Byte(80),
                    Field::Text("cancel-tcpip-forward"@),
                    Field::Flag(true),
                    Field::Text(bind_address@),
                    Field::Number(bind_port as u32),
                ],
            ),
            Forwarding::Streamlocal { socket_path } => spells(
                global_payload(what@.request(), true),
                seq![
                    Field::Byte(80),
                    Field::Text("streamlocal-forward@openssh.com"@),
                    Field::Flag(true),
                    Field::Text(socket_path@),
                ],
            ),
            Forwarding::CancelStreamlocal { socket_path } => spells(
                global_payload(what@.request(), true),
                seq![
                    Field::Byte(80),
                    Field::Text("cancel-streamlocal-forward@openssh.com"@),
                    Field::Flag(true),
                    Field::Text(socket_path@),
                ],
            ),
        },
{
    reveal_with_fuel(all_bytes, 6);
    let payload = global_payload(what@.request(), true);
    let fields = match what {
        Forwarding::Tcpip { bind_address, bind_port } => seq![
            Field::Byte(80),
            Field::Text("tcpip-forward"@),
            Field::Flag(true),
            Field::Text(bind_address@),
            Field::Number(bind_port as u32),
        ],
        Forwarding::CancelTcpip { bind_address, bind_port } => seq![
            Field::Byte(80),
            Field::Text("cancel-tcpip-forward"@),
            Field::Flag(true),
            Field::Text(bind_address@),
            Field::Number(bind_port as u32),
        ],
        Forwarding::Streamlocal { socket_path } => seq![
            Field::Byte(80),
            Field::Text("streamlocal-forward@openssh.com"@),
            Field::Flag(true),
            Field::Text(socket_path@),
        ],
        Forwarding::CancelStreamlocal { socket_path } => seq![
            Field::Byte(80),
            Field::Text("cancel-streamlocal-forward@openssh.com"@),
            Field::Flag(true),
            Field::Text(socket_path@),
        ],
    };
    assert(payload =~= all_bytes(fields, 0));
    lemma_spells(payload, fields);
}

/// Once the server has agreed, a forward is in force at the port that was asked
/// for, or at the one that the server has picked where none was; nothing else
/// changes.
pub proof fn lemma_agreed_forwards_are_in_force(
    grants: GrantsView,
    address: Seq<char>,
    port: u16,
    path: Seq<char>,
    picked: u16,
    tail: Seq<u8>,
)
    ensures
        port != 0 ==> (ForwardingView::Tcpip { bind_address: address, bind_port: port }).agreed(
            grants,
            tail,
        ) == (
            GrantsView { tcpip: grants.tcpip + seq![(address, port)], ..grants },
            ForwardStep::Listening(port),
        ),
        (ForwardingView::Tcpip { bind_address: address, bind_port: 0 }).agreed(
            grants,
            be32(picked as u32) + tail,
        ) == (
            GrantsView { tcpip: grants.tcpip + seq![(address, picked)], ..grants },
            ForwardStep::Listening(picked),
        ),
        (ForwardingView::Streamlocal { socket_path: path }).agreed(grants, tail) == (
            GrantsView { streamlocal: grants.streamlocal + seq![path], ..grants },
            ForwardStep::Done,
        ),
{
    lemma_get_put_u32(picked as u32, tail);
    assert(grants.tcpip + seq![(address, port)] =~= grants.tcpip.push((address, port)));
    assert(grants.tcpip + seq![(address, picked)] =~= grants.tcpip.push((address, picked)));
    assert(grants.streamlocal + seq![path] =~= grants.streamlocal.push(path));
}

/// A channel to a Unix socket names its path, and two fields that are reserved.
pub proof fn lemma_socket_open_layout(path: Seq<char>)
    ensures
        direct_open(path).kind() == "direct-streamlocal@openssh.com"@,
        spells(
            direct_open(path).body(),
            seq![Field::Text(path), Field::Bytes(Seq::empty()), Field::Number(0)],
        ),
{
    reveal_with_fuel(all_bytes, 4);
    let fields = seq![Field::Text(path), Field::Bytes(Seq::empty()), Field::Number(0)];
    assert(direct_open(path).body() =~= all_bytes(fields, 0));
    lemma_spells(direct_open(path).body(), fields);
}

/// A command to a serve loop opens the channel that it names: to that host and
/// port, from that origin, or to that socket.
pub proof fn lemma_commands_open_what_they_name(command: ServeCommand)
    ensures
        match command {
            ServeCommand::OpenDirectTcpip { dest_host, dest_port, orig_host, orig_port } => {
                &&& command.kind().kind() == "direct-tcpip"@
                &&& spells(
                    command.kind().body(),
                    seq![
                        Field::Text(dest_host@),
                        Field::Number(dest_port as u32),
                        Field::Text(orig_host@),
                        Field::Number(orig_port as u32),
                    ],
                )
            },
            ServeCommand::OpenDirectStreamlocal { socket_path } => {
                &&& command.kind().kind() == "direct-streamlocal@openssh.com"@
                &&& spells(
                    command.kind().body(),
                    seq![
                        Field::Text(socket_path@),
                        Field::Bytes(Seq::empty()),
                        Field::Number(0),
                    ],
                )
            },
        },
{
    reveal_with_fuel(all_bytes, 5);
    match command {
        ServeCommand::OpenDirectTcpip { dest_host, dest_port, orig_host, orig_port } => {
            let fields = seq![
                Field::Text(dest_host@),
                Field::Number(dest_port as u32),
                Field::Text(orig_host@),
                Field::Number(orig_port as u32),
            ];
            assert(command.kind().body() =~= all_bytes(fields, 0));
            lemma_spells(command.kind().body(), fields);
        },
        ServeCommand::OpenDirectStreamlocal { socket_path } => {
            lemma_socket_open_layout(socket_path@);
        },
    }
}

/// The socket that a forwarded connection came in on is the one that its open
/// names first.
pub proof fn lemma_forwarded_socket_is_named_first(path: Seq<char>, reserved: Seq<u8>)
    requires
        text_fits(path),
        reserved.len() <= u32::MAX,
    ensures
        forwarded_path(wire_text(path) + wire_string(reserved)) == Ok::<Seq<char>, Error>(path),
{
    lemma_get_put_text(path, wire_string(reserved), "invalid utf-8");
    lemma_get_put_string(reserved, Seq::empty());
    assert(wire_string(reserved) + Seq::<u8>::empty() =~= wire_string(reserved));
}

/// A channel that the server opens is taken in just if a handler for its sort is
/// there and, for a forwarded connection, a forward of its sort is in force. The
/// handler is told where the connection came in and where from.
pub proof fn lemma_wanted_channels_are_taken_in(
    serve: ServeView,
    granted: Granted,
    handlers: ClientHandlers,
    conn: ConnectionView,
    channel: u32,
    dest_host: Seq<char>,
    dest_port: u16,
    orig_host: Seq<char>,
    orig_port: u16,
)
    requires
        conn.accept_open(channel) is Ok,
    ensures
        ({
            let r = serve.on_open(
                granted,
                handlers,
                conn,
                channel,
                ChannelOpenView::ForwardedTcpip {
                    dest_host,
                    dest_port: dest_port as u32,
                    orig_host,
                    orig_port: orig_port as u32,
                },
            );
            if granted.tcpip && handlers.on_forwarded_tcpip {
                &&& r.act == (ActView::Spawn {
                    channel,
                    inbound: InboundView::ForwardedTcpip {
                        bound_address: dest_host,
                        bound_port: dest_port,
                        orig_address: orig_host,
                        orig_port,
                    },
                })
                &&& r.send == Some(conn.accept_open(channel)->Ok_0.1)
                &&& r.conn == conn.accept_open(channel)->Ok_0.0
                &&& r.serve.runtimes == serve.runtimes.insert(channel, RuntimeView::fresh())
            } else {
                r.act is Nothing && r.send is Some && !r.conn.channels.contains_key(channel)
            }
        }),
        ({
            let r = serve.on_open(granted, handlers, conn, channel, ChannelOpenView::AuthAgent);
            if handlers.on_auth_agent {
                r.act == (ActView::Spawn { channel, inbound: InboundView::AuthAgent })
            } else {
                r.act is Nothing && !r.conn.channels.contains_key(channel)
            }
        }),
        ({
            let r = serve.on_open(
                granted,
                handlers,
                conn,
                channel,
                ChannelOpenView::X11 { orig_host, orig_port: orig_port as u32 },
            );
            if handlers.on_x11 {
                r.act == (ActView::Spawn { channel, inbound: InboundView::X11 })
            } else {
                r.act is Nothing && !r.conn.channels.contains_key(channel)
            }
        }),
        ({
            let r = serve.on_open(granted, handlers, conn, channel, ChannelOpenView::Session);
            r.act is Nothing && !r.conn.channels.contains_key(channel)
        }),
{
}

/// What a served channel receives goes to its own handler, all of it, and is
/// credited to its own window; its EOF and its close reach that handler too.
pub proof fn lemma_served_data_reaches_its_handler(
    serve: ServeView,
    granted: Granted,
    handlers: ClientHandlers,
    conn: ConnectionView,
    channel: u32,
    data: Seq<u8>,
)
    requires
        serve.runtimes.contains_key(channel),
        data.len() <= u32::MAX,
    ensures
        ({
            let r = serve.on_event(granted, handlers, conn, EventView::Data { channel, data });
            let paid = conn.replenish_window(channel, data.len() as u32);
            &&& r.act == (ActView::Deliver { channel, data })
            &&& paid matches Ok((after, adjust)) ==> r.conn == after && r.send == adjust
            &&& r.serve == serve
        }),
        serve.on_event(granted, handlers, conn, EventView::Eof { channel }).act == (
        ActView::EndOfInput { channel }),
        serve.on_event(granted, handlers, conn, EventView::Close { channel }).act == (
        ActView::Drop { channel }),
        serve.on_event(granted, handlers, conn, EventView::Close { channel }).serve.runtimes
            == serve.runtimes.remove(channel),
{
}

} // verus!
