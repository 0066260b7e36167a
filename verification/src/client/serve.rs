//! The multi-channel serve loop of a client.
//!
//! While a client serves, the server opens channels towards it (for `ssh -R`,
//! `-A` and `-X`) and other threads ask it to open channels (for `ssh -L`).
//! Each open channel has a handler behind it, which the frontend runs;
//! [`ServeState`] decides what each inbound packet, each piece of handler
//! output and each tick of the clock leads to.

use super::streamlocal::{
    direct_open, direct_streamlocal, forwarded_path, forwarded_streamlocal, FORWARDED_STREAMLOCAL,
};
use crate::channel::global::GlobalRequestView;
use crate::channel::model::{global_payload, ConnectionView, EventView};
use crate::channel::open::ChannelOpenView;
use crate::channel::{
    ChannelEvent, ChannelOpen, ConnectionState, GlobalRequest, MSG_CHANNEL_OPEN,
    MSG_REQUEST_FAILURE, SSH_OPEN_ADMINISTRATIVELY_PROHIBITED,
};
use crate::driver::elapsed;
use crate::error::Error;
use crate::text::{opt_view, str_eq, views};
use std::collections::{BTreeMap, BTreeSet};
use vstd::prelude::*;
use vstd::std_specs::cmp::OrdSpec;
use vstd::std_specs::iter::IteratorSpec;

verus! {

broadcast use vstd::std_specs::btree::group_btree_axioms;

/// How many ticks a serve loop may take; each is one packet or one timeout.
pub const MAX_SERVE_STEPS: usize = 100_000_000;

/// How many pieces of output a handler may have queued before it blocks.
pub const SERVE_EGRESS_BACKLOG: usize = 32;

/// Where a server-initiated `forwarded-tcpip` channel comes from (RFC 4254
/// section 7.2).
#[derive(Debug)]
pub struct ForwardedTcpipOrigin {
    /// Address the server is listening on.
    pub bound_address: String,
    /// Port the server is listening on.
    pub bound_port: u16,
    /// Address of the peer that connected to it.
    pub orig_address: String,
    /// Port of the peer that connected to it.
    pub orig_port: u16,
}

/// Where a server-initiated `forwarded-streamlocal@openssh.com` channel comes
/// from.
#[derive(Debug)]
pub struct ForwardedStreamlocalOrigin {
    /// Path the server is listening on.
    pub socket_path: String,
}

/// Which channels the server may open towards a client: opens of the other
/// types are refused.
#[derive(Debug, Clone, Copy)]
pub struct ClientHandlers {
    /// `"forwarded-tcpip"` (`ssh -R`).
    pub on_forwarded_tcpip: bool,
    /// `"forwarded-streamlocal@openssh.com"` (`ssh -R /remote.sock:...`).
    pub on_forwarded_streamlocal: bool,
    /// `"auth-agent@openssh.com"` (`ssh -A`).
    pub on_auth_agent: bool,
    /// `"x11"` (`ssh -X`).
    pub on_x11: bool,
    /// Whether commands of a [`ServeContext`] are taken.
    pub takes_commands: bool,
}

impl Default for ClientHandlers {
    fn default() -> (r: Self)
        ensures
            r == ClientHandlers::none(),
    {
        Self::new()
    }
}

impl ClientHandlers {
    /// Refuse everything.
    pub open spec fn none() -> ClientHandlers {
        ClientHandlers {
            on_forwarded_tcpip: false,
            on_forwarded_streamlocal: false,
            on_auth_agent: false,
            on_x11: false,
            takes_commands: false,
        }
    }

    /// No handlers: every open is refused.
    pub fn new() -> (r: Self)
        ensures
            r == ClientHandlers::none(),
    {
        ClientHandlers {
            on_forwarded_tcpip: false,
            on_forwarded_streamlocal: false,
            on_auth_agent: false,
            on_x11: false,
            takes_commands: false,
        }
    }

    /// Handle `forwarded-tcpip` opens.
    pub fn with_forwarded_tcpip(self) -> (r: Self)
        ensures
            r == (ClientHandlers { on_forwarded_tcpip: true, ..self }),
    {
        let mut r = self;
        r.on_forwarded_tcpip = true;
        r
    }

    /// Handle `forwarded-streamlocal@openssh.com` opens.
    pub fn with_forwarded_streamlocal(self) -> (r: Self)
        ensures
            r == (ClientHandlers { on_forwarded_streamlocal: true, ..self }),
    {
        let mut r = self;
        r.on_forwarded_streamlocal = true;
        r
    }

    /// Handle `auth-agent@openssh.com` opens.
    pub fn with_auth_agent(self) -> (r: Self)
        ensures
            r == (ClientHandlers { on_auth_agent: true, ..self }),
    {
        let mut r = self;
        r.on_auth_agent = true;
        r
    }

    /// Handle `x11` opens.
    pub fn with_x11(self) -> (r: Self)
        ensures
            r == (ClientHandlers { on_x11: true, ..self }),
    {
        let mut r = self;
        r.on_x11 = true;
        r
    }

    /// Take commands from outside the loop, and hand out the context that
    /// makes them.
    pub fn with_serve_context(self) -> (r: (Self, ServeContext))
        ensures
            r.0 == (ClientHandlers { takes_commands: true, ..self }),
    {
        let mut r = self;
        r.takes_commands = true;
        (r, ServeContext {  })
    }
}

/// What a thread outside the serve loop asks of it.
#[derive(Debug)]
pub enum ServeCommand {
    /// Open a `direct-tcpip` channel.
    OpenDirectTcpip {
        /// Where the server should connect to.
        dest_host: String,
        /// The port there.
        dest_port: u16,
        /// Source address, for the server's log.
        orig_host: String,
        /// Source port, for the server's log.
        orig_port: u16,
    },
    /// Open a `direct-streamlocal@openssh.com` channel.
    OpenDirectStreamlocal {
        /// Socket that the server should connect to.
        socket_path: String,
    },
}

impl ServeCommand {
    /// The channel that the command opens.
    pub open spec fn kind(self) -> ChannelOpenView {
        match self {
            ServeCommand::OpenDirectTcpip { dest_host, dest_port, orig_host, orig_port } => {
                ChannelOpenView::DirectTcpip {
                    dest_host: dest_host@,
                    dest_port: dest_port as u32,
                    orig_host: orig_host@,
                    orig_port: orig_port as u32,
                }
            },
            ServeCommand::OpenDirectStreamlocal { socket_path } => direct_open(socket_path@),
        }
    }
}

/// Makes commands for a running serve loop. Threads that accept local
/// connections hold one each.
#[derive(Debug, Clone, Copy)]
pub struct ServeContext {}

impl ServeContext {
    /// The command for a `direct-tcpip` channel.
    pub fn open_direct_tcpip(
        &self,
        dest_host: &str,
        dest_port: u16,
        orig_host: &str,
        orig_port: u16,
    ) -> (r: ServeCommand)
        ensures
            r matches ServeCommand::OpenDirectTcpip {
                dest_host: d,
                dest_port: dp,
                orig_host: o,
                orig_port: op,
            } && d@ == dest_host@ && dp == dest_port && o@ == orig_host@ && op == orig_port,
    {
        ServeCommand::OpenDirectTcpip {
            dest_host: dest_host.to_owned(),
            dest_port,
            orig_host: orig_host.to_owned(),
            orig_port,
        }
    }

    /// The command for a `direct-streamlocal@openssh.com` channel.
    pub fn open_direct_streamlocal(&self, socket_path: &str) -> (r: ServeCommand)
        ensures
            r matches ServeCommand::OpenDirectStreamlocal { socket_path: p } && p@ == socket_path@,
    {
        ServeCommand::OpenDirectStreamlocal { socket_path: socket_path.to_owned() }
    }
}

/// A port as the wire has it, brought into range.
pub open spec fn clamped(v: u32) -> u16 {
    if v > u16::MAX {
        u16::MAX
    } else {
        v as u16
    }
}

/// A port as the wire has it, brought into range.
pub fn clamp_u16(v: u32) -> (r: u16)
    ensures
        r == clamped(v),
{
    if v > 65_535 {
        65_535
    } else {
        v as u16
    }
}

/// What a handler thread wants done with its channel.
#[derive(Debug)]
pub enum Egress {
    /// Send these bytes.
    Data(Vec<u8>),
    /// No more bytes follow.
    Eof,
    /// Close the channel.
    Close,
    /// Nothing at the moment.
    Empty,
    /// The handler has gone without a word.
    Disconnected,
}

/// What a handler thread wants done with its channel.
#[verifier::ext_equal]
pub ghost enum EgressView {
    Data(Seq<u8>),
    Eof,
    Close,
    Empty,
    Disconnected,
}

impl View for Egress {
    type V = EgressView;

    open spec fn view(&self) -> EgressView {
        match self {
            Egress::Data(bytes) => EgressView::Data(bytes@),
            Egress::Eof => EgressView::Eof,
            Egress::Close => EgressView::Close,
            Egress::Empty => EgressView::Empty,
            Egress::Disconnected => EgressView::Disconnected,
        }
    }
}

/// The outbound half of one served channel.
#[verifier::ext_equal]
pub ghost struct RuntimeView {
    /// Output that the peer's window had no room for.
    pub pending_data: Seq<u8>,
    /// EOF is wanted and may not have been sent yet.
    pub pending_eof: bool,
    /// CLOSE is wanted and may not have been sent yet.
    pub pending_close: bool,
    pub eof_sent: bool,
    pub close_sent: bool,
}

/// What handler output leads to. `more` says whether the handler is to be
/// asked for more.
#[verifier::ext_equal]
pub ghost struct Drained {
    pub conn: ConnectionView,
    pub runtime: RuntimeView,
    pub send: Seq<Seq<u8>>,
    pub more: bool,
    pub result: Result<(), Error>,
}

impl RuntimeView {
    /// A channel that has just become ready.
    pub open spec fn fresh() -> RuntimeView {
        RuntimeView {
            pending_data: Seq::empty(),
            pending_eof: false,
            pending_close: false,
            eof_sent: false,
            close_sent: false,
        }
    }

    /// Send bytes as far as the peer's window goes, and keep the rest.
    pub open spec fn emit(
        self,
        conn: ConnectionView,
        channel: u32,
        bytes: Seq<u8>,
        send: Seq<Seq<u8>>,
    ) -> Drained
        decreases bytes.len(),
    {
        if bytes.len() == 0 {
            Drained {
                conn,
                runtime: self,
                send,
                more: self.pending_data.len() == 0,
                result: Ok(()),
            }
        } else {
            match conn.send_data(channel, bytes) {
                Err(e) => Drained { conn, runtime: self, send, more: false, result: Err(e) },
                Ok((after, payload, n)) => if n <= 0 {
                    Drained {
                        conn: after,
                        runtime: RuntimeView { pending_data: self.pending_data + bytes, ..self },
                        send,
                        more: false,
                        result: Ok(()),
                    }
                } else {
                    self.emit(after, channel, bytes.skip(n), send.push(payload))
                },
            }
        }
    }

    /// Try to send what was left over. A channel that has been closed is left
    /// alone.
    pub open spec fn retry(self, conn: ConnectionView, channel: u32) -> Drained {
        if self.close_sent {
            Drained { conn, runtime: self, send: Seq::empty(), more: false, result: Ok(()) }
        } else {
            RuntimeView { pending_data: Seq::empty(), ..self }.emit(
                conn,
                channel,
                self.pending_data,
                Seq::empty(),
            )
        }
    }

    /// What the handler wants. A handler that has gone without a word is
    /// taken to want its channel closed.
    pub open spec fn on_egress(
        self,
        conn: ConnectionView,
        channel: u32,
        message: EgressView,
    ) -> Drained {
        let idle = Drained {
            conn,
            runtime: self,
            send: Seq::empty(),
            more: false,
            result: Ok(()),
        };
        match message {
            EgressView::Data(bytes) => self.emit(conn, channel, bytes, Seq::empty()),
            EgressView::Eof => Drained {
                runtime: RuntimeView { pending_eof: true, ..self },
                ..idle
            },
            EgressView::Close => Drained {
                runtime: RuntimeView { pending_close: true, ..self },
                ..idle
            },
            EgressView::Empty => idle,
            EgressView::Disconnected => Drained {
                runtime: RuntimeView { pending_close: true, ..self },
                ..idle
            },
        }
    }

    /// Send EOF, if it has not been sent.
    pub open spec fn send_eof(self, conn: ConnectionView, channel: u32) -> Drained {
        if self.eof_sent {
            Drained { conn, runtime: self, send: Seq::empty(), more: false, result: Ok(()) }
        } else {
            match conn.send_eof(channel) {
                Err(e) => Drained {
                    conn,
                    runtime: self,
                    send: Seq::empty(),
                    more: false,
                    result: Err(e),
                },
                Ok((after, payload)) => Drained {
                    conn: after,
                    runtime: RuntimeView { eof_sent: true, ..self },
                    send: seq![payload],
                    more: false,
                    result: Ok(()),
                },
            }
        }
    }

    /// Send EOF and CLOSE as far as they are wanted, once all data is sent.
    /// EOF always precedes CLOSE.
    pub open spec fn settle(self, conn: ConnectionView, channel: u32) -> Drained {
        if self.pending_data.len() > 0 || self.close_sent || !(self.pending_eof
            || self.pending_close) {
            Drained { conn, runtime: self, send: Seq::empty(), more: false, result: Ok(()) }
        } else {
            let ended = self.send_eof(conn, channel);
            if ended.result is Err || !self.pending_close {
                ended
            } else {
                match ended.conn.send_close(channel) {
                    Err(e) => Drained { result: Err(e), ..ended },
                    Ok((after, payload)) => Drained {
                        conn: after,
                        runtime: RuntimeView { close_sent: true, ..ended.runtime },
                        send: ended.send.push(payload),
                        ..ended
                    },
                }
            }
        }
    }
}

/// What handler output leads to.
#[derive(Debug)]
pub struct DrainStep {
    /// Payloads to transmit, in order, even if `result` is an error.
    pub send: Vec<Vec<u8>>,
    /// Whether the handler is to be asked for more.
    pub more: bool,
    /// Whether the connection still works.
    pub result: Result<(), Error>,
}

/// The outcome of draining, as the model has it.
pub open spec fn drained(
    conn: ConnectionView,
    runtime: RuntimeView,
    step: DrainStep,
    model: Drained,
) -> bool {
    model == (Drained {
        conn,
        runtime,
        send: views(step.send@),
        more: step.more,
        result: step.result,
    })
}

/// The outbound half of one served channel.
#[derive(Debug)]
struct ServeRuntime {
    pending_data: Vec<u8>,
    pending_eof: bool,
    pending_close: bool,
    eof_sent: bool,
    close_sent: bool,
}

impl View for ServeRuntime {
    type V = RuntimeView;

    closed spec fn view(&self) -> RuntimeView {
        RuntimeView {
            pending_data: self.pending_data@,
            pending_eof: self.pending_eof,
            pending_close: self.pending_close,
            eof_sent: self.eof_sent,
            close_sent: self.close_sent,
        }
    }
}

/// A step that sends nothing.
fn silent(more: bool, result: Result<(), Error>) -> (r: DrainStep)
    ensures
        views(r.send@) == Seq::<Seq<u8>>::empty(),
        r.more == more,
        r.result == result,
{
    let send: Vec<Vec<u8>> = Vec::new();
    assert(views(send@) =~= Seq::<Seq<u8>>::empty());
    DrainStep { send, more, result }
}

impl ServeRuntime {
    /// A channel that has just become ready.
    fn new() -> (r: ServeRuntime)
        ensures
            r@ == RuntimeView::fresh(),
    {
        let r = ServeRuntime {
            pending_data: Vec::new(),
            pending_eof: false,
            pending_close: false,
            eof_sent: false,
            close_sent: false,
        };
        assert(r@ =~= RuntimeView::fresh());
        r
    }

    /// Send bytes as far as the peer's window goes, and keep the rest.
    fn emit(&mut self, conn: &mut ConnectionState, channel: u32, bytes: &[u8]) -> (r: DrainStep)
        ensures
            drained(
                final(conn)@,
                final(self)@,
                r,
                old(self)@.emit(old(conn)@, channel, bytes@, Seq::empty()),
            ),
    {
        let mut send: Vec<Vec<u8>> = Vec::new();
        let mut off: usize = 0;
        let len: usize = bytes.len();
        let ghost model = self@.emit(conn@, channel, bytes@, Seq::empty());
        assert(bytes@.skip(0) =~= bytes@);
        assert(views(send@) =~= Seq::<Seq<u8>>::empty());
        while off < len
            invariant
                off <= len,
                len == bytes@.len(),
                self@ == old(self)@,
                self@.emit(conn@, channel, bytes@.skip(off as int), views(send@)) == model,
                model == old(self)@.emit(old(conn)@, channel, bytes@, Seq::empty()),
            decreases len - off,
        {
            let rest = vstd::slice::slice_subrange(bytes, off, len);
            assert(rest@ =~= bytes@.skip(off as int));
            match conn.send_data(channel, rest) {
                Err(e) => return DrainStep { send, more: false, result: Err(e) },
                Ok((payload, taken)) => {
                    if taken == 0 {
                        self.pending_data.extend_from_slice(rest);
                        assert(self@.pending_data =~= old(self)@.pending_data + rest@);
                        return DrainStep { send, more: false, result: Ok(()) };
                    }
                    assert(views(send@.push(payload)) =~= views(send@).push(payload@));
                    assert(rest@.skip(taken as int) =~= bytes@.skip(off + taken));
                    send.push(payload);
                    off = off + taken;
                },
            }
        }
        let more = self.pending_data.is_empty();
        DrainStep { send, more, result: Ok(()) }
    }

    /// Try to send what was left over.
    fn retry(&mut self, conn: &mut ConnectionState, channel: u32) -> (r: DrainStep)
        ensures
            drained(final(conn)@, final(self)@, r, old(self)@.retry(old(conn)@, channel)),
    {
        if self.close_sent {
            return silent(false, Ok(()));
        }
        let mut leftover: Vec<u8> = Vec::new();
        std::mem::swap(&mut leftover, &mut self.pending_data);
        assert(self@.pending_data =~= Seq::empty());
        self.emit(conn, channel, leftover.as_slice())
    }

    /// What the handler wants.
    fn on_egress(&mut self, conn: &mut ConnectionState, channel: u32, message: Egress) -> (r:
        DrainStep)
        ensures
            drained(
                final(conn)@,
                final(self)@,
                r,
                old(self)@.on_egress(old(conn)@, channel, message@),
            ),
    {
        match message {
            Egress::Data(bytes) => return self.emit(conn, channel, bytes.as_slice()),
            Egress::Eof => self.pending_eof = true,
            Egress::Close => self.pending_close = true,
            Egress::Empty => {},
            Egress::Disconnected => self.pending_close = true,
        }
        silent(false, Ok(()))
    }

    /// Send EOF and CLOSE as far as they are wanted, once all data is sent.
    fn settle(&mut self, conn: &mut ConnectionState, channel: u32) -> (r: DrainStep)
        ensures
            drained(final(conn)@, final(self)@, r, old(self)@.settle(old(conn)@, channel)),
    {
        if self.pending_data.len() > 0 || self.close_sent || !(self.pending_eof
            || self.pending_close) {
            return silent(false, Ok(()));
        }
        let mut send: Vec<Vec<u8>> = Vec::new();
        if !self.eof_sent {
            match conn.send_eof(channel) {
                Err(e) => return silent(false, Err(e)),
                Ok(payload) => {
                    send.push(payload);
                    self.eof_sent = true;
                },
            }
        }
        let ghost ended = old(self)@.send_eof(old(conn)@, channel);
        assert(views(send@) =~= ended.send);
        if self.pending_close {
            match conn.send_close(channel) {
                Err(e) => return DrainStep { send, more: false, result: Err(e) },
                Ok(payload) => {
                    assert(views(send@.push(payload)) =~= ended.send.push(payload@));
                    send.push(payload);
                    self.close_sent = true;
                },
            }
        }
        DrainStep { send, more: false, result: Ok(()) }
    }
}

/// What is behind a channel that the server opened.
#[derive(Debug)]
pub enum Inbound {
    /// A connection to a port that the server listens on for us.
    ForwardedTcpip(ForwardedTcpipOrigin),
    /// A connection to a socket that the server listens on for us.
    ForwardedStreamlocal(ForwardedStreamlocalOrigin),
    /// A connection to the forwarded agent.
    AuthAgent,
    /// A connection to the forwarded display.
    X11,
}

/// What is behind a channel that the server opened.
#[verifier::ext_equal]
pub ghost enum InboundView {
    ForwardedTcpip {
        bound_address: Seq<char>,
        bound_port: u16,
        orig_address: Seq<char>,
        orig_port: u16,
    },
    ForwardedStreamlocal { socket_path: Seq<char> },
    AuthAgent,
    X11,
}

impl View for Inbound {
    type V = InboundView;

    open spec fn view(&self) -> InboundView {
        match self {
            Inbound::ForwardedTcpip(o) => InboundView::ForwardedTcpip {
                bound_address: o.bound_address@,
                bound_port: o.bound_port,
                orig_address: o.orig_address@,
                orig_port: o.orig_port,
            },
            Inbound::ForwardedStreamlocal(o) => InboundView::ForwardedStreamlocal {
                socket_path: o.socket_path@,
            },
            Inbound::AuthAgent => InboundView::AuthAgent,
            Inbound::X11 => InboundView::X11,
        }
    }
}

/// What the frontend does for an inbound packet.
#[derive(Debug)]
pub enum ServeAct {
    /// Nothing.
    Nothing,
    /// A channel that a command asked for is open: hand its stream to whoever
    /// asked, and say with [`ServeState::confirmed`] whether they took it.
    Confirm {
        /// Local id.
        channel: u32,
    },
    /// A channel that a command asked for was refused: tell whoever asked.
    Refused {
        /// Local id.
        channel: u32,
        /// What to tell them.
        error: Error,
    },
    /// Run the handler for a channel that the server opened.
    Spawn {
        /// Local id.
        channel: u32,
        /// What is behind it.
        inbound: Inbound,
    },
    /// Hand bytes to the handler.
    Deliver {
        /// Local id.
        channel: u32,
        /// The bytes.
        data: Vec<u8>,
    },
    /// Tell the handler that no more bytes follow.
    EndOfInput {
        /// Local id.
        channel: u32,
    },
    /// The channel is closed: let go of its handler.
    Drop {
        /// Local id.
        channel: u32,
    },
}

/// What the frontend does for an inbound packet.
#[verifier::ext_equal]
pub ghost enum ActView {
    Nothing,
    Confirm { channel: u32 },
    Refused { channel: u32, error: Error },
    Spawn { channel: u32, inbound: InboundView },
    Deliver { channel: u32, data: Seq<u8> },
    EndOfInput { channel: u32 },
    Drop { channel: u32 },
}

impl View for ServeAct {
    type V = ActView;

    open spec fn view(&self) -> ActView {
        match self {
            ServeAct::Nothing => ActView::Nothing,
            ServeAct::Confirm { channel } => ActView::Confirm { channel: *channel },
            ServeAct::Refused { channel, error } => ActView::Refused {
                channel: *channel,
                error: *error,
            },
            ServeAct::Spawn { channel, inbound } => ActView::Spawn {
                channel: *channel,
                inbound: inbound@,
            },
            ServeAct::Deliver { channel, data } => ActView::Deliver {
                channel: *channel,
                data: data@,
            },
            ServeAct::EndOfInput { channel } => ActView::EndOfInput { channel: *channel },
            ServeAct::Drop { channel } => ActView::Drop { channel: *channel },
        }
    }
}

/// Which sorts of forwards the server has granted and not been asked to
/// cancel.
#[derive(Debug, Clone, Copy)]
pub struct Granted {
    /// Some `tcpip-forward`.
    pub tcpip: bool,
    /// Some `streamlocal-forward@openssh.com`.
    pub streamlocal: bool,
}

/// What an inbound packet leads to.
#[derive(Debug)]
pub struct ServeStep {
    /// A payload to transmit, even if `result` is an error.
    pub send: Option<Vec<u8>>,
    /// What to do, even if `result` is an error.
    pub act: ServeAct,
    /// Whether the loop goes on.
    pub result: Result<(), Error>,
}

/// A serve loop: the channels that have a handler, the channels that were
/// asked for and not answered yet, and how long it has been running.
#[verifier::ext_equal]
pub ghost struct ServeView {
    pub runtimes: Map<u32, RuntimeView>,
    pub pending_opens: Set<u32>,
    pub steps: nat,
    /// Probes that have gone unanswered.
    pub probes_pending: nat,
    /// When the peer was last heard of, or probed.
    pub last_activity: u128,
}

/// What an inbound packet leads to.
#[verifier::ext_equal]
pub ghost struct Served {
    pub conn: ConnectionView,
    pub serve: ServeView,
    pub send: Option<Seq<u8>>,
    pub act: ActView,
    pub result: Result<(), Error>,
}

impl ServeView {
    /// A loop that starts now.
    pub open spec fn fresh(now: u128) -> ServeView {
        ServeView {
            runtimes: Map::empty(),
            pending_opens: Set::empty(),
            steps: 0,
            probes_pending: 0,
            last_activity: now,
        }
    }

    /// Nothing to do.
    pub open spec fn idle(self, conn: ConnectionView) -> Served {
        Served { conn, serve: self, send: None, act: ActView::Nothing, result: Ok(()) }
    }

    /// The loop ends with an error.
    pub open spec fn broken(self, conn: ConnectionView, e: Error) -> Served {
        Served { conn, serve: self, send: None, act: ActView::Nothing, result: Err(e) }
    }

    /// Refuse an open.
    pub open spec fn refuse(self, conn: ConnectionView, channel: u32, why: &'static str) -> Served {
        match conn.reject_open(channel, SSH_OPEN_ADMINISTRATIVELY_PROHIBITED, why@, ""@) {
            Err(e) => self.broken(conn, e),
            Ok((after, payload)) => Served { send: Some(payload), ..self.idle(after) },
        }
    }

    /// Accept an open and run its handler.
    pub open spec fn take_in(
        self,
        conn: ConnectionView,
        channel: u32,
        inbound: InboundView,
    ) -> Served {
        match conn.accept_open(channel) {
            Err(e) => self.broken(conn, e),
            Ok((after, payload)) => Served {
                conn: after,
                serve: ServeView {
                    runtimes: self.runtimes.insert(channel, RuntimeView::fresh()),
                    ..self
                },
                send: Some(payload),
                act: ActView::Spawn { channel, inbound },
                result: Ok(()),
            },
        }
    }

    /// Accept an open whose type is handled, refuse it otherwise.
    pub open spec fn take_in_if(
        self,
        conn: ConnectionView,
        channel: u32,
        handled: bool,
        inbound: InboundView,
        why: &'static str,
    ) -> Served {
        if handled {
            self.take_in(conn, channel, inbound)
        } else {
            self.refuse(conn, channel, why)
        }
    }

    /// The server opens a channel. A forwarded connection is accepted only if
    /// the client has asked for some forward of that sort.
    pub open spec fn on_open(
        self,
        granted: Granted,
        handlers: ClientHandlers,
        conn: ConnectionView,
        channel: u32,
        kind: ChannelOpenView,
    ) -> Served {
        match kind {
            ChannelOpenView::ForwardedTcpip { dest_host, dest_port, orig_host, orig_port } => {
                if !granted.tcpip {
                    self.refuse(conn, channel, "no tcpip-forward requested")
                } else {
                    self.take_in_if(
                        conn,
                        channel,
                        handlers.on_forwarded_tcpip,
                        InboundView::ForwardedTcpip {
                            bound_address: dest_host,
                            bound_port: clamped(dest_port),
                            orig_address: orig_host,
                            orig_port: clamped(orig_port),
                        },
                        "forwarded-tcpip not enabled",
                    )
                }
            },
            ChannelOpenView::AuthAgent => self.take_in_if(
                conn,
                channel,
                handlers.on_auth_agent,
                InboundView::AuthAgent,
                "auth-agent not enabled",
            ),
            ChannelOpenView::X11 { .. } => self.take_in_if(
                conn,
                channel,
                handlers.on_x11,
                InboundView::X11,
                "x11 not enabled",
            ),
            ChannelOpenView::Other { kind, raw } => if kind == FORWARDED_STREAMLOCAL@ {
                match forwarded_path(raw) {
                    Err(e) => self.broken(conn, e),
                    Ok(socket_path) => if !granted.streamlocal {
                        self.refuse(conn, channel, "no streamlocal-forward requested")
                    } else {
                        self.take_in_if(
                            conn,
                            channel,
                            handlers.on_forwarded_streamlocal,
                            InboundView::ForwardedStreamlocal { socket_path },
                            "forwarded-streamlocal not enabled",
                        )
                    },
                }
            } else {
                self.refuse(conn, channel, "channel type not supported")
            },
            _ => self.refuse(conn, channel, "channel type not supported"),
        }
    }

    /// Credit `n` received bytes to the peer.
    pub open spec fn credit(
        self,
        conn: ConnectionView,
        channel: u32,
        n: u32,
        act: ActView,
    ) -> Served {
        match conn.replenish_window(channel, n) {
            Err(e) => Served { conn, serve: self, send: None, act, result: Err(e) },
            Ok((after, adjust)) => Served {
                conn: after,
                serve: self,
                send: adjust,
                act,
                result: Ok(()),
            },
        }
    }

    /// An event.
    pub open spec fn on_event(
        self,
        granted: Granted,
        handlers: ClientHandlers,
        conn: ConnectionView,
        event: EventView,
    ) -> Served {
        match event {
            EventView::OpenConfirmed { channel } => if self.pending_opens.contains(channel) {
                Served {
                    serve: ServeView { pending_opens: self.pending_opens.remove(channel), ..self },
                    act: ActView::Confirm { channel },
                    ..self.idle(conn)
                }
            } else {
                self.idle(conn)
            },
            EventView::OpenFailed { channel, .. } => if self.pending_opens.contains(channel) {
                Served {
                    serve: ServeView { pending_opens: self.pending_opens.remove(channel), ..self },
                    act: ActView::Refused {
                        channel,
                        error: Error::Protocol("direct-tcpip: open failed"),
                    },
                    ..self.idle(conn)
                }
            } else {
                self.idle(conn)
            },
            EventView::OpenRequest { channel, kind } => self.on_open(
                granted,
                handlers,
                conn,
                channel,
                kind,
            ),
            EventView::Data { channel, data } => self.credit(
                conn,
                channel,
                data.len() as u32,
                if self.runtimes.contains_key(channel) {
                    ActView::Deliver { channel, data }
                } else {
                    ActView::Nothing
                },
            ),
            EventView::ExtendedData { channel, data, .. } => self.credit(
                conn,
                channel,
                data.len() as u32,
                ActView::Nothing,
            ),
            EventView::Eof { channel } => if self.runtimes.contains_key(channel) {
                Served { act: ActView::EndOfInput { channel }, ..self.idle(conn) }
            } else {
                self.idle(conn)
            },
            EventView::Close { channel } => {
                let gone = Served {
                    serve: ServeView { runtimes: self.runtimes.remove(channel), ..self },
                    act: ActView::Drop { channel },
                    ..self.idle(conn)
                };
                match conn.send_close(channel) {
                    Ok((after, payload)) => Served { conn: after, send: Some(payload), ..gone },
                    Err(_) => gone,
                }
            },
            EventView::GlobalRequest { want_reply, .. } => if want_reply {
                Served { send: Some(seq![MSG_REQUEST_FAILURE]), ..self.idle(conn) }
            } else {
                self.idle(conn)
            },
            _ => self.idle(conn),
        }
    }

    /// An inbound packet. One that the connection protocol refuses ends the
    /// loop.
    pub open spec fn dispatch(
        self,
        conn: ConnectionView,
        granted: Granted,
        handlers: ClientHandlers,
        payload: Seq<u8>,
    ) -> Served {
        match conn.on_packet(payload) {
            Err(e) => self.broken(conn, e),
            Ok((after, event)) => self.on_event(granted, handlers, after, event),
        }
    }
}

/// The outcome of handling a packet, as the model has it.
pub open spec fn served(
    conn: ConnectionView,
    serve: ServeView,
    step: ServeStep,
    model: Served,
) -> bool {
    model == (Served {
        conn,
        serve,
        send: opt_view(step.send),
        act: step.act@,
        result: step.result,
    })
}

/// A serve loop.
#[derive(Debug)]
pub struct ServeState {
    runtimes: BTreeMap<u32, ServeRuntime>,
    pending_opens: BTreeSet<u32>,
    steps: usize,
    probes_pending: u32,
    last_activity: u128,
}

impl View for ServeState {
    type V = ServeView;

    closed spec fn view(&self) -> ServeView {
        ServeView {
            runtimes: self.runtimes@.map_values(|r: ServeRuntime| r@),
            pending_opens: self.pending_opens@,
            steps: self.steps as nat,
            probes_pending: self.probes_pending as nat,
            last_activity: self.last_activity,
        }
    }
}

/// A step that does nothing.
fn idle() -> (r: ServeStep)
    ensures
        r.send is None,
        r.act is Nothing,
        r.result == Ok::<(), Error>(()),
{
    ServeStep { send: None, act: ServeAct::Nothing, result: Ok(()) }
}

/// A step that ends the loop.
fn broken(e: Error) -> (r: ServeStep)
    ensures
        r.send is None,
        r.act is Nothing,
        r.result == Err::<(), Error>(e),
{
    ServeStep { send: None, act: ServeAct::Nothing, result: Err(e) }
}

impl ServeState {
    /// A loop that starts now. Times are nanoseconds of a clock that the
    /// frontend has.
    pub fn new(now: u128) -> (r: ServeState)
        ensures
            r@ == ServeView::fresh(now),
    {
        let r = ServeState {
            runtimes: BTreeMap::new(),
            pending_opens: BTreeSet::new(),
            steps: 0,
            probes_pending: 0,
            last_activity: now,
        };
        assert(r@.runtimes =~= Map::empty());
        assert(r@.pending_opens =~= Set::empty());
        r
    }

    /// Track a channel's handler.
    fn put(&mut self, channel: u32, runtime: ServeRuntime)
        ensures
            final(self)@ == (ServeView {
                runtimes: old(self)@.runtimes.insert(channel, runtime@),
                ..old(self)@
            }),
    {
        self.runtimes.insert(channel, runtime);
        assert(self@.runtimes =~= old(self)@.runtimes.insert(channel, runtime@));
    }

    /// Stop tracking a channel's handler.
    fn take(&mut self, channel: u32) -> (r: Option<ServeRuntime>)
        ensures
            final(self)@ == (ServeView {
                runtimes: old(self)@.runtimes.remove(channel),
                ..old(self)@
            }),
            match r {
                Some(rt) => {
                    &&& old(self)@.runtimes.contains_key(channel)
                    &&& rt@ == old(self)@.runtimes[channel]
                },
                None => !old(self)@.runtimes.contains_key(channel),
            },
    {
        let r = self.runtimes.remove(&channel);
        assert(self@.runtimes =~= old(self)@.runtimes.remove(channel));
        r
    }

    /// Refuse an open.
    fn refuse(&self, conn: &mut ConnectionState, channel: u32, why: &'static str) -> (r: ServeStep)
        ensures
            served(final(conn)@, self@, r, self@.refuse(old(conn)@, channel, why)),
    {
        match conn.reject_open(channel, SSH_OPEN_ADMINISTRATIVELY_PROHIBITED, why, "") {
            Err(e) => broken(e),
            Ok(payload) => ServeStep {
                send: Some(payload),
                act: ServeAct::Nothing,
                result: Ok(()),
            },
        }
    }

    /// Accept an open whose type is handled, refuse it otherwise.
    fn take_in_if(
        &mut self,
        conn: &mut ConnectionState,
        channel: u32,
        handled: bool,
        inbound: Inbound,
        why: &'static str,
    ) -> (r: ServeStep)
        ensures
            served(
                final(conn)@,
                final(self)@,
                r,
                old(self)@.take_in_if(old(conn)@, channel, handled, inbound@, why),
            ),
    {
        if !handled {
            return self.refuse(conn, channel, why);
        }
        match conn.accept_open(channel) {
            Err(e) => broken(e),
            Ok(payload) => {
                self.put(channel, ServeRuntime::new());
                ServeStep {
                    send: Some(payload),
                    act: ServeAct::Spawn { channel, inbound },
                    result: Ok(()),
                }
            },
        }
    }

    /// The server opens a channel.
    fn on_open(
        &mut self,
        conn: &mut ConnectionState,
        granted: Granted,
        handlers: &ClientHandlers,
        channel: u32,
        kind: ChannelOpen,
    ) -> (r: ServeStep)
        ensures
            served(
                final(conn)@,
                final(self)@,
                r,
                old(self)@.on_open(granted, *handlers, old(conn)@, channel, kind@),
            ),
    {
        match kind {
            ChannelOpen::ForwardedTcpip { dest_host, dest_port, orig_host, orig_port } => {
                if !granted.tcpip {
                    return self.refuse(conn, channel, "no tcpip-forward requested");
                }
                let origin = ForwardedTcpipOrigin {
                    bound_address: dest_host,
                    bound_port: clamp_u16(dest_port),
                    orig_address: orig_host,
                    orig_port: clamp_u16(orig_port),
                };
                self.take_in_if(
                    conn,
                    channel,
                    handlers.on_forwarded_tcpip,
                    Inbound::ForwardedTcpip(origin),
                    "forwarded-tcpip not enabled",
                )
            },
            ChannelOpen::AuthAgent => self.take_in_if(
                conn,
                channel,
                handlers.on_auth_agent,
                Inbound::AuthAgent,
                "auth-agent not enabled",
            ),
            ChannelOpen::X11 { .. } => self.take_in_if(
                conn,
                channel,
                handlers.on_x11,
                Inbound::X11,
                "x11 not enabled",
            ),
            ChannelOpen::Other { kind, raw } => {
                if !str_eq(kind.as_str(), FORWARDED_STREAMLOCAL) {
                    return self.refuse(conn, channel, "channel type not supported");
                }
                let socket_path = match forwarded_streamlocal(raw.as_slice()) {
                    Err(e) => return broken(e),
                    Ok(path) => path,
                };
                if !granted.streamlocal {
                    return self.refuse(
                        conn,
                        channel,
                        "no streamlocal-forward requested",
                    );
                }
                self.take_in_if(
                    conn,
                    channel,
                    handlers.on_forwarded_streamlocal,
                    Inbound::ForwardedStreamlocal(ForwardedStreamlocalOrigin { socket_path }),
                    "forwarded-streamlocal not enabled",
                )
            },
            _ => self.refuse(conn, channel, "channel type not supported"),
        }
    }

    /// Credit `n` received bytes to the peer.
    fn credit(&self, conn: &mut ConnectionState, channel: u32, n: u32, act: ServeAct) -> (r:
        ServeStep)
        ensures
            served(final(conn)@, self@, r, self@.credit(old(conn)@, channel, n, act@)),
    {
        match conn.replenish_window(channel, n) {
            Err(e) => ServeStep { send: None, act, result: Err(e) },
            Ok(adjust) => ServeStep { send: adjust, act, result: Ok(()) },
        }
    }

    /// Take one inbound packet, given which forwards have been granted.
    ///
    /// Opens by the server go to their handler or are refused; data, EOF and
    /// CLOSE go to the handler of their channel, whether they are credited,
    /// answered or both; a global request that wants a reply is declined.
    pub fn dispatch(
        &mut self,
        conn: &mut ConnectionState,
        granted: Granted,
        handlers: &ClientHandlers,
        payload: &[u8],
    ) -> (r: ServeStep)
        requires
            payload@.len() > 0 && payload@[0] == MSG_CHANNEL_OPEN ==> old(conn)@.has_room(),
        ensures
            served(
                final(conn)@,
                final(self)@,
                r,
                old(self)@.dispatch(old(conn)@, granted, *handlers, payload@),
            ),
    {
        let event = match conn.on_packet(payload) {
            Err(e) => return broken(e),
            Ok(event) => event,
        };
        match event {
            ChannelEvent::OpenConfirmed { channel } => {
                if self.pending_opens.remove(&channel) {
                    assert(self@.pending_opens =~= old(self)@.pending_opens.remove(channel));
                    return ServeStep {
                        send: None,
                        act: ServeAct::Confirm { channel },
                        result: Ok(()),
                    };
                }
                assert(self@.pending_opens =~= old(self)@.pending_opens);
                idle()
            },
            ChannelEvent::OpenFailed { channel, .. } => {
                if self.pending_opens.remove(&channel) {
                    assert(self@.pending_opens =~= old(self)@.pending_opens.remove(channel));
                    return ServeStep {
                        send: None,
                        act: ServeAct::Refused {
                            channel,
                            error: Error::Protocol("direct-tcpip: open failed"),
                        },
                        result: Ok(()),
                    };
                }
                assert(self@.pending_opens =~= old(self)@.pending_opens);
                idle()
            },
            ChannelEvent::OpenRequest { channel, kind } => self.on_open(
                conn,
                granted,
                handlers,
                channel,
                kind,
            ),
            ChannelEvent::Data { channel, data } => {
                let n: u32 = data.len() as u32;
                let act = if self.runtimes.contains_key(&channel) {
                    ServeAct::Deliver { channel, data }
                } else {
                    ServeAct::Nothing
                };
                self.credit(conn, channel, n, act)
            },
            ChannelEvent::ExtendedData { channel, data, .. } => {
                let n: u32 = data.len() as u32;
                self.credit(conn, channel, n, ServeAct::Nothing)
            },
            ChannelEvent::Eof { channel } => {
                if self.runtimes.contains_key(&channel) {
                    return ServeStep {
                        send: None,
                        act: ServeAct::EndOfInput { channel },
                        result: Ok(()),
                    };
                }
                idle()
            },
            ChannelEvent::Close { channel } => {
                let send = match conn.send_close(channel) {
                    Ok(payload) => Some(payload),
                    Err(_) => None,
                };
                let _ = self.take(channel);
                ServeStep { send, act: ServeAct::Drop { channel }, result: Ok(()) }
            },
            ChannelEvent::GlobalRequest { want_reply, .. } => {
                if want_reply {
                    let payload = conn.send_global_failure();
                    return ServeStep {
                        send: Some(payload),
                        act: ServeAct::Nothing,
                        result: Ok(()),
                    };
                }
                idle()
            },
            _ => idle(),
        }
    }

    /// Start another round of the loop.
    pub fn tick(&mut self) -> (r: Result<(), Error>)
        requires
            old(self)@.steps <= MAX_SERVE_STEPS,
        ensures
            if old(self)@.steps >= MAX_SERVE_STEPS {
                &&& r == Err::<(), Error>(Error::Protocol("serve: step cap exceeded"))
                &&& final(self)@ == old(self)@
            } else {
                &&& r == Ok::<(), Error>(())
                &&& final(self)@ == (ServeView { steps: old(self)@.steps + 1, ..old(self)@ })
            },
    {
        if self.steps >= MAX_SERVE_STEPS {
            return Err(Error::Protocol("serve: step cap exceeded"));
        }
        self.steps = self.steps + 1;
        Ok(())
    }

    /// Whether the peer is to be probed, given the keepalive setting and
    /// whether a key exchange is in flight. A probe that is given is to be
    /// transmitted, and the silence starts anew.
    pub fn keepalive(
        &mut self,
        keepalive: Option<(u64, u32)>,
        kexing: bool,
        now: u128,
    ) -> (r: Result<Option<Vec<u8>>, Error>)
        ensures
            match old(self)@.probe(keepalive, kexing, now) {
                Probe::Quiet => r == Ok::<Option<Vec<u8>>, Error>(None)
                    && final(self)@ == old(self)@,
                Probe::Send => {
                    &&& r matches Ok(Some(payload))
                    &&& payload@ == global_payload(GlobalRequestView::Keepalive, true)
                    &&& final(self)@ == old(self)@.probed(now)
                },
                Probe::Dead => {
                    &&& r == Err::<Option<Vec<u8>>, Error>(
                        Error::Protocol(
                            "serve: server keepalive timed out (ServerAliveCountMax exceeded)",
                        ),
                    )
                    &&& final(self)@ == old(self)@
                },
            },
    {
        if let Some((interval, count_max)) = keepalive {
            let silent: u128 = if now >= self.last_activity {
                now - self.last_activity
            } else {
                0
            };
            if !kexing && silent >= interval as u128 * 1_000_000_000 {
                if self.probes_pending >= count_max {
                    return Err(
                        Error::Protocol(
                            "serve: server keepalive timed out (ServerAliveCountMax exceeded)",
                        ),
                    );
                }
                self.probes_pending = self.probes_pending + 1;
                self.last_activity = now;
                let probe = ConnectionState::new().send_global_request(
                    GlobalRequest::Keepalive,
                    true,
                );
                return Ok(Some(probe));
            }
        }
        Ok(None)
    }

    /// Any packet proves that the peer is alive.
    pub fn heard(&mut self, now: u128)
        ensures
            final(self)@ == old(self)@.alive(now),
    {
        self.probes_pending = 0;
        self.last_activity = now;
    }

    /// Open the channel that a command asks for: its local id, and the open
    /// to transmit. The answer comes through [`Self::dispatch`].
    pub fn on_command(&mut self, conn: &mut ConnectionState, command: ServeCommand) -> (r: (
        u32,
        Vec<u8>,
    ))
        requires
            old(conn)@.has_room(),
        ensures
            (final(conn)@, r.0, r.1@) == old(conn)@.open(command.kind()),
            final(self)@ == (ServeView {
                pending_opens: old(self)@.pending_opens.insert(r.0),
                ..old(self)@
            }),
    {
        let kind = match command {
            ServeCommand::OpenDirectTcpip { dest_host, dest_port, orig_host, orig_port } => {
                ChannelOpen::DirectTcpip {
                    dest_host,
                    dest_port: dest_port as u32,
                    orig_host,
                    orig_port: orig_port as u32,
                }
            },
            ServeCommand::OpenDirectStreamlocal { socket_path } => direct_streamlocal(
                socket_path.as_str(),
            ),
        };
        let (channel, payload) = match conn.open(kind) {
            Ok(opened) => opened,
            Err(_) => {
                assert(false);
                (0, Vec::new())
            },
        };
        self.pending_opens.insert(channel);
        assert(self@.pending_opens =~= old(self)@.pending_opens.insert(channel));
        (channel, payload)
    }

    /// Whoever asked for a channel has taken its stream, or has gone away; in
    /// that case the channel is closed again.
    pub fn confirmed(&mut self, conn: &mut ConnectionState, channel: u32, taken: bool) -> (r:
        Result<Option<Vec<u8>>, Error>)
        ensures
            if taken {
                &&& r == Ok::<Option<Vec<u8>>, Error>(None)
                &&& final(conn)@ == old(conn)@
                &&& final(self)@ == (ServeView {
                    runtimes: old(self)@.runtimes.insert(channel, RuntimeView::fresh()),
                    ..old(self)@
                })
            } else {
                &&& final(self)@ == old(self)@
                &&& match old(conn)@.send_close(channel) {
                    Ok((after, payload)) => {
                        &&& r matches Ok(Some(p))
                        &&& p@ == payload
                        &&& final(conn)@ == after
                    },
                    Err(e) => r == Err::<Option<Vec<u8>>, Error>(e) && final(conn)@ == old(conn)@,
                }
            },
    {
        if taken {
            self.put(channel, ServeRuntime::new());
            return Ok(None);
        }
        match conn.send_close(channel) {
            Ok(payload) => Ok(Some(payload)),
            Err(e) => Err(e),
        }
    }

    /// The channels that have a handler, in the order of their ids.
    pub fn channels(&self) -> (r: Vec<u32>)
        ensures
            r@.to_set() == self@.runtimes.dom(),
            forall|i: int, j: int| 0 <= i < j < r@.len() ==> r@[i] < r@[j],
    {
        let mut out: Vec<u32> = Vec::new();
        let items = self.runtimes.iter();
        let ghost model = vstd::std_specs::btree::into_iter(items);
        assert(items.remaining().map_values(|kv: (&u32, &ServeRuntime)| *kv.0).len()
            == items.remaining().len());
        assert forall|i: int, j: int| 0 <= i < j < model.len() implies model[i].0 < model[j].0 by {
            let keys = items.remaining().map_values(|kv: (&u32, &ServeRuntime)| *kv.0);
            assert(keys[i].cmp_spec(&keys[j]) is Less);
            assert(keys[i] == model[i].0 && keys[j] == model[j].0);
        }
        assert(model.to_set() == self.runtimes@.kv_pairs());
        for kv in it: items
            invariant
                out@.len() == it.index(),
                it.seq().unref() == model,
                forall|i: int| #![trigger out@[i]] 0 <= i < out@.len() ==> out@[i] == model[i].0,
        {
            out.push(*kv.0);
        }
        proof {
            assert(out@.len() == model.len());
            assert forall|k: u32| out@.to_set().contains(k) implies self@.runtimes.dom().contains(
                k,
            ) by {
                let i = choose|i: int| 0 <= i < out@.len() && out@[i] == k;
                assert(model.to_set().contains(model[i]));
            }
            assert forall|k: u32| self@.runtimes.dom().contains(k) implies out@.to_set().contains(
                k,
            ) by {
                assert(self.runtimes@.kv_pairs().contains((k, self.runtimes@[k])));
                let i = choose|i: int| 0 <= i < model.len() && model[i] == (k, self.runtimes@[k]);
                assert(out@[i] == k);
            }
            assert(out@.to_set() =~= self@.runtimes.dom());
        }
        out
    }

    /// Try to send what a channel had left over. If the step asks for more,
    /// the handler's output follows, piece by piece, and then
    /// [`Self::settle`]; otherwise the channel is done for this tick.
    pub fn retry(&mut self, conn: &mut ConnectionState, channel: u32) -> (r: DrainStep)
        requires
            old(self)@.runtimes.contains_key(channel),
        ensures
            final(self)@.runtimes.contains_key(channel),
            final(self)@ == (ServeView {
                runtimes: old(self)@.runtimes.insert(channel, final(self)@.runtimes[channel]),
                ..old(self)@
            }),
            drained(
                final(conn)@,
                final(self)@.runtimes[channel],
                r,
                old(self)@.runtimes[channel].retry(old(conn)@, channel),
            ),
    {
        match self.take(channel) {
            None => silent(false, Ok(())),
            Some(mut runtime) => {
                let step = runtime.retry(conn, channel);
                self.put(channel, runtime);
                assert(self@.runtimes =~= old(self)@.runtimes.insert(channel, runtime@));
                step
            },
        }
    }

    /// A piece of a handler's output. Another one follows if the step asks
    /// for more.
    pub fn on_egress(&mut self, conn: &mut ConnectionState, channel: u32, message: Egress) -> (r:
        DrainStep)
        requires
            old(self)@.runtimes.contains_key(channel),
        ensures
            final(self)@.runtimes.contains_key(channel),
            final(self)@ == (ServeView {
                runtimes: old(self)@.runtimes.insert(channel, final(self)@.runtimes[channel]),
                ..old(self)@
            }),
            drained(
                final(conn)@,
                final(self)@.runtimes[channel],
                r,
                old(self)@.runtimes[channel].on_egress(old(conn)@, channel, message@),
            ),
    {
        match self.take(channel) {
            None => silent(false, Ok(())),
            Some(mut runtime) => {
                let step = runtime.on_egress(conn, channel, message);
                self.put(channel, runtime);
                assert(self@.runtimes =~= old(self)@.runtimes.insert(channel, runtime@));
                step
            },
        }
    }

    /// Send a channel's EOF and CLOSE, as far as its handler wants them and
    /// all its data is sent.
    pub fn settle(&mut self, conn: &mut ConnectionState, channel: u32) -> (r: DrainStep)
        requires
            old(self)@.runtimes.contains_key(channel),
        ensures
            final(self)@.runtimes.contains_key(channel),
            final(self)@ == (ServeView {
                runtimes: old(self)@.runtimes.insert(channel, final(self)@.runtimes[channel]),
                ..old(self)@
            }),
            drained(
                final(conn)@,
                final(self)@.runtimes[channel],
                r,
                old(self)@.runtimes[channel].settle(old(conn)@, channel),
            ),
    {
        match self.take(channel) {
            None => silent(false, Ok(())),
            Some(mut runtime) => {
                let step = runtime.settle(conn, channel);
                self.put(channel, runtime);
                assert(self@.runtimes =~= old(self)@.runtimes.insert(channel, runtime@));
                step
            },
        }
    }

    /// Let go of a channel once its CLOSE has been sent. Says whether it was
    /// let go.
    pub fn reap(&mut self, channel: u32) -> (r: bool)
        ensures
            r == (old(self)@.runtimes.contains_key(channel)
                && old(self)@.runtimes[channel].close_sent),
            final(self)@ == (if r {
                ServeView { runtimes: old(self)@.runtimes.remove(channel), ..old(self)@ }
            } else {
                old(self)@
            }),
    {
        match self.take(channel) {
            None => {
                assert(self@.runtimes =~= old(self)@.runtimes);
                false
            },
            Some(runtime) => {
                if runtime.close_sent {
                    return true;
                }
                self.put(channel, runtime);
                assert(self@.runtimes =~= old(self)@.runtimes);
                false
            },
        }
    }

    /// Whether the loop may end: it has been asked to, and no channel is left
    /// that someone still uses or waits for.
    pub fn finished(&self, stop: bool) -> (r: bool)
        ensures
            r == (stop && self@.runtimes.dom() == Set::<u32>::empty() && self@.pending_opens
                == Set::<u32>::empty()),
    {
        assert(self@.runtimes.dom() =~= self.runtimes@.dom());
        assert(self.runtimes@.dom().len() == 0 ==> self.runtimes@.dom() =~= Set::empty());
        assert(self@.pending_opens.is_empty() <==> self@.pending_opens =~= Set::empty());
        stop && self.runtimes.len() == 0 && self.pending_opens.is_empty()
    }
}

/// What the clock asks for.
pub ghost enum Probe {
    Quiet,
    Send,
    Dead,
}

impl ServeView {
    /// What the clock asks for, with an interval in seconds: nothing before
    /// that much silence or during a key exchange; then a probe, unless all
    /// the probes that may go unanswered have.
    pub open spec fn probe(
        self,
        keepalive: Option<(u64, u32)>,
        kexing: bool,
        now: u128,
    ) -> Probe {
        match keepalive {
            None => Probe::Quiet,
            Some((interval, count_max)) => if kexing || elapsed(now, self.last_activity) < interval
                * 1_000_000_000 {
                Probe::Quiet
            } else if self.probes_pending >= count_max {
                Probe::Dead
            } else {
                Probe::Send
            },
        }
    }

    /// A probe has gone out.
    pub open spec fn probed(self, now: u128) -> ServeView {
        ServeView { probes_pending: self.probes_pending + 1, last_activity: now, ..self }
    }

    /// A packet has come in.
    pub open spec fn alive(self, now: u128) -> ServeView {
        ServeView { probes_pending: 0, last_activity: now, ..self }
    }
}

} // verus!
