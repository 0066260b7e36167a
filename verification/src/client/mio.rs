//! The client for readiness-driven event loops: it never blocks, and runs one
//! command at a time.
//!
//! The frontend owns the event loop. It feeds [`MioClient`] what the driver
//! and the authentication engine come up with, transmits what it is given,
//! and reacts to [`MioEvent`]s.

use super::pump::AuthStep;
use crate::channel::model::{ConnectionView, EventView};
use crate::channel::open::ChannelOpenView;
use crate::channel::request::ChannelRequestView;
use crate::channel::{
    ChannelEvent, ChannelOpen, ChannelRequest, ConnectionState, DEFAULT_MAX_PACKET, DEFAULT_WINDOW,
    MSG_CHANNEL_FAILURE, MSG_CHANNEL_OPEN, SSH_EXTENDED_DATA_STDERR,
};
use crate::error::{Error, IoErrorKind};
use crate::text::{opt_view, views};
use std::collections::VecDeque;
use vstd::prelude::*;

verus! {

/// What the caller of a [`MioClient`] reacts to.
#[derive(Debug, Clone)]
pub enum MioEvent {
    /// The handshake is complete; authentication may begin.
    HandshakeComplete,
    /// Authentication has succeeded; a command may be run.
    Authenticated,
    /// Every credential has been refused.
    AuthFailed,
    /// A chunk of output.
    Data {
        /// Whether it is stderr rather than stdout.
        stderr: bool,
        /// The bytes.
        data: Vec<u8>,
    },
    /// The command's exit status.
    ExitStatus(u32),
    /// The command's channel is closed; another one may be run.
    ExecClosed,
    /// The peer has closed the transport.
    Disconnected,
}

/// What the caller of a [`MioClient`] reacts to.
#[verifier::ext_equal]
pub ghost enum MioEventView {
    HandshakeComplete,
    Authenticated,
    AuthFailed,
    Data { stderr: bool, data: Seq<u8> },
    ExitStatus(u32),
    ExecClosed,
    Disconnected,
}

impl View for MioEvent {
    type V = MioEventView;

    open spec fn view(&self) -> MioEventView {
        match self {
            MioEvent::HandshakeComplete => MioEventView::HandshakeComplete,
            MioEvent::Authenticated => MioEventView::Authenticated,
            MioEvent::AuthFailed => MioEventView::AuthFailed,
            MioEvent::Data { stderr, data } => MioEventView::Data { stderr: *stderr, data: data@ },
            MioEvent::ExitStatus(code) => MioEventView::ExitStatus(*code),
            MioEvent::ExecClosed => MioEventView::ExecClosed,
            MioEvent::Disconnected => MioEventView::Disconnected,
        }
    }
}

/// A command in progress.
#[derive(Debug)]
pub struct ExecState {
    /// Its channel.
    pub channel: u32,
    /// The command, until the channel is open.
    pub command: String,
    /// The peer has closed the channel.
    pub remote_closed: bool,
    /// We have closed the channel.
    pub close_sent: bool,
    /// We have answered the peer's EOF.
    pub eof_sent: bool,
}

/// A command in progress.
#[verifier::ext_equal]
pub ghost struct ExecStateView {
    pub channel: u32,
    pub command: Seq<char>,
    pub remote_closed: bool,
    pub close_sent: bool,
    pub eof_sent: bool,
}

impl View for ExecState {
    type V = ExecStateView;

    open spec fn view(&self) -> ExecStateView {
        ExecStateView {
            channel: self.channel,
            command: self.command@,
            remote_closed: self.remote_closed,
            close_sent: self.close_sent,
            eof_sent: self.eof_sent,
        }
    }
}

impl ExecStateView {
    /// A command whose channel has been asked for.
    pub open spec fn fresh(channel: u32, command: Seq<char>) -> ExecStateView {
        ExecStateView {
            channel,
            command,
            remote_closed: false,
            close_sent: false,
            eof_sent: false,
        }
    }

    /// Both sides have closed the channel.
    pub open spec fn finished(self) -> bool {
        self.remote_closed && self.close_sent
    }
}

impl ExecState {
    /// A command whose channel has been asked for.
    pub fn new(channel: u32, command: String) -> (r: ExecState)
        ensures
            r@ == ExecStateView::fresh(channel, command@),
    {
        ExecState { channel, command, remote_closed: false, close_sent: false, eof_sent: false }
    }

    /// Both sides have closed the channel.
    pub fn finished(&self) -> (r: bool)
        ensures
            r == self@.finished(),
    {
        self.remote_closed && self.close_sent
    }
}

/// Where a client stands.
#[derive(Debug)]
pub enum MioPhase {
    /// The handshake is in flight.
    Handshaking,
    /// Authentication may begin.
    Ready,
    /// Authentication is in flight.
    Authenticating,
    /// A command may be run.
    Authenticated,
    /// A command is running.
    Exec(ExecState),
    /// Every credential has been refused.
    Failed,
    /// The connection is over.
    Done,
}

/// Where a client stands.
#[verifier::ext_equal]
pub ghost enum MioPhaseView {
    Handshaking,
    Ready,
    Authenticating,
    Authenticated,
    Exec(ExecStateView),
    Failed,
    Done,
}

impl View for MioPhase {
    type V = MioPhaseView;

    open spec fn view(&self) -> MioPhaseView {
        match self {
            MioPhase::Handshaking => MioPhaseView::Handshaking,
            MioPhase::Ready => MioPhaseView::Ready,
            MioPhase::Authenticating => MioPhaseView::Authenticating,
            MioPhase::Authenticated => MioPhaseView::Authenticated,
            MioPhase::Exec(state) => MioPhaseView::Exec(state@),
            MioPhase::Failed => MioPhaseView::Failed,
            MioPhase::Done => MioPhaseView::Done,
        }
    }
}

/// A client: its channels, where it stands, and what its caller has not seen
/// yet.
#[verifier::ext_equal]
pub ghost struct MioView {
    pub conn: ConnectionView,
    pub phase: MioPhaseView,
    pub events: Seq<MioEventView>,
}

/// What an inbound payload leads to.
#[verifier::ext_equal]
pub ghost struct MioReply {
    pub client: MioView,
    pub send: Option<Seq<u8>>,
    pub result: Result<(), Error>,
}

/// What an event does to a running command: the connection, the command, the
/// events it raises, and what is sent.
#[verifier::ext_equal]
pub ghost struct ExecReply {
    pub conn: ConnectionView,
    pub state: ExecStateView,
    pub events: Seq<MioEventView>,
    pub send: Option<Seq<u8>>,
    pub result: Result<(), Error>,
}

impl ExecStateView {
    /// Raise output and credit it to the peer.
    pub open spec fn output(
        self,
        conn: ConnectionView,
        events: Seq<MioEventView>,
        data: Seq<u8>,
        stderr: bool,
    ) -> ExecReply {
        let raised = events.push(MioEventView::Data { stderr, data });
        match conn.replenish_window(self.channel, data.len() as u32) {
            Err(e) => ExecReply { conn, state: self, events: raised, send: None, result: Err(e) },
            Ok((after, adjust)) => ExecReply {
                conn: after,
                state: self,
                events: raised,
                send: adjust,
                result: Ok(()),
            },
        }
    }

    /// An event on the connection while a command runs.
    pub open spec fn on_event(
        self,
        conn: ConnectionView,
        events: Seq<MioEventView>,
        event: EventView,
    ) -> ExecReply {
        let ignore = ExecReply { conn, state: self, events, send: None, result: Ok(()) };
        match event {
            EventView::OpenConfirmed { channel } => if channel == self.channel {
                match conn.send_request(
                    self.channel,
                    ChannelRequestView::Exec { command: self.command },
                    true,
                ) {
                    Err(e) => ExecReply { result: Err(e), ..ignore },
                    Ok(payload) => ExecReply { send: Some(payload), ..ignore },
                }
            } else {
                ignore
            },
            EventView::OpenFailed { channel, .. } => if channel == self.channel {
                ExecReply {
                    state: ExecStateView { remote_closed: true, close_sent: true, ..self },
                    ..ignore
                }
            } else {
                ignore
            },
            EventView::Failure { channel } => if channel == self.channel {
                ExecReply { result: Err(Error::Protocol("exec request denied")), ..ignore }
            } else {
                ignore
            },
            EventView::Data { channel, data } => if channel == self.channel {
                self.output(conn, events, data, false)
            } else {
                ignore
            },
            EventView::ExtendedData { channel, code, data } => if channel == self.channel {
                self.output(conn, events, data, code == SSH_EXTENDED_DATA_STDERR)
            } else {
                ignore
            },
            EventView::Request { channel, request, want_reply } => if channel == self.channel {
                let raised = match request {
                    ChannelRequestView::ExitStatus { code } => events.push(
                        MioEventView::ExitStatus(code),
                    ),
                    _ => events,
                };
                if !want_reply {
                    ExecReply { events: raised, ..ignore }
                } else {
                    match conn.send_reply(self.channel, MSG_CHANNEL_FAILURE) {
                        Err(e) => ExecReply { events: raised, result: Err(e), ..ignore },
                        Ok(payload) => ExecReply {
                            events: raised,
                            send: Some(payload),
                            ..ignore
                        },
                    }
                }
            } else {
                ignore
            },
            EventView::Eof { channel } => if channel == self.channel && !self.eof_sent {
                match conn.send_eof(self.channel) {
                    Err(e) => ExecReply { result: Err(e), ..ignore },
                    Ok((after, payload)) => ExecReply {
                        conn: after,
                        state: ExecStateView { eof_sent: true, ..self },
                        send: Some(payload),
                        ..ignore
                    },
                }
            } else {
                ignore
            },
            EventView::Close { channel } => if channel == self.channel {
                let closed = ExecStateView { remote_closed: true, ..self };
                if self.close_sent {
                    ExecReply { state: closed, ..ignore }
                } else {
                    match conn.send_close(self.channel) {
                        Err(e) => ExecReply { state: closed, result: Err(e), ..ignore },
                        Ok((after, payload)) => ExecReply {
                            conn: after,
                            state: ExecStateView { close_sent: true, ..closed },
                            send: Some(payload),
                            ..ignore
                        },
                    }
                }
            } else {
                ignore
            },
            _ => ignore,
        }
    }
}

impl MioView {
    /// A payload for the connection protocol. It means something only while a
    /// command runs; an error ends the connection.
    pub open spec fn on_app_data(self, payload: Seq<u8>) -> MioReply {
        match self.phase {
            MioPhaseView::Exec(state) => match self.conn.on_packet(payload) {
                Err(e) => MioReply {
                    client: MioView { phase: MioPhaseView::Done, ..self },
                    send: None,
                    result: Err(e),
                },
                Ok((after, event)) => {
                    let reply = state.on_event(after, self.events, event);
                    let (phase, events) = if reply.result is Err {
                        (MioPhaseView::Done, reply.events)
                    } else if reply.state.finished() {
                        (MioPhaseView::Authenticated, reply.events.push(MioEventView::ExecClosed))
                    } else {
                        (MioPhaseView::Exec(reply.state), reply.events)
                    };
                    MioReply {
                        client: MioView { conn: reply.conn, phase, events },
                        send: reply.send,
                        result: reply.result,
                    }
                },
            },
            _ => MioReply { client: self, send: None, result: Ok(()) },
        }
    }

    /// What the authentication engine makes of a packet, or its error. It
    /// means something only while authentication is in flight.
    pub open spec fn on_auth_step(self, step: Result<AuthStep, Error>) -> MioReply {
        let ignore = MioReply { client: self, send: None, result: Ok(()) };
        if self.phase !is Authenticating {
            ignore
        } else {
            match step {
                Err(e) => MioReply {
                    client: MioView { phase: MioPhaseView::Done, ..self },
                    send: None,
                    result: Err(e),
                },
                Ok(AuthStep::Send(payload)) => MioReply { send: Some(payload@), ..ignore },
                Ok(AuthStep::Success) => MioReply {
                    client: MioView {
                        phase: MioPhaseView::Authenticated,
                        events: self.events.push(MioEventView::Authenticated),
                        ..self
                    },
                    ..ignore
                },
                Ok(AuthStep::Failed) => MioReply {
                    client: MioView {
                        phase: MioPhaseView::Failed,
                        events: self.events.push(MioEventView::AuthFailed),
                        ..self
                    },
                    ..ignore
                },
                Ok(AuthStep::Banner { .. }) => ignore,
                Ok(AuthStep::Idle) => ignore,
            }
        }
    }
}

/// A readiness-driven client, as far as it is not a transport.
#[derive(Debug)]
pub struct MioClient {
    conn: ConnectionState,
    phase: MioPhase,
    events: VecDeque<MioEvent>,
}

impl View for MioClient {
    type V = MioView;

    closed spec fn view(&self) -> MioView {
        MioView { conn: self.conn@, phase: self.phase@, events: views(self.events@) }
    }
}

/// A payload to transmit, and whether the connection still works.
pub type Answer = (Option<Vec<u8>>, Result<(), Error>);

/// The outcome of a payload, as the model has it.
pub open spec fn answered(client: MioView, r: Answer, model: MioReply) -> bool {
    model == (MioReply { client, send: opt_view(r.0), result: r.1 })
}

impl MioClient {
    /// A client whose handshake is in flight.
    pub fn new() -> (r: MioClient)
        ensures
            r@ == (MioView {
                conn: ConnectionView {
                    channels: Map::empty(),
                    next_local_id: 0,
                    default_window: DEFAULT_WINDOW,
                    default_max_packet: DEFAULT_MAX_PACKET,
                },
                phase: MioPhaseView::Handshaking,
                events: Seq::empty(),
            }),
    {
        let r = MioClient {
            conn: ConnectionState::new(),
            phase: MioPhase::Handshaking,
            events: VecDeque::new(),
        };
        assert(r@.events =~= Seq::empty());
        r
    }

    /// The next event, if there is one.
    pub fn poll_event(&mut self) -> (r: Option<MioEvent>)
        ensures
            match r {
                Some(event) => {
                    &&& old(self)@.events.len() > 0
                    &&& event@ == old(self)@.events[0]
                    &&& final(self)@ == (MioView {
                        events: old(self)@.events.skip(1),
                        ..old(self)@
                    })
                },
                None => old(self)@.events.len() == 0 && final(self)@ == old(self)@,
            },
    {
        let r = self.events.pop_front();
        assert(r is Some ==> self@.events =~= old(self)@.events.skip(1));
        r
    }

    /// Raise an event.
    fn raise(&mut self, event: MioEvent)
        ensures
            final(self)@ == (MioView { events: old(self)@.events.push(event@), ..old(self)@ }),
    {
        self.events.push_back(event);
        assert(self@.events =~= old(self)@.events.push(event@));
    }

    /// Whether a channel number is left.
    pub fn has_room(&self) -> (r: bool)
        ensures
            r == self@.conn.has_room(),
    {
        self.conn.has_room()
    }

    /// Whether inbound payloads are for the authentication engine.
    pub fn is_authenticating(&self) -> (r: bool)
        ensures
            r == (self@.phase is Authenticating),
    {
        match self.phase {
            MioPhase::Authenticating => true,
            _ => false,
        }
    }

    /// The driver says that the handshake is complete.
    pub fn on_handshake_complete(&mut self)
        ensures
            final(self)@ == if old(self)@.phase is Handshaking {
                MioView {
                    phase: MioPhaseView::Ready,
                    events: old(self)@.events.push(MioEventView::HandshakeComplete),
                    ..old(self)@
                }
            } else {
                old(self)@
            },
    {
        if let MioPhase::Handshaking = self.phase {
            self.phase = MioPhase::Ready;
            self.raise(MioEvent::HandshakeComplete);
        }
    }

    /// Begin authentication. It may begin once, after the handshake; what
    /// comes of it arrives as an event.
    pub fn authenticate(&mut self) -> (r: Result<(), Error>)
        ensures
            if old(self)@.phase is Ready {
                &&& r == Ok::<(), Error>(())
                &&& final(self)@ == (MioView {
                    phase: MioPhaseView::Authenticating,
                    ..old(self)@
                })
            } else {
                &&& r == Err::<(), Error>(
                    Error::Protocol(
                        "authenticate: handshake not complete or auth already in progress",
                    ),
                )
                &&& final(self)@ == old(self)@
            },
    {
        if let MioPhase::Ready = self.phase {
            self.phase = MioPhase::Authenticating;
            return Ok(());
        }
        Err(Error::Protocol("authenticate: handshake not complete or auth already in progress"))
    }

    /// Run a command on a fresh channel, once authentication has succeeded and
    /// no other command runs. The payload is to be transmitted; output
    /// arrives as events.
    pub fn exec(&mut self, command: &str) -> (r: Result<Vec<u8>, Error>)
        requires
            old(self)@.conn.has_room(),
        ensures
            if old(self)@.phase is Authenticated {
                let (conn, channel, payload) = old(self)@.conn.open(ChannelOpenView::Session);
                &&& r matches Ok(p)
                &&& p@ == payload
                &&& final(self)@ == (MioView {
                    conn,
                    phase: MioPhaseView::Exec(ExecStateView::fresh(channel, command@)),
                    ..old(self)@
                })
            } else {
                &&& r == Err::<Vec<u8>, Error>(
                    Error::Protocol("exec: not authenticated (or busy)"),
                )
                &&& final(self)@ == old(self)@
            },
    {
        match self.phase {
            MioPhase::Authenticated => {},
            _ => return Err(Error::Protocol("exec: not authenticated (or busy)")),
        }
        match self.conn.open(ChannelOpen::Session) {
            Ok((channel, payload)) => {
                self.phase = MioPhase::Exec(ExecState::new(channel, command.to_owned()));
                Ok(payload)
            },
            Err(e) => {
                assert(false);
                Err(e)
            },
        }
    }

    /// The authentication engine has taken a payload. What is given back is to
    /// be transmitted.
    pub fn on_auth_step(&mut self, step: Result<AuthStep, Error>) -> (r: Answer)
        ensures
            answered(final(self)@, r, old(self)@.on_auth_step(step)),
    {
        if !self.is_authenticating() {
            return (None, Ok(()));
        }
        match step {
            Err(e) => {
                self.phase = MioPhase::Done;
                (None, Err(e))
            },
            Ok(AuthStep::Send(payload)) => (Some(payload), Ok(())),
            Ok(AuthStep::Success) => {
                self.phase = MioPhase::Authenticated;
                self.raise(MioEvent::Authenticated);
                (None, Ok(()))
            },
            Ok(AuthStep::Failed) => {
                self.phase = MioPhase::Failed;
                self.raise(MioEvent::AuthFailed);
                (None, Ok(()))
            },
            Ok(AuthStep::Banner { .. }) => (None, Ok(())),
            Ok(AuthStep::Idle) => (None, Ok(())),
        }
    }

    /// Raise output and credit it to the peer.
    fn output(&mut self, state: &ExecState, data: Vec<u8>, stderr: bool) -> (r: Answer)
        ensures
            state@.output(old(self)@.conn, old(self)@.events, data@, stderr) == (ExecReply {
                conn: final(self)@.conn,
                state: state@,
                events: final(self)@.events,
                send: opt_view(r.0),
                result: r.1,
            }),
            final(self)@.phase == old(self)@.phase,
    {
        let n: u32 = data.len() as u32;
        self.raise(MioEvent::Data { stderr, data });
        match self.conn.replenish_window(state.channel, n) {
            Err(e) => (None, Err(e)),
            Ok(adjust) => (adjust, Ok(())),
        }
    }

    /// An event on the connection while a command runs.
    fn handle_exec_event(&mut self, state: &mut ExecState, event: ChannelEvent) -> (r: Answer)
        ensures
            old(state)@.on_event(old(self)@.conn, old(self)@.events, event@) == (ExecReply {
                conn: final(self)@.conn,
                state: final(state)@,
                events: final(self)@.events,
                send: opt_view(r.0),
                result: r.1,
            }),
            final(self)@.phase == old(self)@.phase,
    {
        match event {
            ChannelEvent::OpenConfirmed { channel } => {
                if channel == state.channel {
                    let request = ChannelRequest::Exec { command: state.command.clone() };
                    return match self.conn.send_request(state.channel, request, true) {
                        Err(e) => (None, Err(e)),
                        Ok(payload) => (Some(payload), Ok(())),
                    };
                }
            },
            ChannelEvent::OpenFailed { channel, .. } => {
                if channel == state.channel {
                    state.remote_closed = true;
                    state.close_sent = true;
                }
            },
            ChannelEvent::Failure { channel } => {
                if channel == state.channel {
                    return (None, Err(Error::Protocol("exec request denied")));
                }
            },
            ChannelEvent::Data { channel, data } => {
                if channel == state.channel {
                    return self.output(state, data, false);
                }
            },
            ChannelEvent::ExtendedData { channel, code, data } => {
                if channel == state.channel {
                    return self.output(state, data, code == SSH_EXTENDED_DATA_STDERR);
                }
            },
            ChannelEvent::Request { channel, request, want_reply } => {
                if channel == state.channel {
                    if let ChannelRequest::ExitStatus { code } = request {
                        self.raise(MioEvent::ExitStatus(code));
                    }
                    if want_reply {
                        return match self.conn.send_request_failure(state.channel) {
                            Err(e) => (None, Err(e)),
                            Ok(payload) => (Some(payload), Ok(())),
                        };
                    }
                }
            },
            ChannelEvent::Eof { channel } => {
                if channel == state.channel && !state.eof_sent {
                    return match self.conn.send_eof(state.channel) {
                        Err(e) => (None, Err(e)),
                        Ok(payload) => {
                            state.eof_sent = true;
                            (Some(payload), Ok(()))
                        },
                    };
                }
            },
            ChannelEvent::Close { channel } => {
                if channel == state.channel {
                    state.remote_closed = true;
                    if !state.close_sent {
                        return match self.conn.send_close(state.channel) {
                            Err(e) => (None, Err(e)),
                            Ok(payload) => {
                                state.close_sent = true;
                                (Some(payload), Ok(()))
                            },
                        };
                    }
                }
            },
            _ => {},
        }
        (None, Ok(()))
    }

    /// Take a payload of the connection protocol. What is given back is to be
    /// transmitted.
    pub fn on_app_data(&mut self, payload: &[u8]) -> (r: Answer)
        requires
            payload@.len() > 0 && payload@[0] == MSG_CHANNEL_OPEN ==> old(self)@.conn.has_room(),
        ensures
            answered(final(self)@, r, old(self)@.on_app_data(payload@)),
    {
        let mut phase = MioPhase::Done;
        std::mem::swap(&mut phase, &mut self.phase);
        match phase {
            MioPhase::Exec(state) => {
                let mut state = state;
                let event = match self.conn.on_packet(payload) {
                    Err(e) => return (None, Err(e)),
                    Ok(event) => event,
                };
                let (send, result) = self.handle_exec_event(&mut state, event);
                if result.is_ok() {
                    if state.finished() {
                        self.phase = MioPhase::Authenticated;
                        self.raise(MioEvent::ExecClosed);
                    } else {
                        self.phase = MioPhase::Exec(state);
                    }
                }
                (send, result)
            },
            other => {
                self.phase = other;
                (None, Ok(()))
            },
        }
    }

    /// The peer has closed the transport.
    pub fn on_disconnect(&mut self)
        ensures
            final(self)@ == (MioView {
                phase: MioPhaseView::Done,
                events: old(self)@.events.push(MioEventView::Disconnected),
                ..old(self)@
            }),
    {
        self.phase = MioPhase::Done;
        self.raise(MioEvent::Disconnected);
    }
}

/// Bytes on their way to a socket that takes as many as it likes. The view is
/// what it has not taken yet.
#[derive(Debug)]
pub struct OutBuffer {
    buf: Vec<u8>,
    pos: usize,
}

impl View for OutBuffer {
    type V = Seq<u8>;

    closed spec fn view(&self) -> Seq<u8> {
        self.buf@.skip(self.pos as int)
    }
}

/// What a read or a write that did not go through means.
#[derive(Debug, Clone, Copy, PartialEq, Eq, Structural)]
pub enum Retry {
    /// Wait for readiness.
    Later,
    /// Try again at once.
    Now,
    /// The transport has failed.
    Never,
}

/// What a failed read or write of a non-blocking socket means.
pub fn retry(kind: IoErrorKind) -> (r: Retry)
    ensures
        r == match kind {
            IoErrorKind::WouldBlock => Retry::Later,
            IoErrorKind::Interrupted => Retry::Now,
            _ => Retry::Never,
        },
{
    match kind {
        IoErrorKind::WouldBlock => Retry::Later,
        IoErrorKind::Interrupted => Retry::Now,
        _ => Retry::Never,
    }
}

impl OutBuffer {
    /// No more is taken than there is.
    pub closed spec fn wf(self) -> bool {
        self.pos <= self.buf@.len()
    }

    /// Nothing to send.
    pub fn new() -> (r: OutBuffer)
        ensures
            r.wf(),
            r@ == Seq::<u8>::empty(),
    {
        let r = OutBuffer { buf: Vec::new(), pos: 0 };
        assert(r@ =~= Seq::<u8>::empty());
        r
    }

    /// Add a frame.
    pub fn push(&mut self, frame: &[u8])
        requires
            old(self).wf(),
        ensures
            final(self).wf(),
            final(self)@ == old(self)@ + frame@,
    {
        self.buf.extend_from_slice(frame);
        assert(self@ =~= old(self)@ + frame@);
    }

    /// What the socket has not taken yet.
    pub fn unsent(&self) -> (r: &[u8])
        requires
            self.wf(),
        ensures
            r@ == self@,
    {
        let r = vstd::slice::slice_subrange(self.buf.as_slice(), self.pos, self.buf.len());
        assert(r@ =~= self@);
        r
    }

    /// Whether something is left to send.
    pub fn wants_write(&self) -> (r: bool)
        requires
            self.wf(),
        ensures
            r == (self@.len() > 0),
    {
        self.pos < self.buf.len()
    }

    /// The socket has taken `n` bytes. A socket that takes none is closed.
    pub fn wrote(&mut self, n: usize) -> (r: Result<(), Error>)
        requires
            old(self).wf(),
            n <= old(self)@.len(),
        ensures
            final(self).wf(),
            final(self)@ == old(self)@.skip(n as int),
            r == if n == 0 {
                Err::<(), Error>(Error::Protocol("write returned 0 (peer closed)"))
            } else {
                Ok(())
            },
    {
        let ghost left = self@;
        let len: usize = self.buf.len();
        assert(self.pos + n <= len);
        self.pos = self.pos + n;
        assert(self@ =~= left.skip(n as int));
        if self.pos == len {
            self.buf.clear();
            self.pos = 0;
            assert(self@ =~= left.skip(n as int));
        }
        if n == 0 {
            return Err(Error::Protocol("write returned 0 (peer closed)"));
        }
        Ok(())
    }
}

} // verus!
