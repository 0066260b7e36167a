//! The client for asynchronous transports: one operation at a time, with
//! nothing but a connection behind it.

use super::session::{
    follows, Ask, Await, Collect, Next, Script, ScriptView, Session, SessionView, Step,
};
use super::state::awaited;
use crate::channel::layout::{asks_for_connection, lemma_direct_connection_layout};
use crate::channel::model::{ConnectionView, EventView};
use crate::channel::open::ChannelOpenView;
use crate::channel::request::ChannelRequestView;
use crate::channel::{
    ChannelEvent, ChannelOpen, ChannelRequest, ConnectionState, DEFAULT_MAX_PACKET, DEFAULT_WINDOW,
    MSG_CHANNEL_OPEN,
};
use crate::error::Error;
use crate::text::{opt_view, views};
use std::collections::VecDeque;
use vstd::prelude::*;

verus! {

/// How much is read from the transport at once.
pub const READ_CHUNK: usize = 16_384;

/// Run a command and collect its output.
pub open spec fn async_exec_script(command: Seq<char>) -> ScriptView {
    ScriptView {
        kind: ChannelOpenView::Session,
        stuck: "open: loop did not converge",
        failed: "channel open failed",
        asks: seq![
            awaited(
                ChannelRequestView::Exec { command },
                "exec: request loop did not converge",
                "exec request denied",
            ),
        ],
        feed: None,
        collect: Some(
            Collect {
                echo_eof: true,
                data_only: false,
                too_large: "exec output too large",
                stuck: "exec: drain loop did not converge",
            },
        ),
    }
}

/// Open a channel.
pub open spec fn async_open_script(kind: ChannelOpenView) -> ScriptView {
    ScriptView {
        kind,
        stuck: "open: loop did not converge",
        failed: "channel open failed",
        asks: Seq::empty(),
        feed: None,
        collect: None,
    }
}

/// The outcome of starting a script.
pub open spec fn started(
    before: ConnectionView,
    after: ConnectionView,
    r: (Session, Step),
    script: ScriptView,
) -> bool {
    let (conn, channel, payload) = before.open(script.kind);
    &&& r.0@.wf()
    &&& r.0@ == SessionView::opening(script, channel)
    &&& after == conn
    &&& views(r.1.send@) == seq![payload]
    &&& r.1.next == Next::Wait
}

/// An asynchronous client, as far as it is not a transport.
#[derive(Debug)]
pub struct AsyncClient {
    conn: ConnectionState,
}

impl View for AsyncClient {
    type V = ConnectionView;

    closed spec fn view(&self) -> ConnectionView {
        self.conn@
    }
}

impl AsyncClient {
    /// A client with no channels.
    pub fn new() -> (r: AsyncClient)
        ensures
            r@.channels == Map::<u32, crate::channel::model::ChannelView>::empty(),
            r@.next_local_id == 0,
            r@.default_window == DEFAULT_WINDOW,
            r@.default_max_packet == DEFAULT_MAX_PACKET,
    {
        AsyncClient { conn: ConnectionState::new() }
    }

    /// The channels.
    pub fn conn_mut(&mut self) -> (r: &mut ConnectionState)
        ensures
            r@ == old(self)@,
            final(self)@ == final(r)@,
    {
        &mut self.conn
    }

    /// Run a command and collect its stdout, stderr and exit status.
    pub fn exec(&mut self, command: &str) -> (r: (Session, Step))
        requires
            old(self)@.has_room(),
        ensures
            started(old(self)@, final(self)@, r, async_exec_script(command@)),
    {
        let mut asks: VecDeque<Ask> = VecDeque::new();
        asks.push_back(
            Ask {
                request: ChannelRequest::Exec { command: command.to_owned() },
                reply: Some(
                    Await {
                        stuck: "exec: request loop did not converge",
                        denied: "exec request denied",
                    },
                ),
            },
        );
        assert(views(asks@) =~= async_exec_script(command@).asks);
        Session::start(
            Script {
                kind: ChannelOpen::Session,
                stuck: "open: loop did not converge",
                failed: "channel open failed",
                asks,
                feed: None,
                collect: Some(
                    Collect {
                        echo_eof: true,
                        data_only: false,
                        too_large: "exec output too large",
                        stuck: "exec: drain loop did not converge",
                    },
                ),
            },
            &mut self.conn,
        )
    }

    /// Open a channel over which the server proxies a TCP connection.
    pub fn open_direct_tcpip(
        &mut self,
        dest_host: &str,
        dest_port: u16,
        orig_host: &str,
        orig_port: u16,
    ) -> (r: (Session, Step))
        requires
            old(self)@.has_room(),
        ensures
            started(
                old(self)@,
                final(self)@,
                r,
                async_open_script(
                    ChannelOpenView::DirectTcpip {
                        dest_host: dest_host@,
                        dest_port: dest_port as u32,
                        orig_host: orig_host@,
                        orig_port: orig_port as u32,
                    },
                ),
            ),
            r.1.send@.len() == 1,
            asks_for_connection(
                r.1.send@[0]@,
                r.0@.channel,
                old(self)@,
                dest_host@,
                dest_port as u32,
                orig_host@,
                orig_port as u32,
            ),
    {
        let ghost before = self@;
        let asks: VecDeque<Ask> = VecDeque::new();
        assert(views(asks@) =~= Seq::empty());
        let r = Session::start(
            Script {
                kind: ChannelOpen::DirectTcpip {
                    dest_host: dest_host.to_owned(),
                    dest_port: dest_port as u32,
                    orig_host: orig_host.to_owned(),
                    orig_port: orig_port as u32,
                },
                stuck: "open: loop did not converge",
                failed: "channel open failed",
                asks,
                feed: None,
                collect: None,
            },
            &mut self.conn,
        );
        proof {
            lemma_direct_connection_layout(
                before,
                dest_host@,
                dest_port as u32,
                orig_host@,
                orig_port as u32,
            );
            assert(views(r.1.send@).len() == 1);
            assert(views(r.1.send@)[0] == r.1.send@[0]@);
        }
        r
    }

    /// Hand an inbound payload to a session.
    pub fn on_payload(&mut self, session: &mut Session, payload: &[u8]) -> (step: Step)
        requires
            old(session)@.wf(),
            payload@.len() > 0 && payload@[0] == MSG_CHANNEL_OPEN ==> old(self)@.has_room(),
        ensures
            final(session)@.wf(),
            follows(
                final(self)@,
                final(session)@,
                step,
                old(session)@.on_payload(old(self)@, payload@),
            ),
    {
        session.on_payload(&mut self.conn, payload)
    }
}

/// A raw byte channel.
#[verifier::ext_equal]
pub ghost struct AsyncChannelView {
    pub channel: u32,
    pub read_buf: Seq<u8>,
    pub remote_eof: bool,
    pub close_sent: bool,
}

/// What an inbound payload leads to.
#[verifier::ext_equal]
pub ghost struct Took {
    pub conn: ConnectionView,
    pub channel: AsyncChannelView,
    pub send: Option<Seq<u8>>,
    pub result: Result<(), Error>,
}

impl AsyncChannelView {
    /// A payload that arrives while a read waits: data is kept and credited,
    /// EOF and CLOSE end the stream, all else is dropped.
    pub open spec fn on_payload(self, conn: ConnectionView, payload: Seq<u8>) -> Took {
        match conn.on_packet(payload) {
            Err(e) => Took { conn, channel: self, send: None, result: Err(e) },
            Ok((after, event)) => {
                let ignore = Took { conn: after, channel: self, send: None, result: Ok(()) };
                match event {
                    EventView::Data { channel, data } => if channel == self.channel {
                        let kept = AsyncChannelView { read_buf: self.read_buf + data, ..self };
                        match after.replenish_window(self.channel, data.len() as u32) {
                            Err(e) => Took { channel: kept, result: Err(e), ..ignore },
                            Ok((conn, adjust)) => Took {
                                conn,
                                channel: kept,
                                send: adjust,
                                result: Ok(()),
                            },
                        }
                    } else {
                        ignore
                    },
                    EventView::Eof { channel } => if channel == self.channel {
                        Took { channel: AsyncChannelView { remote_eof: true, ..self }, ..ignore }
                    } else {
                        ignore
                    },
                    EventView::Close { channel } => if channel == self.channel {
                        Took { channel: AsyncChannelView { remote_eof: true, ..self }, ..ignore }
                    } else {
                        ignore
                    },
                    _ => ignore,
                }
            },
        }
    }

    /// Write as much as the peer's window lets through. A message is sent
    /// even if it has room for nothing. The bytes written, what is sent, the
    /// connection afterwards, and the error if there is one.
    pub open spec fn write(
        self,
        conn: ConnectionView,
        data: Seq<u8>,
        send: Seq<Seq<u8>>,
    ) -> Wrote
        decreases data.len(),
    {
        if data.len() == 0 {
            Wrote { conn, written: 0, send, result: Ok(()) }
        } else {
            match conn.send_data(self.channel, data) {
                Err(e) => Wrote { conn, written: 0, send, result: Err(e) },
                Ok((after, payload, n)) => if n <= 0 {
                    Wrote { conn: after, written: 0, send: send.push(payload), result: Ok(()) }
                } else {
                    let rest = self.write(after, data.skip(n), send.push(payload));
                    Wrote { written: (n + rest.written) as nat, ..rest }
                },
            }
        }
    }
}

/// What a write comes to.
#[verifier::ext_equal]
pub ghost struct Wrote {
    pub conn: ConnectionView,
    pub written: nat,
    pub send: Seq<Seq<u8>>,
    pub result: Result<(), Error>,
}

/// What a write comes to.
#[derive(Debug)]
pub struct AsyncWrite {
    /// Payloads to transmit, in order, even if `result` is an error.
    pub send: Vec<Vec<u8>>,
    /// How many of the bytes they carry. If these are not all, the peer's
    /// window is full: hand the next inbound payload to
    /// [`AsyncChannel::absorb`] and write the rest.
    pub written: usize,
    /// Whether the channel can be written to.
    pub result: Result<(), Error>,
}

/// A raw byte channel.
#[derive(Debug)]
pub struct AsyncChannel {
    channel: u32,
    read_buf: Vec<u8>,
    remote_eof: bool,
    close_sent: bool,
}

impl View for AsyncChannel {
    type V = AsyncChannelView;

    closed spec fn view(&self) -> AsyncChannelView {
        AsyncChannelView {
            channel: self.channel,
            read_buf: self.read_buf@,
            remote_eof: self.remote_eof,
            close_sent: self.close_sent,
        }
    }
}

impl AsyncChannel {
    /// A channel that has just become ready.
    pub fn new(channel: u32) -> (r: AsyncChannel)
        ensures
            r@ == (AsyncChannelView {
                channel,
                read_buf: Seq::empty(),
                remote_eof: false,
                close_sent: false,
            }),
    {
        let r = AsyncChannel {
            channel,
            read_buf: Vec::new(),
            remote_eof: false,
            close_sent: false,
        };
        assert(r@.read_buf =~= Seq::empty());
        r
    }

    /// Read up to `len` bytes. `None` asks for the next inbound payload, by
    /// [`Self::on_payload`]; an empty read is the end of the stream, unless
    /// nothing was asked for.
    pub fn read(&mut self, len: usize) -> (r: Option<Vec<u8>>)
        ensures
            match r {
                None => {
                    &&& old(self)@.read_buf.len() == 0
                    &&& !old(self)@.remote_eof
                    &&& final(self)@ == old(self)@
                },
                Some(bytes) => {
                    let n = if len < old(self)@.read_buf.len() {
                        len as int
                    } else {
                        old(self)@.read_buf.len() as int
                    };
                    &&& old(self)@.read_buf.len() > 0 || old(self)@.remote_eof
                    &&& bytes@ == old(self)@.read_buf.take(n)
                    &&& final(self)@ == (AsyncChannelView {
                        read_buf: old(self)@.read_buf.skip(n),
                        ..old(self)@
                    })
                },
            },
    {
        let have: usize = self.read_buf.len();
        if have == 0 && !self.remote_eof {
            return None;
        }
        let n: usize = if len < have {
            len
        } else {
            have
        };
        let first = vstd::slice::slice_to_vec(
            vstd::slice::slice_subrange(self.read_buf.as_slice(), 0, n),
        );
        let rest = vstd::slice::slice_to_vec(
            vstd::slice::slice_subrange(self.read_buf.as_slice(), n, have),
        );
        assert(first@ =~= self@.read_buf.take(n as int));
        assert(rest@ =~= self@.read_buf.skip(n as int));
        self.read_buf = rest;
        Some(first)
    }

    /// Take an inbound payload while a read waits. What is given back is to be
    /// transmitted.
    pub fn on_payload(&mut self, conn: &mut ConnectionState, payload: &[u8]) -> (r: (
        Option<Vec<u8>>,
        Result<(), Error>,
    ))
        requires
            payload@.len() > 0 && payload@[0] == MSG_CHANNEL_OPEN ==> old(conn)@.has_room(),
        ensures
            old(self)@.on_payload(old(conn)@, payload@) == (Took {
                conn: final(conn)@,
                channel: final(self)@,
                send: opt_view(r.0),
                result: r.1,
            }),
    {
        let event = match conn.on_packet(payload) {
            Err(e) => return (None, Err(e)),
            Ok(event) => event,
        };
        match event {
            ChannelEvent::Data { channel, data } => {
                if channel == self.channel {
                    self.read_buf.extend_from_slice(data.as_slice());
                    assert(self@.read_buf =~= old(self)@.read_buf + data@);
                    return match conn.replenish_window(self.channel, data.len() as u32) {
                        Err(e) => (None, Err(e)),
                        Ok(adjust) => (adjust, Ok(())),
                    };
                }
            },
            ChannelEvent::Eof { channel } => {
                if channel == self.channel {
                    self.remote_eof = true;
                }
            },
            ChannelEvent::Close { channel } => {
                if channel == self.channel {
                    self.remote_eof = true;
                }
            },
            _ => {},
        }
        (None, Ok(()))
    }

    /// Write as much as the peer's window lets through.
    pub fn write(&self, conn: &mut ConnectionState, data: &[u8]) -> (r: AsyncWrite)
        ensures
            self@.write(old(conn)@, data@, Seq::empty()) == (Wrote {
                conn: final(conn)@,
                written: r.written as nat,
                send: views(r.send@),
                result: r.result,
            }),
            r.written <= data@.len(),
    {
        let mut send: Vec<Vec<u8>> = Vec::new();
        let mut off: usize = 0;
        let len: usize = data.len();
        let ghost model = self@.write(conn@, data@, Seq::empty());
        assert(data@.skip(0) =~= data@);
        assert(views(send@) =~= Seq::<Seq<u8>>::empty());
        while off < len
            invariant
                off <= len,
                len == data@.len(),
                ({
                    let rest = self@.write(conn@, data@.skip(off as int), views(send@));
                    model == (Wrote { written: rest.written + off as nat, ..rest })
                }),
                model == self@.write(old(conn)@, data@, Seq::empty()),
            decreases len - off,
        {
            let rest = vstd::slice::slice_subrange(data, off, len);
            assert(rest@ =~= data@.skip(off as int));
            match conn.send_data(self.channel, rest) {
                Err(e) => return AsyncWrite { send, written: off, result: Err(e) },
                Ok((payload, taken)) => {
                    assert(views(send@.push(payload)) =~= views(send@).push(payload@));
                    assert(rest@.skip(taken as int) =~= data@.skip(off + taken));
                    send.push(payload);
                    if taken == 0 {
                        return AsyncWrite { send, written: off, result: Ok(()) };
                    }
                    off = off + taken;
                },
            }
        }
        AsyncWrite { send, written: off, result: Ok(()) }
    }

    /// Take an inbound payload while a write waits for the peer's window.
    /// What it says is dropped, apart from what the connection makes of it.
    pub fn absorb(&self, conn: &mut ConnectionState, payload: &[u8]) -> (r: Result<(), Error>)
        requires
            payload@.len() > 0 && payload@[0] == MSG_CHANNEL_OPEN ==> old(conn)@.has_room(),
        ensures
            match old(conn)@.on_packet(payload@) {
                Ok((after, _)) => r == Ok::<(), Error>(()) && final(conn)@ == after,
                Err(e) => r == Err::<(), Error>(e) && final(conn)@ == old(conn)@,
            },
    {
        match conn.on_packet(payload) {
            Ok(_) => Ok(()),
            Err(e) => Err(e),
        }
    }

    /// The EOF that half-closes the channel.
    pub fn send_eof(&self, conn: &mut ConnectionState) -> (r: Result<Vec<u8>, Error>)
        ensures
            crate::channel::state::sent(
                old(conn)@,
                final(conn)@,
                r,
                old(conn)@.send_eof(self@.channel),
            ),
    {
        conn.send_eof(self.channel)
    }

    /// The CLOSE that closes the channel, unless it has been sent.
    pub fn close(&mut self, conn: &mut ConnectionState) -> (r: Result<Option<Vec<u8>>, Error>)
        ensures
            if old(self)@.close_sent {
                &&& r == Ok::<Option<Vec<u8>>, Error>(None)
                &&& final(self)@ == old(self)@
                &&& final(conn)@ == old(conn)@
            } else {
                match old(conn)@.send_close(old(self)@.channel) {
                    Ok((after, payload)) => {
                        &&& r matches Ok(Some(p))
                        &&& p@ == payload
                        &&& final(conn)@ == after
                        &&& final(self)@ == (AsyncChannelView { close_sent: true, ..old(self)@ })
                    },
                    Err(e) => {
                        &&& r == Err::<Option<Vec<u8>>, Error>(e)
                        &&& final(self)@ == old(self)@
                        &&& final(conn)@ == old(conn)@
                    },
                }
            },
    {
        if self.close_sent {
            return Ok(None);
        }
        match conn.send_close(self.channel) {
            Ok(payload) => {
                self.close_sent = true;
                Ok(Some(payload))
            },
            Err(e) => Err(e),
        }
    }
}

} // verus!
