//! A single open channel as a byte stream.
//!
//! [`ChannelPump`] holds what has arrived and not been read yet. It never
//! blocks: where a read or a write cannot go on without the peer, it says so,
//! and the frontend hands over the next inbound payload and tries again.

use crate::channel::model::{ConnectionView, EventView};
use crate::channel::{ChannelEvent, ConnectionState, MSG_CHANNEL_OPEN};
use crate::error::Error;
use crate::text::{opt_view, views};
use vstd::prelude::*;

verus! {

/// How many packets a stream that is given up still waits for the peer's
/// CLOSE.
pub const MAX_DRAIN: usize = 128;

/// A channel's unread bytes, and how far it is closed.
#[verifier::ext_equal]
pub ghost struct PumpView {
    pub channel: u32,
    pub read_buf: Seq<u8>,
    pub stderr_buf: Seq<u8>,
    pub remote_eof: bool,
    pub local_close_sent: bool,
}

/// What an inbound payload leads to.
#[verifier::ext_equal]
pub ghost struct Pumped {
    pub conn: ConnectionView,
    pub pump: PumpView,
    pub send: Option<Seq<u8>>,
    pub result: Result<(), Error>,
}

impl PumpView {
    /// A channel on which nothing has arrived.
    pub open spec fn fresh(channel: u32) -> PumpView {
        PumpView {
            channel,
            read_buf: Seq::empty(),
            stderr_buf: Seq::empty(),
            remote_eof: false,
            local_close_sent: false,
        }
    }

    /// Credit `n` received bytes to the peer.
    pub open spec fn credit(self, conn: ConnectionView, n: u32) -> Pumped {
        match conn.replenish_window(self.channel, n) {
            Err(e) => Pumped { conn, pump: self, send: None, result: Err(e) },
            Ok((after, adjust)) => Pumped {
                conn: after,
                pump: self,
                send: adjust,
                result: Ok(()),
            },
        }
    }

    /// An event: data and extended data are kept apart and credited, EOF and
    /// CLOSE end the stream, and CLOSE is answered once.
    pub open spec fn on_event(self, conn: ConnectionView, event: EventView) -> Pumped {
        let ignore = Pumped { conn, pump: self, send: None, result: Ok(()) };
        match event {
            EventView::Data { channel, data } => if channel == self.channel {
                PumpView { read_buf: self.read_buf + data, ..self }.credit(conn, data.len() as u32)
            } else {
                ignore
            },
            EventView::ExtendedData { channel, data, .. } => if channel == self.channel {
                PumpView { stderr_buf: self.stderr_buf + data, ..self }.credit(
                    conn,
                    data.len() as u32,
                )
            } else {
                ignore
            },
            EventView::Eof { channel } => if channel == self.channel {
                Pumped { pump: PumpView { remote_eof: true, ..self }, ..ignore }
            } else {
                ignore
            },
            EventView::Close { channel } => if channel == self.channel {
                let ended = PumpView { remote_eof: true, ..self };
                if self.local_close_sent {
                    Pumped { pump: ended, ..ignore }
                } else {
                    match conn.send_close(self.channel) {
                        Err(e) => Pumped { conn, pump: ended, send: None, result: Err(e) },
                        Ok((after, payload)) => Pumped {
                            conn: after,
                            pump: PumpView { local_close_sent: true, ..ended },
                            send: Some(payload),
                            result: Ok(()),
                        },
                    }
                }
            } else {
                ignore
            },
            _ => ignore,
        }
    }

    /// An inbound payload.
    pub open spec fn on_payload(self, conn: ConnectionView, payload: Seq<u8>) -> Pumped {
        match conn.on_packet(payload) {
            Err(e) => Pumped { conn, pump: self, send: None, result: Err(e) },
            Ok((after, event)) => self.on_event(after, event),
        }
    }

    /// The first `n` unread bytes, and the stream without them.
    pub open spec fn take(self, n: int) -> (Seq<u8>, PumpView) {
        (self.read_buf.take(n), PumpView { read_buf: self.read_buf.skip(n), ..self })
    }
}

/// What a read gives.
#[derive(Debug)]
pub enum ReadStep {
    /// Some bytes, or none if none were asked for or the stream has ended.
    Bytes(Vec<u8>),
    /// Nothing has arrived yet: hand over the next inbound payload.
    Wait,
}

/// What a write gives.
#[derive(Debug)]
pub enum WriteStep {
    /// Transmit the payload; it carries that many of the bytes.
    Sent(Vec<u8>, usize),
    /// There was nothing to write.
    Nothing,
    /// The peer's window is full: hand over the next inbound payload.
    Wait,
    /// The peer is gone and its window is full.
    BrokenPipe(&'static str),
    /// The channel cannot be written to.
    Failed(Error),
}

/// An open channel as a byte stream.
#[derive(Debug)]
pub struct ChannelPump {
    channel: u32,
    read_buf: Vec<u8>,
    stderr_buf: Vec<u8>,
    remote_eof: bool,
    local_close_sent: bool,
}

impl View for ChannelPump {
    type V = PumpView;

    closed spec fn view(&self) -> PumpView {
        PumpView {
            channel: self.channel,
            read_buf: self.read_buf@,
            stderr_buf: self.stderr_buf@,
            remote_eof: self.remote_eof,
            local_close_sent: self.local_close_sent,
        }
    }
}

/// The bytes of `buf` from `n` on.
fn rest_of(buf: &Vec<u8>, n: usize) -> (r: Vec<u8>)
    requires
        n <= buf@.len(),
    ensures
        r@ == buf@.skip(n as int),
{
    let rest = vstd::slice::slice_subrange(buf.as_slice(), n, buf.len());
    let r = vstd::slice::slice_to_vec(rest);
    assert(r@ =~= buf@.skip(n as int));
    r
}

impl ChannelPump {
    /// The stream of a channel that has just become ready.
    pub fn new(channel: u32) -> (r: ChannelPump)
        ensures
            r@ == PumpView::fresh(channel),
    {
        let r = ChannelPump {
            channel,
            read_buf: Vec::new(),
            stderr_buf: Vec::new(),
            remote_eof: false,
            local_close_sent: false,
        };
        assert(r@ =~= PumpView::fresh(channel));
        r
    }

    /// Take the standard error that has arrived so far, leaving none.
    pub fn take_stderr(&mut self) -> (r: Vec<u8>)
        ensures
            r@ == old(self)@.stderr_buf,
            final(self)@ == (PumpView { stderr_buf: Seq::empty(), ..old(self)@ }),
    {
        let mut r: Vec<u8> = Vec::new();
        std::mem::swap(&mut r, &mut self.stderr_buf);
        assert(self@.stderr_buf =~= Seq::empty());
        r
    }

    /// Whether the peer has said that it sends nothing more.
    pub fn remote_eof(&self) -> (r: bool)
        ensures
            r == self@.remote_eof,
    {
        self.remote_eof
    }

    /// Credit `n` received bytes to the peer.
    fn credit(&self, conn: &mut ConnectionState, n: u32) -> (r: (Option<Vec<u8>>, Result<(), Error>))
        ensures
            self@.credit(old(conn)@, n) == (Pumped {
                conn: final(conn)@,
                pump: self@,
                send: opt_view(r.0),
                result: r.1,
            }),
    {
        match conn.replenish_window(self.channel, n) {
            Err(e) => (None, Err(e)),
            Ok(adjust) => (adjust, Ok(())),
        }
    }

    /// Take an inbound payload, whatever channel it is about. What is given
    /// back is to be transmitted, even if the second part is an error.
    pub fn pump_one(&mut self, conn: &mut ConnectionState, payload: &[u8]) -> (r: (
        Option<Vec<u8>>,
        Result<(), Error>,
    ))
        requires
            payload@.len() > 0 && payload@[0] == MSG_CHANNEL_OPEN ==> old(conn)@.has_room(),
        ensures
            old(self)@.on_payload(old(conn)@, payload@) == (Pumped {
                conn: final(conn)@,
                pump: final(self)@,
                send: opt_view(r.0),
                result: r.1,
            }),
    {
        let event = match conn.on_packet(payload) {
            Err(e) => return (None, Err(e)),
            Ok(event) => event,
        };
        match event {
            ChannelEvent::Data { channel, data } => {
                if channel == self.channel {
                    self.read_buf.extend_from_slice(data.as_slice());
                    assert(self@.read_buf =~= old(self)@.read_buf + data@);
                    return self.credit(conn, data.len() as u32);
                }
            },
            ChannelEvent::ExtendedData { channel, data, .. } => {
                if channel == self.channel {
                    self.stderr_buf.extend_from_slice(data.as_slice());
                    assert(self@.stderr_buf =~= old(self)@.stderr_buf + data@);
                    return self.credit(conn, data.len() as u32);
                }
            },
            ChannelEvent::Eof { channel } => {
                if channel == self.channel {
                    self.remote_eof = true;
                }
            },
            ChannelEvent::Close { channel } => {
                if channel == self.channel {
                    self.remote_eof = true;
                    if !self.local_close_sent {
                        match conn.send_close(self.channel) {
                            Err(e) => return (None, Err(e)),
                            Ok(payload) => {
                                self.local_close_sent = true;
                                return (Some(payload), Ok(()));
                            },
                        }
                    }
                }
            },
            _ => {},
        }
        (None, Ok(()))
    }

    /// Read up to `len` bytes. Bytes that have arrived are given before the
    /// end of the stream is; an end of the stream is an empty read.
    pub fn read(&mut self, len: usize) -> (r: ReadStep)
        ensures
            match r {
                ReadStep::Wait => {
                    &&& len > 0
                    &&& old(self)@.read_buf.len() == 0
                    &&& !old(self)@.remote_eof
                    &&& final(self)@ == old(self)@
                },
                ReadStep::Bytes(b) => {
                    let n = if len < old(self)@.read_buf.len() {
                        len as int
                    } else {
                        old(self)@.read_buf.len() as int
                    };
                    &&& len == 0 || old(self)@.read_buf.len() > 0 || old(self)@.remote_eof
                    &&& (b@, final(self)@) == old(self)@.take(n)
                },
            },
    {
        if len == 0 {
            let none: Vec<u8> = Vec::new();
            assert(none@ =~= self@.read_buf.take(0));
            assert(self@.read_buf.skip(0) =~= self@.read_buf);
            return ReadStep::Bytes(none);
        }
        if self.read_buf.is_empty() && !self.remote_eof {
            return ReadStep::Wait;
        }
        let have: usize = self.read_buf.len();
        let n: usize = if len < have {
            len
        } else {
            have
        };
        let first = vstd::slice::slice_subrange(self.read_buf.as_slice(), 0, n);
        let bytes = vstd::slice::slice_to_vec(first);
        assert(bytes@ =~= self@.read_buf.take(n as int));
        self.read_buf = rest_of(&self.read_buf, n);
        ReadStep::Bytes(bytes)
    }

    /// Write as many of the bytes as the peer's window lets through.
    pub fn write(&self, conn: &mut ConnectionState, buf: &[u8]) -> (r: WriteStep)
        ensures
            if buf@.len() == 0 {
                r is Nothing && final(conn)@ == old(conn)@
            } else {
                match old(conn)@.send_data(self@.channel, buf@) {
                    Err(e) => r == WriteStep::Failed(e) && final(conn)@ == old(conn)@,
                    Ok((after, payload, n)) => {
                        &&& final(conn)@ == after
                        &&& if n > 0 {
                            r matches WriteStep::Sent(p, k) && p@ == payload && k == n
                        } else if self@.remote_eof {
                            r == WriteStep::BrokenPipe("channel closed by peer mid-write")
                        } else {
                            r is Wait
                        }
                    },
                }
            },
    {
        if buf.len() == 0 {
            return WriteStep::Nothing;
        }
        match conn.send_data(self.channel, buf) {
            Err(e) => WriteStep::Failed(e),
            Ok((payload, taken)) => {
                if taken > 0 {
                    WriteStep::Sent(payload, taken)
                } else if self.remote_eof {
                    WriteStep::BrokenPipe("channel closed by peer mid-write")
                } else {
                    WriteStep::Wait
                }
            },
        }
    }

    /// Give the stream up: the EOF and the CLOSE to transmit, as far as the
    /// channel still takes them. Nothing is sent twice.
    pub fn close(&mut self, conn: &mut ConnectionState) -> (r: Vec<Vec<u8>>)
        ensures
            final(self)@ == (PumpView { local_close_sent: true, ..old(self)@ }),
            (final(conn)@, views(r@)) == old(self)@.closing(old(conn)@),
    {
        let mut send: Vec<Vec<u8>> = Vec::new();
        if !self.local_close_sent {
            if let Ok(payload) = conn.send_eof(self.channel) {
                send.push(payload);
            }
            if let Ok(payload) = conn.send_close(self.channel) {
                send.push(payload);
            }
            self.local_close_sent = true;
        }
        assert(views(send@) =~= old(self)@.closing(old(conn)@).1);
        send
    }

    /// Whether a stream that was given up waits for another packet, after it
    /// has waited for `drained` of them.
    pub fn wants_drain(&self, drained: usize) -> (r: bool)
        ensures
            r == (drained < MAX_DRAIN && !self@.remote_eof),
    {
        drained < MAX_DRAIN && !self.remote_eof
    }
}

impl PumpView {
    /// What giving the stream up does to the connection, and what it sends.
    pub open spec fn closing(self, conn: ConnectionView) -> (ConnectionView, Seq<Seq<u8>>) {
        if self.local_close_sent {
            (conn, Seq::empty())
        } else {
            let (c1, s1) = match conn.send_eof(self.channel) {
                Ok((after, payload)) => (after, seq![payload]),
                Err(_) => (conn, Seq::empty()),
            };
            match c1.send_close(self.channel) {
                Ok((after, payload)) => (after, s1.push(payload)),
                Err(_) => (c1, s1),
            }
        }
    }
}

/// Reading loses nothing and reorders nothing: two reads give what one read
/// of both lengths would have given, and leave the same.
pub proof fn lemma_reads_add_up(pump: PumpView, a: int, b: int)
    requires
        0 <= a,
        0 <= b,
        a + b <= pump.read_buf.len(),
    ensures
        pump.take(a).0 + pump.take(a).1.take(b).0 == pump.take(a + b).0,
        pump.take(a).1.take(b).1 == pump.take(a + b).1,
{
    assert(pump.take(a).0 + pump.take(a).1.take(b).0 =~= pump.take(a + b).0);
    assert(pump.take(a).1.take(b).1.read_buf =~= pump.take(a + b).1.read_buf);
}

/// Data for another channel changes nothing about a stream.
pub proof fn lemma_other_channels_are_left_alone(
    pump: PumpView,
    conn: ConnectionView,
    event: EventView,
)
    requires
        match event {
            EventView::Data { channel, .. } => channel != pump.channel,
            EventView::ExtendedData { channel, .. } => channel != pump.channel,
            EventView::Eof { channel } => channel != pump.channel,
            EventView::Close { channel } => channel != pump.channel,
            _ => true,
        },
    ensures
        pump.on_event(conn, event) == (Pumped { conn, pump, send: None, result: Ok(()) }),
{
}

} // verus!
