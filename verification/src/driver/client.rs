//! The client's side of a connection: a [`Driver`], the channels, and how far
//! authentication has come.
//!
//! Payloads to send are queued in the order in which they are to be sealed;
//! the frontend takes them with [`ClientDriver::poll_transmit`] after every
//! call.

use super::{Driver, DriverView, Event, EventView};
use crate::channel::model::{
    global_payload, ChannelView, ConnectionView, EventView as ChannelEventView,
};
use crate::channel::open::ChannelOpenView;
use crate::channel::{
    ChannelEvent, ChannelOpen, ChannelRequest, ConnectionState, GlobalRequest, DEFAULT_MAX_PACKET,
    DEFAULT_WINDOW, MSG_CHANNEL_OPEN,
};
use crate::client::pump::AuthStep;
use crate::error::Error;
use crate::text::views;
use std::collections::VecDeque;
use vstd::prelude::*;

verus! {

/// How far authentication has come.
#[derive(Debug, Clone, Copy, PartialEq, Eq, Structural)]
pub enum AuthPhase {
    /// It has not begun.
    Ready,
    /// It is running.
    Running,
    /// The peer has turned us down.
    Refused,
    /// The peer has let us in.
    Established,
}

/// What happened.
#[derive(Debug)]
pub enum ClientEvent {
    /// The connection is ready for authentication.
    HandshakeComplete,
    /// A payload for the authentication engine; go on with
    /// [`ClientDriver::on_auth_step`].
    AuthPacket(Vec<u8>),
    /// The peer has let us in.
    AuthSuccess,
    /// The peer has turned us down.
    AuthFailure,
    /// The peer has something to say to the user.
    AuthBanner {
        /// What it says.
        message: String,
        /// The language tag of the message.
        language: String,
    },
    /// Something happened to a channel.
    Channel(ChannelEvent),
}

/// What happened.
#[verifier::ext_equal]
pub ghost enum ClientEventView {
    HandshakeComplete,
    AuthPacket(Seq<u8>),
    AuthSuccess,
    AuthFailure,
    AuthBanner { message: Seq<char>, language: Seq<char> },
    Channel(ChannelEventView),
}

impl View for ClientEvent {
    type V = ClientEventView;

    open spec fn view(&self) -> ClientEventView {
        match self {
            ClientEvent::HandshakeComplete => ClientEventView::HandshakeComplete,
            ClientEvent::AuthPacket(p) => ClientEventView::AuthPacket(p@),
            ClientEvent::AuthSuccess => ClientEventView::AuthSuccess,
            ClientEvent::AuthFailure => ClientEventView::AuthFailure,
            ClientEvent::AuthBanner { message, language } => ClientEventView::AuthBanner {
                message: message@,
                language: language@,
            },
            ClientEvent::Channel(ev) => ClientEventView::Channel(ev@),
        }
    }
}

/// A client's side of a connection.
#[verifier::ext_equal]
pub ghost struct ClientDriverView {
    pub driver: DriverView,
    pub conn: ConnectionView,
    pub auth: AuthPhase,
    /// Payloads that wait to be sealed.
    pub outbox: Seq<Seq<u8>>,
}

impl ClientDriverView {
    /// A payload is sent: it is queued, or held back while keys are exchanged.
    pub open spec fn ship(self, payload: Seq<u8>, kexing: bool) -> (
        ClientDriverView,
        Result<(), Error>,
    ) {
        let (driver, r) = self.driver.send(payload, kexing);
        let kept = ClientDriverView { driver, ..self };
        match r {
            Err(e) => (kept, Err(e)),
            Ok(None) => (kept, Ok(())),
            Ok(Some(p)) => (ClientDriverView { outbox: self.outbox.push(p), ..kept }, Ok(())),
        }
    }

    /// A payload that the channels have made is sent, or their error stands.
    pub open spec fn ship_made(
        self,
        made: Result<(ConnectionView, Seq<u8>), Error>,
        kexing: bool,
    ) -> (ClientDriverView, Result<(), Error>) {
        match made {
            Err(e) => (self, Err(e)),
            Ok((conn, payload)) => ClientDriverView { conn, ..self }.ship(payload, kexing),
        }
    }

    /// A new channel.
    pub open spec fn open_channel(self, kind: ChannelOpenView, kexing: bool) -> (
        ClientDriverView,
        Result<u32, Error>,
    ) {
        let (conn, id, payload) = self.conn.open(kind);
        let (s, r) = ClientDriverView { conn, ..self }.ship(payload, kexing);
        (
            s,
            match r {
                Ok(_) => Ok(id),
                Err(e) => Err(e),
            },
        )
    }

    /// Data for a channel, as far as the peer's window goes.
    pub open spec fn send_data(self, channel: u32, data: Seq<u8>, kexing: bool) -> (
        ClientDriverView,
        Result<int, Error>,
    ) {
        match self.conn.send_data(channel, data) {
            Err(e) => (self, Err(e)),
            Ok((conn, payload, n)) => {
                let (s, r) = ClientDriverView { conn, ..self }.ship(payload, kexing);
                (
                    s,
                    match r {
                        Ok(_) => Ok(n),
                        Err(e) => Err(e),
                    },
                )
            },
        }
    }

    /// Received bytes are credited back to the peer.
    pub open spec fn replenish(self, channel: u32, n: u32, kexing: bool) -> (
        ClientDriverView,
        Result<(), Error>,
    ) {
        match self.conn.replenish_window(channel, n) {
            Err(e) => (self, Err(e)),
            Ok((conn, None)) => (ClientDriverView { conn, ..self }, Ok(())),
            Ok((conn, Some(payload))) => ClientDriverView { conn, ..self }.ship(payload, kexing),
        }
    }

    /// The next event. A payload goes to the authentication engine while that
    /// runs, and to the channels otherwise.
    pub open spec fn next_event(self) -> (ClientDriverView, Result<Option<ClientEventView>, Error>) {
        if self.driver.events.len() == 0 {
            (self, Ok(None))
        } else {
            let driver = DriverView { events: self.driver.events.skip(1), ..self.driver };
            let popped = ClientDriverView { driver, ..self };
            match self.driver.events[0] {
                EventView::HandshakeComplete => (
                    popped,
                    Ok(Some(ClientEventView::HandshakeComplete)),
                ),
                EventView::AppData(payload) => match self.auth {
                    AuthPhase::Running => (popped, Ok(Some(ClientEventView::AuthPacket(payload)))),
                    AuthPhase::Refused => (
                        popped,
                        Err(Error::Protocol("auth packet with no auth driver")),
                    ),
                    _ => match self.conn.on_packet(payload) {
                        Ok((conn, ev)) => (
                            ClientDriverView { conn, ..popped },
                            Ok(Some(ClientEventView::Channel(ev))),
                        ),
                        Err(e) => (popped, Err(e)),
                    },
                },
            }
        }
    }

    /// Whether the channels can take the next event: a channel that the peer
    /// opens needs a number.
    pub open spec fn can_poll(self) -> bool {
        self.driver.events.len() > 0 ==> match self.driver.events[0] {
            EventView::AppData(p) => p.len() > 0 && p[0] == MSG_CHANNEL_OPEN
                ==> self.conn.has_room(),
            EventView::HandshakeComplete => true,
        }
    }

    /// The authentication engine has taken a payload.
    pub open spec fn on_auth_step(self, step: AuthStep, kexing: bool) -> (
        ClientDriverView,
        Result<Option<ClientEventView>, Error>,
    ) {
        if self.auth != AuthPhase::Running {
            (self, Err(Error::Protocol("auth packet with no auth driver")))
        } else {
            match step {
                AuthStep::Send(p) => {
                    let (s, r) = self.ship(p@, kexing);
                    (
                        s,
                        match r {
                            Ok(_) => Ok(None),
                            Err(e) => Err(e),
                        },
                    )
                },
                AuthStep::Success => (
                    ClientDriverView { auth: AuthPhase::Established, ..self },
                    Ok(Some(ClientEventView::AuthSuccess)),
                ),
                AuthStep::Failed => (
                    ClientDriverView { auth: AuthPhase::Refused, ..self },
                    Ok(Some(ClientEventView::AuthFailure)),
                ),
                AuthStep::Banner { message, language } => (
                    self,
                    Ok(
                        Some(
                            ClientEventView::AuthBanner {
                                message: message@,
                                language: language@,
                            },
                        ),
                    ),
                ),
                AuthStep::Idle => (self, Ok(None)),
            }
        }
    }
}

/// The client's side of a connection.
#[derive(Debug)]
pub struct ClientDriver {
    driver: Driver,
    conn: ConnectionState,
    auth: AuthPhase,
    outbox: VecDeque<Vec<u8>>,
}

impl View for ClientDriver {
    type V = ClientDriverView;

    closed spec fn view(&self) -> ClientDriverView {
        ClientDriverView {
            driver: self.driver@,
            conn: self.conn@,
            auth: self.auth,
            outbox: views(self.outbox@),
        }
    }
}

impl ClientDriver {
    /// A client's side at the start of a connection.
    pub fn new(now: u128) -> (r: ClientDriver)
        ensures
            r@.driver == DriverView::fresh(now),
            r@.conn.channels == Map::<u32, ChannelView>::empty(),
            r@.conn.next_local_id == 0,
            r@.conn.default_window == DEFAULT_WINDOW,
            r@.conn.default_max_packet == DEFAULT_MAX_PACKET,
            r@.auth == AuthPhase::Ready,
            r@.outbox.len() == 0,
    {
        let r = ClientDriver {
            driver: Driver::new(now),
            conn: ConnectionState::new(),
            auth: AuthPhase::Ready,
            outbox: VecDeque::new(),
        };
        assert(r@.outbox =~= Seq::empty());
        r
    }

    /// The transport.
    pub fn driver(&self) -> (r: &Driver)
        ensures
            r@ == self@.driver,
    {
        &self.driver
    }

    /// The transport, to feed it.
    pub fn driver_mut(&mut self) -> (r: &mut Driver)
        ensures
            r@ == old(self)@.driver,
            final(self)@ == (ClientDriverView { driver: final(r)@, ..old(self)@ }),
    {
        &mut self.driver
    }

    /// The channels.
    pub fn conn(&self) -> (r: &ConnectionState)
        ensures
            r@ == self@.conn,
    {
        &self.conn
    }

    /// The channels, to build payloads for [`Self::enqueue_payload`].
    pub fn conn_mut(&mut self) -> (r: &mut ConnectionState)
        ensures
            r@ == old(self)@.conn,
            final(self)@ == (ClientDriverView { conn: final(r)@, ..old(self)@ }),
    {
        &mut self.conn
    }

    /// Whether the peer has let us in.
    pub fn is_established(&self) -> (r: bool)
        ensures
            r == (self@.auth == AuthPhase::Established),
    {
        match self.auth {
            AuthPhase::Established => true,
            _ => false,
        }
    }

    /// The next payload to seal, if there is one.
    pub fn poll_transmit(&mut self) -> (r: Option<Vec<u8>>)
        ensures
            match r {
                Some(p) => {
                    &&& old(self)@.outbox.len() > 0
                    &&& p@ == old(self)@.outbox[0]
                    &&& final(self)@ == (ClientDriverView {
                        outbox: old(self)@.outbox.skip(1),
                        ..old(self)@
                    })
                },
                None => old(self)@.outbox.len() == 0 && final(self)@ == old(self)@,
            },
    {
        let r = self.outbox.pop_front();
        assert(r is Some ==> self@.outbox =~= old(self)@.outbox.skip(1));
        r
    }

    /// Send a payload, or hold it back while keys are exchanged.
    pub fn enqueue_payload(&mut self, payload: &[u8], kexing: bool) -> (r: Result<(), Error>)
        ensures
            (final(self)@, r) == old(self)@.ship(payload@, kexing),
    {
        match self.driver.enqueue_payload(payload, kexing) {
            Err(e) => Err(e),
            Ok(None) => Ok(()),
            Ok(Some(p)) => {
                let ghost before = self@.outbox;
                self.outbox.push_back(p);
                assert(self@.outbox =~= before.push(p@));
                Ok(())
            },
        }
    }

    /// Begin authentication with the first payload of its engine.
    pub fn begin_auth(&mut self, first: &[u8], kexing: bool) -> (r: Result<(), Error>)
        ensures
            (final(self)@, r) == (ClientDriverView {
                auth: AuthPhase::Running,
                ..old(self)@
            }).ship(first@, kexing),
    {
        self.auth = AuthPhase::Running;
        self.enqueue_payload(first, kexing)
    }

    /// Open a channel; what becomes of it arrives as an event. Gives its
    /// number.
    pub fn open_channel(&mut self, kind: ChannelOpen, kexing: bool) -> (r: Result<u32, Error>)
        requires
            old(self)@.conn.has_room(),
        ensures
            (final(self)@, r) == old(self)@.open_channel(kind@, kexing),
    {
        let (id, payload) = self.conn.open(kind)?;
        self.enqueue_payload(payload.as_slice(), kexing)?;
        Ok(id)
    }

    /// Send data on a channel, as far as the peer's window goes. Gives how
    /// many bytes were taken.
    pub fn send_channel_data(&mut self, channel: u32, data: &[u8], kexing: bool) -> (r: Result<
        usize,
        Error,
    >)
        ensures
            final(self)@ == old(self)@.send_data(channel, data@, kexing).0,
            match old(self)@.send_data(channel, data@, kexing).1 {
                Ok(n) => r matches Ok(k) && k == n,
                Err(e) => r == Err::<usize, Error>(e),
            },
    {
        let (payload, taken) = self.conn.send_data(channel, data)?;
        self.enqueue_payload(payload.as_slice(), kexing)?;
        Ok(taken)
    }

    /// Send a channel request.
    pub fn send_channel_request(
        &mut self,
        channel: u32,
        req: ChannelRequest,
        want_reply: bool,
        kexing: bool,
    ) -> (r: Result<(), Error>)
        ensures
            (final(self)@, r) == old(self)@.ship_made(
                match old(self)@.conn.send_request(channel, req@, want_reply) {
                    Ok(payload) => Ok((old(self)@.conn, payload)),
                    Err(e) => Err(e),
                },
                kexing,
            ),
    {
        let payload = self.conn.send_request(channel, req, want_reply)?;
        self.enqueue_payload(payload.as_slice(), kexing)
    }

    /// Say that nothing more will be sent on a channel.
    pub fn send_channel_eof(&mut self, channel: u32, kexing: bool) -> (r: Result<(), Error>)
        ensures
            (final(self)@, r) == old(self)@.ship_made(old(self)@.conn.send_eof(channel), kexing),
    {
        let payload = self.conn.send_eof(channel)?;
        self.enqueue_payload(payload.as_slice(), kexing)
    }

    /// Close a channel.
    pub fn send_channel_close(&mut self, channel: u32, kexing: bool) -> (r: Result<(), Error>)
        ensures
            (final(self)@, r) == old(self)@.ship_made(old(self)@.conn.send_close(channel), kexing),
    {
        let payload = self.conn.send_close(channel)?;
        self.enqueue_payload(payload.as_slice(), kexing)
    }

    /// Credit `n` received bytes back to the peer. A window adjustment goes
    /// out if one is due.
    pub fn replenish_window(&mut self, channel: u32, n: u32, kexing: bool) -> (r: Result<
        (),
        Error,
    >)
        ensures
            (final(self)@, r) == old(self)@.replenish(channel, n, kexing),
    {
        match self.conn.replenish_window(channel, n)? {
            Some(payload) => self.enqueue_payload(payload.as_slice(), kexing),
            None => Ok(()),
        }
    }

    /// Send a global request.
    pub fn send_global_request(&mut self, req: GlobalRequest, want_reply: bool, kexing: bool) -> (r:
        Result<(), Error>)
        ensures
            (final(self)@, r) == old(self)@.ship(global_payload(req@, want_reply), kexing),
    {
        let payload = self.conn.send_global_request(req, want_reply);
        self.enqueue_payload(payload.as_slice(), kexing)
    }

    /// The next event, if there is one.
    pub fn poll_event(&mut self) -> (r: Result<Option<ClientEvent>, Error>)
        requires
            old(self)@.can_poll(),
        ensures
            final(self)@ == old(self)@.next_event().0,
            match old(self)@.next_event().1 {
                Ok(Some(ev)) => r matches Ok(Some(x)) && x@ == ev,
                Ok(None) => r matches Ok(None),
                Err(e) => r == Err::<Option<ClientEvent>, Error>(e),
            },
    {
        match self.driver.poll_event() {
            None => Ok(None),
            Some(Event::HandshakeComplete) => Ok(Some(ClientEvent::HandshakeComplete)),
            Some(Event::AppData(payload)) => match self.auth {
                AuthPhase::Running => Ok(Some(ClientEvent::AuthPacket(payload))),
                AuthPhase::Refused => Err(Error::Protocol("auth packet with no auth driver")),
                _ => {
                    let ev = self.conn.on_packet(payload.as_slice())?;
                    Ok(Some(ClientEvent::Channel(ev)))
                },
            },
        }
    }

    /// The authentication engine has taken a payload.
    pub fn on_auth_step(&mut self, step: AuthStep, kexing: bool) -> (r: Result<
        Option<ClientEvent>,
        Error,
    >)
        ensures
            final(self)@ == old(self)@.on_auth_step(step, kexing).0,
            match old(self)@.on_auth_step(step, kexing).1 {
                Ok(Some(ev)) => r matches Ok(Some(x)) && x@ == ev,
                Ok(None) => r matches Ok(None),
                Err(e) => r == Err::<Option<ClientEvent>, Error>(e),
            },
    {
        match self.auth {
            AuthPhase::Running => {},
            _ => return Err(Error::Protocol("auth packet with no auth driver")),
        }
        match step {
            AuthStep::Send(p) => {
                self.enqueue_payload(p.as_slice(), kexing)?;
                Ok(None)
            },
            AuthStep::Success => {
                self.auth = AuthPhase::Established;
                Ok(Some(ClientEvent::AuthSuccess))
            },
            AuthStep::Failed => {
                self.auth = AuthPhase::Refused;
                Ok(Some(ClientEvent::AuthFailure))
            },
            AuthStep::Banner { message, language } => Ok(
                Some(ClientEvent::AuthBanner { message, language }),
            ),
            AuthStep::Idle => Ok(None),
        }
    }
}

/// The channels see nothing before the peer has let us in: while
/// authentication runs, and after it has failed, no payload reaches them.
pub proof fn lemma_no_channels_during_authentication(s: ClientDriverView)
    requires
        s.auth == AuthPhase::Running || s.auth == AuthPhase::Refused,
    ensures
        s.next_event().0.conn == s.conn,
        !(s.next_event().1 matches Ok(Some(ClientEventView::Channel(_)))),
{
}

/// Only the peer's word ends the wait: a connection is established exactly by
/// a successful step of a running authentication.
pub proof fn lemma_established_by_success_alone(s: ClientDriverView, step: AuthStep, kexing: bool)
    requires
        s.auth != AuthPhase::Established,
    ensures
        s.on_auth_step(step, kexing).0.auth == AuthPhase::Established <==> (s.auth
            == AuthPhase::Running && step is Success),
        s.next_event().0.auth == s.auth,
{
}

/// What is sent leaves in the order in which it was sent, unless it is held
/// back.
pub proof fn lemma_outbox_is_first_in_first_out(s: ClientDriverView, payload: Seq<u8>, kexing: bool)
    ensures
        s.outbox.is_prefix_of(s.ship(payload, kexing).0.outbox),
        !kexing ==> s.ship(payload, kexing).0.outbox == s.outbox.push(payload),
{
}

} // verus!
