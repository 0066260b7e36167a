//! Sans-IO connection drivers.
//!
//! A driver sequences version exchange, key exchange and application traffic,
//! keeps the timers, and holds back what may not pass during a key exchange.
//! It never touches a socket or a clock. Neither does it know keys: framing
//! and encryption, and the key exchange itself, are engines beside it, and
//! the frontend carries payloads between them.
//!
//! - bytes from the wire go to [`Driver::handle_input`]; once the peer has
//!   identified itself, what is in [`Driver::inbox`] is for the packet codec;
//! - each decoded payload goes to [`Driver::route_packet`], which says where
//!   it belongs;
//! - payloads to send go through [`Driver::enqueue_payload`];
//! - [`Driver::poll_event`] gives what the application gets to see;
//! - [`Driver::handle_timeout`] drives keepalive and re-keying.

pub mod client;
pub mod laws;
pub mod routing_laws;
pub mod scan;
pub mod server;

pub use client::ClientDriver;
pub use server::ServerDriver;

use crate::channel::global::GlobalRequestView;
use crate::channel::model::global_payload;
use crate::channel::{ConnectionState, GlobalRequest};
use crate::error::Error;
use crate::text::{opt_view, views};
use crate::transport::ping::{answer, pong_for_ping, SSH_MSG_PING, SSH_MSG_PONG};
use crate::transport::rekey::{is_kex_msg, kex_message, SSH_MSG_KEXINIT, SSH_MSG_KEX_ECDH_REPLY};
use scan::{Banner, BannerView, Scan, ScanView};
use std::collections::VecDeque;
use vstd::prelude::*;

verus! {

/// `SSH_MSG_DISCONNECT`.
pub const SSH_MSG_DISCONNECT: u8 = 1;

/// `SSH_MSG_EXT_INFO`.
pub const SSH_MSG_EXT_INFO: u8 = 7;

/// Cap on bytes that have arrived and not been decoded.
pub const MAX_INBOX_BYTES: usize = 8_388_608;

/// Cap on payloads held back while a key exchange is in flight. A re-key
/// settles in milliseconds; anything near this means that it has wedged.
pub const MAX_DEFERRED_OUT_BYTES: usize = 8_388_608;

/// Cap on application packets held back while a re-key is in flight. A peer
/// that keeps streaming past it is not going to finish the exchange.
pub const MAX_DEFERRED_IN_BYTES: usize = 8_388_608;

/// A high-level event.
#[derive(Debug, Clone)]
#[non_exhaustive]
pub enum Event {
    /// Version exchange and the first key exchange are complete; the
    /// connection is ready for authentication.
    HandshakeComplete,
    /// A payload for authentication or the connection protocol.
    AppData(Vec<u8>),
}

/// A high-level event.
#[verifier::ext_equal]
pub ghost enum EventView {
    HandshakeComplete,
    AppData(Seq<u8>),
}

impl View for Event {
    type V = EventView;

    open spec fn view(&self) -> EventView {
        match self {
            Event::HandshakeComplete => EventView::HandshakeComplete,
            Event::AppData(payload) => EventView::AppData(payload@),
        }
    }
}

/// Where a connection is in its lifecycle.
#[derive(Debug, Clone, Copy, PartialEq, Eq, Structural)]
pub enum Phase {
    /// The peer has not identified itself.
    AwaitingVersion,
    /// The first key exchange is in flight.
    Kex,
    /// Payloads flow to the application.
    PostKex,
}

/// What the key-exchange engine says about itself.
#[derive(Debug, Clone, Copy)]
pub struct KexStatus {
    /// A key exchange is in flight.
    pub kexing: bool,
    /// The peer's KEXINIT of that exchange has arrived.
    pub peer_kexinit_seen: bool,
    /// Both sides have announced the strict key exchange.
    pub strict: bool,
    /// An EXT_INFO may arrive now.
    pub may_accept_ext_info: bool,
}

/// A generic transport message has arrived while the first key exchange is in
/// flight. Nothing is authenticated yet, so under the strict key exchange the
/// connection is ended; otherwise the message is dropped.
pub fn generic_msg_during_initial_kex(strict_kex: bool) -> (r: Result<(), Error>)
    ensures
        r == if strict_kex {
            Err::<(), Error>(
                Error::Protocol("strict-kex: unexpected message during initial key exchange"),
            )
        } else {
            Ok(())
        },
{
    if strict_kex {
        return Err(
            Error::Protocol("strict-kex: unexpected message during initial key exchange"),
        );
    }
    Ok(())
}

/// Payloads that are held back, and the sum of their lengths, which counts
/// what was refused too.
#[verifier::ext_equal]
pub ghost struct HeldView {
    pub queue: Seq<Seq<u8>>,
    pub bytes: nat,
}

impl HeldView {
    /// Nothing.
    pub open spec fn empty() -> HeldView {
        HeldView { queue: Seq::empty(), bytes: 0 }
    }

    /// Hold back a payload, unless that is one too many.
    pub open spec fn hold(self, payload: Seq<u8>, cap: nat, full: Error) -> (
        HeldView,
        Result<(), Error>,
    ) {
        let bytes = if self.bytes + payload.len() > usize::MAX {
            usize::MAX as nat
        } else {
            self.bytes + payload.len()
        };
        if bytes > cap {
            (HeldView { bytes, ..self }, Err(full))
        } else {
            (HeldView { queue: self.queue.push(payload), bytes }, Ok(()))
        }
    }
}

/// Payloads that are held back.
#[derive(Debug)]
pub struct Held {
    queue: VecDeque<Vec<u8>>,
    bytes: usize,
}

impl View for Held {
    type V = HeldView;

    closed spec fn view(&self) -> HeldView {
        HeldView { queue: views(self.queue@), bytes: self.bytes as nat }
    }
}

impl Held {
    /// Nothing.
    pub fn new() -> (r: Held)
        ensures
            r@ == HeldView::empty(),
    {
        let r = Held { queue: VecDeque::new(), bytes: 0 };
        assert(r@ =~= HeldView::empty());
        r
    }

    /// Hold back a payload, unless that makes more than `cap` bytes.
    fn hold(&mut self, payload: &[u8], cap: usize, full: Error) -> (r: Result<(), Error>)
        ensures
            (final(self)@, r) == old(self)@.hold(payload@, cap as nat, full),
    {
        self.bytes = self.bytes.saturating_add(payload.len());
        if self.bytes > cap {
            return Err(full);
        }
        let copy = vstd::slice::slice_to_vec(payload);
        assert(copy@ =~= payload@);
        self.queue.push_back(copy);
        assert(self@.queue =~= old(self)@.queue.push(payload@));
        Ok(())
    }

    /// Hold back a packet that arrived while a re-key is in flight.
    pub fn defer_inbound(&mut self, payload: &[u8]) -> (r: Result<(), Error>)
        ensures
            (final(self)@, r) == old(self)@.hold(
                payload@,
                MAX_DEFERRED_IN_BYTES as nat,
                Error::Protocol("re-key: deferred ingress buffer too large"),
            ),
    {
        self.hold(
            payload,
            MAX_DEFERRED_IN_BYTES,
            Error::Protocol("re-key: deferred ingress buffer too large"),
        )
    }

    /// Hold back a payload to send while a key exchange is in flight.
    pub fn defer_outbound(&mut self, payload: &[u8]) -> (r: Result<(), Error>)
        ensures
            (final(self)@, r) == old(self)@.hold(
                payload@,
                MAX_DEFERRED_OUT_BYTES as nat,
                Error::Protocol("re-key: deferred egress buffer too large"),
            ),
    {
        self.hold(
            payload,
            MAX_DEFERRED_OUT_BYTES,
            Error::Protocol("re-key: deferred egress buffer too large"),
        )
    }

    /// Let everything go, oldest first.
    fn release(&mut self) -> (r: Vec<Vec<u8>>)
        ensures
            views(r@) == old(self)@.queue,
            final(self)@ == HeldView::empty(),
    {
        let mut out: Vec<Vec<u8>> = Vec::new();
        let ghost all = self@.queue;
        assert(views(out@) + self@.queue =~= all);
        loop
            invariant
                views(out@) + self@.queue == all,
                all == old(self)@.queue,
            decreases self@.queue.len(),
        {
            let ghost before = self@.queue;
            let ghost taken = out@;
            match self.queue.pop_front() {
                None => {
                    self.bytes = 0;
                    assert(self@ =~= HeldView::empty());
                    assert(views(out@) =~= all);
                    return out;
                },
                Some(payload) => {
                    out.push(payload);
                    assert(before =~= seq![payload@] + self@.queue);
                    assert(views(out@) =~= views(taken).push(payload@));
                    assert(views(out@) + self@.queue =~= all);
                },
            }
        }
    }
}

/// The payload of a keepalive probe.
pub fn keepalive_request() -> (r: Vec<u8>)
    ensures
        r@ == global_payload(GlobalRequestView::Keepalive, true),
{
    ConnectionState::new().send_global_request(GlobalRequest::Keepalive, true)
}

/// What arrived bytes are good for.
#[derive(Debug)]
pub enum Input {
    /// More bytes are needed.
    More,
    /// The peer's identification line; once it is parsed, go on with
    /// [`Driver::version_parsed`].
    Version(Vec<u8>),
    /// The inbox is for the packet codec.
    Packets,
}

/// What arrived bytes are good for.
#[verifier::ext_equal]
pub ghost enum InputView {
    More,
    Version(Seq<u8>),
    Packets,
}

impl View for Input {
    type V = InputView;

    open spec fn view(&self) -> InputView {
        match self {
            Input::More => InputView::More,
            Input::Version(line) => InputView::Version(line@),
            Input::Packets => InputView::Packets,
        }
    }
}

/// Where a decoded payload belongs.
#[derive(Debug)]
pub enum Route {
    /// Nowhere, or the driver has taken it.
    Nothing,
    /// Answer it with this payload.
    Reply(Vec<u8>),
    /// The key-exchange engine, as an EXT_INFO.
    ExtInfo,
    /// The key-exchange engine; then go on with [`Driver::kex_advanced`].
    Kex {
        /// The peer has started a re-key: send our own KEXINIT first.
        restart: bool,
    },
    /// The application; the engine is to be told that something else than a
    /// key exchange came in.
    App,
}

/// Where a decoded payload belongs.
#[verifier::ext_equal]
pub ghost enum RouteView {
    Nothing,
    Reply(Seq<u8>),
    ExtInfo,
    Kex { restart: bool },
    App,
}

impl View for Route {
    type V = RouteView;

    open spec fn view(&self) -> RouteView {
        match self {
            Route::Nothing => RouteView::Nothing,
            Route::Reply(payload) => RouteView::Reply(payload@),
            Route::ExtInfo => RouteView::ExtInfo,
            Route::Kex { restart } => RouteView::Kex { restart: *restart },
            Route::App => RouteView::App,
        }
    }
}

/// What the clock asks for.
#[derive(Debug, Clone, Copy, PartialEq, Eq, Structural)]
pub enum Timer {
    /// Nothing.
    Nothing,
    /// Start a re-key.
    Rekey,
    /// Send a [`keepalive_request`].
    Probe,
}

/// A driver.
#[verifier::ext_equal]
pub ghost struct DriverView {
    pub phase: Phase,
    /// Bytes that have arrived and not been decoded.
    pub inbox: Seq<u8>,
    pub banner: BannerView,
    pub events: Seq<EventView>,
    pub held_in: HeldView,
    pub held_out: HeldView,
    pub peer_version: Seq<u8>,
    pub session_id: Seq<u8>,
    /// When the last key exchange was completed.
    pub last_kex: Option<u128>,
    /// Interval of silence before a probe, and how many may go unanswered.
    pub keepalive: Option<(u128, u32)>,
    pub last_activity: u128,
    pub missed_keepalives: nat,
}

/// Whether a payload may be sent while a key exchange is in flight: transport
/// messages and key-exchange messages may, service requests and everything
/// after them may not (RFC 4253 section 7.1).
pub open spec fn passes_during_kex(payload: Seq<u8>) -> bool {
    payload.len() > 0 && payload[0] < 50 && payload[0] != 5 && payload[0] != 6
}

/// The time since `then`; a clock that has gone back counts as no time.
pub open spec fn elapsed(now: u128, then: u128) -> u128 {
    if now >= then {
        (now - then) as u128
    } else {
        0
    }
}

impl DriverView {
    /// A driver at the start.
    pub open spec fn fresh(now: u128) -> DriverView {
        DriverView {
            phase: Phase::AwaitingVersion,
            inbox: Seq::empty(),
            banner: BannerView { lines: 0, total: 0 },
            events: Seq::empty(),
            held_in: HeldView::empty(),
            held_out: HeldView::empty(),
            peer_version: Seq::empty(),
            session_id: Seq::empty(),
            last_kex: None,
            keepalive: None,
            last_activity: now,
            missed_keepalives: 0,
        }
    }

    /// What a driver keeps up.
    pub open spec fn wf(self) -> bool {
        self.banner.lines <= scan::MAX_BANNER_LINES
    }

    /// Bytes from the wire.
    pub open spec fn input(self, bytes: Seq<u8>) -> (DriverView, Result<InputView, Error>) {
        let fed = DriverView { inbox: self.inbox + bytes, ..self };
        if fed.inbox.len() > MAX_INBOX_BYTES {
            (fed, Err(Error::Protocol("inbound buffer too large")))
        } else if self.phase != Phase::AwaitingVersion {
            (fed, Ok(InputView::Packets))
        } else {
            let scanned = self.banner.scan(fed.inbox);
            (
                DriverView { inbox: scanned.rest, banner: scanned.banner, ..fed },
                match scanned.result {
                    Err(e) => Err(e),
                    Ok(ScanView::More) => Ok(InputView::More),
                    Ok(ScanView::Found(line)) => Ok(InputView::Version(line)),
                },
            )
        }
    }

    /// Something that means nothing to the application: nothing may be
    /// injected into the first key exchange if it is a strict one.
    pub open spec fn generic(self, strict: bool) -> Result<RouteView, Error> {
        if self.phase == Phase::Kex && strict {
            Err(Error::Protocol("strict-kex: unexpected message during initial key exchange"))
        } else {
            Ok(RouteView::Nothing)
        }
    }

    /// A payload for the application. It waits while a key exchange is in
    /// flight, if the peer cannot have known of the exchange; otherwise the
    /// peer has broken the rule that it sends nothing else.
    pub open spec fn app(self, payload: Seq<u8>, status: KexStatus) -> (
        DriverView,
        Result<RouteView, Error>,
    ) {
        if !status.kexing {
            (
                DriverView { events: self.events.push(EventView::AppData(payload)), ..self },
                Ok(RouteView::App),
            )
        } else if status.peer_kexinit_seen {
            (self, Err(Error::Protocol("non-KEX message during key re-exchange")))
        } else {
            let (held_in, result) = self.held_in.hold(
                payload,
                MAX_DEFERRED_IN_BYTES as nat,
                Error::Protocol("re-key: deferred ingress buffer too large"),
            );
            (
                DriverView { held_in, ..self },
                match result {
                    Ok(_) => Ok(RouteView::Nothing),
                    Err(e) => Err(e),
                },
            )
        }
    }

    /// A decoded payload. Whatever it is, it shows that the peer is alive.
    pub open spec fn route(self, payload: Seq<u8>, now: u128, status: KexStatus) -> (
        DriverView,
        Result<RouteView, Error>,
    ) {
        let heard = DriverView { last_activity: now, missed_keepalives: 0, ..self };
        if payload.len() == 0 {
            heard.app(payload, status)
        } else {
            let b = payload[0];
            if b == SSH_MSG_DISCONNECT {
                (heard, Err(Error::Protocol("peer sent SSH_MSG_DISCONNECT")))
            } else if b == 2 || b == 3 || b == 4 || b == SSH_MSG_PONG {
                (heard, heard.generic(status.strict))
            } else if b == SSH_MSG_PING {
                if heard.phase == Phase::Kex {
                    (heard, heard.generic(status.strict))
                } else {
                    (
                        heard,
                        match answer(payload) {
                            Ok(pong) => Ok(RouteView::Reply(pong)),
                            Err(e) => Err(e),
                        },
                    )
                }
            } else if b == SSH_MSG_EXT_INFO {
                (
                    heard,
                    if status.may_accept_ext_info {
                        Ok(RouteView::ExtInfo)
                    } else {
                        Err(Error::Protocol("unexpected SSH_MSG_EXT_INFO"))
                    },
                )
            } else if kex_message(b) {
                (heard, Ok(RouteView::Kex { restart: b == SSH_MSG_KEXINIT && !status.kexing }))
            } else {
                heard.app(payload, status)
            }
        }
    }

    /// The key-exchange engine has taken a packet. Once the exchange is
    /// complete, what was held back goes on its way: inbound payloads to the
    /// application, outbound ones to the wire, each in their order.
    pub open spec fn advance(self, now: u128, completed: bool, session_id: Option<Seq<u8>>) -> (
        DriverView,
        Result<Seq<Seq<u8>>, Error>,
    ) {
        if !completed {
            (self, Ok(Seq::empty()))
        } else if self.phase == Phase::Kex && session_id is None {
            (self, Err(Error::Protocol("kex: missing session id")))
        } else {
            let keyed = if self.phase == Phase::Kex {
                DriverView {
                    phase: Phase::PostKex,
                    session_id: session_id->0,
                    events: self.events.push(EventView::HandshakeComplete),
                    ..self
                }
            } else {
                self
            };
            (
                DriverView {
                    last_kex: Some(now),
                    events: keyed.events + app_events(self.held_in.queue),
                    held_in: HeldView::empty(),
                    held_out: HeldView::empty(),
                    ..keyed
                },
                Ok(self.held_out.queue),
            )
        }
    }

    /// A payload to send: what goes to the codec now, if anything.
    pub open spec fn send(self, payload: Seq<u8>, kexing: bool) -> (
        DriverView,
        Result<Option<Seq<u8>>, Error>,
    ) {
        if !kexing || passes_during_kex(payload) {
            (self, Ok(Some(payload)))
        } else {
            let (held_out, result) = self.held_out.hold(
                payload,
                MAX_DEFERRED_OUT_BYTES as nat,
                Error::Protocol("re-key: deferred egress buffer too large"),
            );
            (
                DriverView { held_out, ..self },
                match result {
                    Ok(_) => Ok(None),
                    Err(e) => Err(e),
                },
            )
        }
    }

    /// The clock. Nothing happens during a key exchange; a re-key that is due
    /// comes before a probe.
    pub open spec fn timeout(self, now: u128, kexing: bool, rekey_due: bool) -> (
        DriverView,
        Result<Timer, Error>,
    ) {
        if kexing {
            (self, Ok(Timer::Nothing))
        } else if self.last_kex is Some && rekey_due {
            (self, Ok(Timer::Rekey))
        } else {
            match self.keepalive {
                None => (self, Ok(Timer::Nothing)),
                Some((interval, count_max)) => if elapsed(now, self.last_activity) < interval {
                    (self, Ok(Timer::Nothing))
                } else if self.missed_keepalives >= count_max {
                    (self, Err(Error::Protocol("keepalive: no response from peer")))
                } else {
                    (
                        DriverView {
                            missed_keepalives: self.missed_keepalives + 1,
                            last_activity: now,
                            ..self
                        },
                        Ok(Timer::Probe),
                    )
                },
            }
        }
    }
}

/// The events for a list of application payloads.
pub open spec fn app_events(payloads: Seq<Seq<u8>>) -> Seq<EventView> {
    payloads.map_values(|p: Seq<u8>| EventView::AppData(p))
}

/// A driver. Times are nanoseconds of a clock that the frontend has.
#[derive(Debug)]
pub struct Driver {
    phase: Phase,
    inbox: Vec<u8>,
    banner: Banner,
    events: VecDeque<Event>,
    held_in: Held,
    held_out: Held,
    peer_version: Vec<u8>,
    session_id: Vec<u8>,
    last_kex: Option<u128>,
    keepalive: Option<(u128, u32)>,
    last_activity: u128,
    missed_keepalives: u32,
}

impl View for Driver {
    type V = DriverView;

    closed spec fn view(&self) -> DriverView {
        DriverView {
            phase: self.phase,
            inbox: self.inbox@,
            banner: self.banner@,
            events: views(self.events@),
            held_in: self.held_in@,
            held_out: self.held_out@,
            peer_version: self.peer_version@,
            session_id: self.session_id@,
            last_kex: self.last_kex,
            keepalive: self.keepalive,
            last_activity: self.last_activity,
            missed_keepalives: self.missed_keepalives as nat,
        }
    }
}

impl Driver {
    /// A driver at the start of a connection.
    pub fn new(now: u128) -> (r: Driver)
        ensures
            r@ == DriverView::fresh(now),
            r@.wf(),
    {
        let r = Driver {
            phase: Phase::AwaitingVersion,
            inbox: Vec::new(),
            banner: Banner::new(),
            events: VecDeque::new(),
            held_in: Held::new(),
            held_out: Held::new(),
            peer_version: Vec::new(),
            session_id: Vec::new(),
            last_kex: None,
            keepalive: None,
            last_activity: now,
            missed_keepalives: 0,
        };
        assert(r@.events =~= Seq::empty());
        assert(r@ =~= DriverView::fresh(now));
        r
    }

    /// Probe the peer after `interval` of silence, and give up on it after
    /// `count_max` probes without an answer.
    pub fn set_keepalive(&mut self, interval: u128, count_max: u32)
        ensures
            final(self)@ == (DriverView { keepalive: Some((interval, count_max)), ..old(self)@ }),
    {
        self.keepalive = Some((interval, count_max));
    }

    /// The session identifier, the exchange hash of the first key exchange.
    /// Empty before that.
    pub fn session_id(&self) -> (r: &[u8])
        ensures
            r@ == self@.session_id,
    {
        self.session_id.as_slice()
    }

    /// The peer's identification. Empty before it has arrived.
    pub fn peer_version(&self) -> (r: &[u8])
        ensures
            r@ == self@.peer_version,
    {
        self.peer_version.as_slice()
    }

    /// Whether the first key exchange is complete.
    pub fn handshake_done(&self) -> (r: bool)
        ensures
            r == (self@.phase == Phase::PostKex),
    {
        match self.phase {
            Phase::PostKex => true,
            _ => false,
        }
    }

    /// When the last key exchange was completed.
    pub fn last_kex(&self) -> (r: Option<u128>)
        ensures
            r == self@.last_kex,
    {
        self.last_kex
    }

    /// Take bytes from the wire.
    pub fn handle_input(&mut self, bytes: &[u8]) -> (r: Result<Input, Error>)
        requires
            old(self)@.wf(),
        ensures
            final(self)@ == old(self)@.input(bytes@).0,
            match old(self)@.input(bytes@).1 {
                Ok(input) => r matches Ok(i) && i@ == input && final(self)@.wf(),
                Err(e) => r == Err::<Input, Error>(e),
            },
    {
        self.inbox.extend_from_slice(bytes);
        assert(self@.inbox =~= old(self)@.inbox + bytes@);
        if self.inbox.len() > MAX_INBOX_BYTES {
            return Err(Error::Protocol("inbound buffer too large"));
        }
        match self.phase {
            Phase::AwaitingVersion => {},
            _ => return Ok(Input::Packets),
        }
        match self.banner.scan(&mut self.inbox) {
            Err(e) => Err(e),
            Ok(Scan::More) => Ok(Input::More),
            Ok(Scan::Found(line)) => Ok(Input::Version(line)),
        }
    }

    /// The peer has identified itself: the key exchange may begin.
    pub fn version_parsed(&mut self, version: Vec<u8>)
        ensures
            final(self)@ == (DriverView {
                phase: Phase::Kex,
                peer_version: version@,
                ..old(self)@
            }),
    {
        self.peer_version = version;
        self.phase = Phase::Kex;
    }

    /// Bytes that have arrived and not been decoded.
    pub fn inbox(&self) -> (r: &[u8])
        ensures
            r@ == self@.inbox,
    {
        self.inbox.as_slice()
    }

    /// Forget the first `n` bytes of the inbox: they have been decoded.
    pub fn consume(&mut self, n: usize)
        requires
            n <= old(self)@.inbox.len(),
        ensures
            final(self)@ == (DriverView { inbox: old(self)@.inbox.skip(n as int), ..old(self)@ }),
    {
        let rest = vstd::slice::slice_subrange(self.inbox.as_slice(), n, self.inbox.len());
        let rest = vstd::slice::slice_to_vec(rest);
        assert(rest@ =~= old(self)@.inbox.skip(n as int));
        self.inbox = rest;
    }

    /// Queue an event.
    fn push_event(&mut self, event: Event)
        ensures
            final(self)@ == (DriverView { events: old(self)@.events.push(event@), ..old(self)@ }),
    {
        self.events.push_back(event);
        assert(self@.events =~= old(self)@.events.push(event@));
    }

    /// The next event, if there is one.
    pub fn poll_event(&mut self) -> (r: Option<Event>)
        ensures
            match r {
                Some(event) => {
                    &&& old(self)@.events.len() > 0
                    &&& event@ == old(self)@.events[0]
                    &&& final(self)@ == (DriverView {
                        events: old(self)@.events.skip(1),
                        ..old(self)@
                    })
                },
                None => old(self)@.events.len() == 0 && final(self)@ == old(self)@,
            },
    {
        let r = self.events.pop_front();
        assert(r is Some ==> self@.events =~= old(self)@.events.skip(1));
        r
    }

    /// A generic transport message.
    fn generic(&self, strict: bool) -> (r: Result<Route, Error>)
        ensures
            match self@.generic(strict) {
                Ok(route) => r matches Ok(x) && x@ == route,
                Err(e) => r == Err::<Route, Error>(e),
            },
    {
        if let Phase::Kex = self.phase {
            match generic_msg_during_initial_kex(strict) {
                Err(e) => return Err(e),
                Ok(_) => {},
            }
        }
        Ok(Route::Nothing)
    }

    /// A payload for the application.
    fn app(&mut self, payload: &[u8], status: KexStatus) -> (r: Result<Route, Error>)
        ensures
            final(self)@ == old(self)@.app(payload@, status).0,
            match old(self)@.app(payload@, status).1 {
                Ok(route) => r matches Ok(x) && x@ == route,
                Err(e) => r == Err::<Route, Error>(e),
            },
    {
        if !status.kexing {
            let copy = vstd::slice::slice_to_vec(payload);
            assert(copy@ =~= payload@);
            self.push_event(Event::AppData(copy));
            return Ok(Route::App);
        }
        if status.peer_kexinit_seen {
            return Err(Error::Protocol("non-KEX message during key re-exchange"));
        }
        match self.held_in.defer_inbound(payload) {
            Ok(_) => Ok(Route::Nothing),
            Err(e) => Err(e),
        }
    }

    /// Say where a decoded payload belongs.
    pub fn route_packet(&mut self, payload: &[u8], now: u128, status: KexStatus) -> (r: Result<
        Route,
        Error,
    >)
        ensures
            final(self)@ == old(self)@.route(payload@, now, status).0,
            match old(self)@.route(payload@, now, status).1 {
                Ok(route) => r matches Ok(x) && x@ == route,
                Err(e) => r == Err::<Route, Error>(e),
            },
    {
        self.last_activity = now;
        self.missed_keepalives = 0;
        if payload.len() == 0 {
            return self.app(payload, status);
        }
        let b: u8 = payload[0];
        if b == SSH_MSG_DISCONNECT {
            return Err(Error::Protocol("peer sent SSH_MSG_DISCONNECT"));
        }
        if b == 2 || b == 3 || b == 4 || b == SSH_MSG_PONG {
            return self.generic(status.strict);
        }
        if b == SSH_MSG_PING {
            if let Phase::Kex = self.phase {
                return self.generic(status.strict);
            }
            return match pong_for_ping(payload) {
                Ok(pong) => Ok(Route::Reply(pong)),
                Err(e) => Err(e),
            };
        }
        if b == SSH_MSG_EXT_INFO {
            if !status.may_accept_ext_info {
                return Err(Error::Protocol("unexpected SSH_MSG_EXT_INFO"));
            }
            return Ok(Route::ExtInfo);
        }
        if is_kex_msg(b) {
            return Ok(Route::Kex { restart: b == SSH_MSG_KEXINIT && !status.kexing });
        }
        self.app(payload, status)
    }

    /// The key-exchange engine has taken a packet. If that has completed the
    /// exchange, what was held back is let go; the payloads given back are
    /// for the codec.
    pub fn kex_advanced(&mut self, now: u128, completed: bool, session_id: Option<&[u8]>) -> (r:
        Result<Vec<Vec<u8>>, Error>)
        ensures
            ({
                let id = match session_id {
                    Some(s) => Some(s@),
                    None => None,
                };
                &&& final(self)@ == old(self)@.advance(now, completed, id).0
                &&& match old(self)@.advance(now, completed, id).1 {
                    Ok(send) => r matches Ok(v) && views(v@) == send,
                    Err(e) => r == Err::<Vec<Vec<u8>>, Error>(e),
                }
            }),
    {
        if !completed {
            let none: Vec<Vec<u8>> = Vec::new();
            assert(views(none@) =~= Seq::empty());
            return Ok(none);
        }
        if let Phase::Kex = self.phase {
            match session_id {
                None => return Err(Error::Protocol("kex: missing session id")),
                Some(id) => {
                    let copy = vstd::slice::slice_to_vec(id);
                    assert(copy@ =~= id@);
                    self.session_id = copy;
                },
            }
            self.phase = Phase::PostKex;
            self.push_event(Event::HandshakeComplete);
        }
        self.last_kex = Some(now);
        self.release_inbound();
        Ok(self.held_out.release())
    }

    /// Whether payloads for the application are held back until the exchange
    /// is over.
    pub fn holds_inbound(&self) -> (r: bool)
        ensures
            r == (self@.held_in.queue.len() > 0),
    {
        self.held_in.queue.len() > 0
    }

    /// Let the application have what was held back for it.
    fn release_inbound(&mut self)
        ensures
            final(self)@ == (DriverView {
                events: old(self)@.events + app_events(old(self)@.held_in.queue),
                held_in: HeldView::empty(),
                ..old(self)@
            }),
    {
        let payloads = self.held_in.release();
        let ghost base = self@.events;
        let ghost all = views(payloads@);
        let mut i: usize = 0;
        let n: usize = payloads.len();
        assert(base =~= base + app_events(all.take(0)));
        while i < n
            invariant
                i <= n,
                n == payloads@.len(),
                all == views(payloads@),
                all == old(self)@.held_in.queue,
                base == old(self)@.events,
                self@ == (DriverView {
                    events: base + app_events(all.take(i as int)),
                    held_in: HeldView::empty(),
                    ..old(self)@
                }),
            decreases n - i,
        {
            let copy = vstd::slice::slice_to_vec(payloads[i].as_slice());
            assert(copy@ =~= all[i as int]);
            self.push_event(Event::AppData(copy));
            assert(all.take(i + 1) =~= all.take(i as int).push(all[i as int]));
            assert(app_events(all.take(i + 1)) =~= app_events(all.take(i as int)).push(
                EventView::AppData(all[i as int]),
            ));
            assert(self@.events =~= base + app_events(all.take(i + 1)));
            i += 1;
        }
        assert(all.take(n as int) =~= all);
    }

    /// Send a payload: it is for the codec now, unless it has to wait until a
    /// key exchange is over.
    pub fn enqueue_payload(&mut self, payload: &[u8], kexing: bool) -> (r: Result<
        Option<Vec<u8>>,
        Error,
    >)
        ensures
            final(self)@ == old(self)@.send(payload@, kexing).0,
            match old(self)@.send(payload@, kexing).1 {
                Ok(now) => r matches Ok(x) && opt_view(x) == now,
                Err(e) => r == Err::<Option<Vec<u8>>, Error>(e),
            },
    {
        if !kexing || (payload.len() > 0 && payload[0] < 50 && payload[0] != 5 && payload[0]
            != 6) {
            let copy = vstd::slice::slice_to_vec(payload);
            assert(copy@ =~= payload@);
            return Ok(Some(copy));
        }
        match self.held_out.defer_outbound(payload) {
            Ok(_) => Ok(None),
            Err(e) => Err(e),
        }
    }

    /// Ask the clock what is due. `rekey_due` is what the re-key policy says
    /// about the time and traffic since [`Self::last_kex`].
    pub fn handle_timeout(&mut self, now: u128, kexing: bool, rekey_due: bool) -> (r: Result<
        Timer,
        Error,
    >)
        ensures
            (final(self)@, r) == old(self)@.timeout(now, kexing, rekey_due),
    {
        if kexing {
            return Ok(Timer::Nothing);
        }
        if self.last_kex.is_some() && rekey_due {
            return Ok(Timer::Rekey);
        }
        if let Some((interval, count_max)) = self.keepalive {
            let silent: u128 = if now >= self.last_activity {
                now - self.last_activity
            } else {
                0
            };
            if silent >= interval {
                if self.missed_keepalives >= count_max {
                    return Err(Error::Protocol("keepalive: no response from peer"));
                }
                self.missed_keepalives = self.missed_keepalives + 1;
                self.last_activity = now;
                return Ok(Timer::Probe);
            }
        }
        Ok(Timer::Nothing)
    }

    /// When [`Self::handle_timeout`] is to be called next, as far as probes
    /// go.
    pub fn next_timeout(&self) -> (r: Option<u128>)
        requires
            self@.keepalive matches Some(k) ==> self@.last_activity + k.0 <= u128::MAX,
        ensures
            match self@.keepalive {
                Some((interval, _)) => r == Some((self@.last_activity + interval) as u128),
                None => r is None,
            },
    {
        match self.keepalive {
            Some((interval, _)) => Some(self.last_activity + interval),
            None => None,
        }
    }
}

/// Whether a key-exchange packet carries the server's host key, which is then
/// to be verified before the engine gets it.
pub fn needs_verifier(payload: &[u8]) -> (r: Result<bool, Error>)
    ensures
        r == if payload@.len() == 0 {
            Err::<bool, Error>(Error::Format("empty kex payload"))
        } else {
            Ok(payload@[0] == SSH_MSG_KEX_ECDH_REPLY)
        },
{
    if payload.len() == 0 {
        return Err(Error::Format("empty kex payload"));
    }
    Ok(payload[0] == SSH_MSG_KEX_ECDH_REPLY)
}

} // verus!
