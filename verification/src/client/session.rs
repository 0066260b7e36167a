//! One-shot operations on a channel of their own.
//!
//! Every helper of the client that needs a channel follows the same course:
//! open it, send a few requests, perhaps feed it some input, perhaps collect
//! its output until the peer closes. A [`Script`] says which of these happen
//! and how failures are worded; a [`Session`] runs a script one inbound
//! payload at a time. Nothing here reads or writes: each [`Step`] lists the
//! payloads to transmit, in order, and says what comes after that.

use super::ExecOutput;
use crate::channel::model::{ConnectionView, EventView};
use crate::channel::open::ChannelOpenView;
use crate::channel::request::ChannelRequestView;
use crate::channel::{
    ChannelEvent, ChannelOpen, ChannelRequest, ConnectionState, MSG_CHANNEL_FAILURE,
    MSG_CHANNEL_OPEN, SSH_EXTENDED_DATA_STDERR,
};
use crate::error::Error;
use crate::text::{opt_view, views};
use std::collections::VecDeque;
use vstd::prelude::*;

verus! {

/// Hard cap on accumulated output, standard error included.
pub const MAX_EXEC_OUTPUT: usize = 67_108_864;

/// How many rounds any single stage of a session may take.
pub const MAX_EXEC_ITER: usize = 1_000_000;

/// How a request that waits for its reply fails.
#[derive(Debug, Clone, Copy)]
pub struct Await {
    /// The reply never came.
    pub stuck: &'static str,
    /// The peer said no.
    pub denied: &'static str,
}

/// A channel request to send once the channel is open.
#[derive(Debug)]
pub struct Ask {
    /// The request.
    pub request: ChannelRequest,
    /// Set if the request wants a reply, which is then waited for.
    pub reply: Option<Await>,
}

/// Input to push into the channel, followed by EOF.
#[derive(Debug)]
pub struct Feed {
    /// The bytes.
    pub bytes: Vec<u8>,
    /// The peer's window never let all of them through.
    pub stuck: &'static str,
    /// The peer closed before it had them all.
    pub closed: &'static str,
}

/// How output is collected until the peer closes the channel.
#[derive(Debug, Clone, Copy)]
pub struct Collect {
    /// Answer the peer's EOF with our own.
    pub echo_eof: bool,
    /// Keep plain data only: extended data is credited and dropped, requests
    /// are ignored.
    pub data_only: bool,
    /// The output grew over [`MAX_EXEC_OUTPUT`].
    pub too_large: &'static str,
    /// The close never came.
    pub stuck: &'static str,
}

/// What to do on a channel of its own.
#[derive(Debug)]
pub struct Script {
    /// The channel to open.
    pub kind: ChannelOpen,
    /// The peer never answered the open.
    pub stuck: &'static str,
    /// The peer refused the open.
    pub failed: &'static str,
    /// Requests to send, in order.
    pub asks: VecDeque<Ask>,
    /// Input to push after the requests.
    pub feed: Option<Feed>,
    /// Output to collect after that. Without it the session ends with the
    /// channel ready for use.
    pub collect: Option<Collect>,
}

/// What an [`Ask`] says.
#[verifier::ext_equal]
pub ghost struct AskView {
    pub request: ChannelRequestView,
    pub reply: Option<Await>,
}

impl View for Ask {
    type V = AskView;

    open spec fn view(&self) -> AskView {
        AskView { request: self.request@, reply: self.reply }
    }
}

/// What a [`Feed`] says.
#[verifier::ext_equal]
pub ghost struct FeedView {
    pub bytes: Seq<u8>,
    pub stuck: &'static str,
    pub closed: &'static str,
}

impl View for Feed {
    type V = FeedView;

    open spec fn view(&self) -> FeedView {
        FeedView { bytes: self.bytes@, stuck: self.stuck, closed: self.closed }
    }
}

/// What a [`Script`] says.
#[verifier::ext_equal]
pub ghost struct ScriptView {
    pub kind: ChannelOpenView,
    pub stuck: &'static str,
    pub failed: &'static str,
    pub asks: Seq<AskView>,
    pub feed: Option<FeedView>,
    pub collect: Option<Collect>,
}

impl View for Script {
    type V = ScriptView;

    open spec fn view(&self) -> ScriptView {
        ScriptView {
            kind: self.kind@,
            stuck: self.stuck,
            failed: self.failed,
            asks: views(self.asks@),
            feed: opt_view(self.feed),
            collect: self.collect,
        }
    }
}

/// What the frontend does after it has transmitted a step's payloads.
#[derive(Debug, Clone, Copy)]
pub enum Next {
    /// Hand over the next inbound payload.
    Wait,
    /// The channel is ready for use; the session is over.
    Ready,
    /// The output is complete; the session is over.
    Done,
    /// The operation failed; the session is over.
    Failed(Error),
}

/// What one inbound payload leads to.
#[derive(Debug)]
pub struct Step {
    /// Payloads to transmit, in order.
    pub send: Vec<Vec<u8>>,
    /// What comes after that.
    pub next: Next,
}

/// Where a session stands.
#[derive(Debug, Clone, Copy)]
pub enum Stage {
    /// The open has not been answered.
    Opening,
    /// A request has not been answered.
    Asking(Await),
    /// The peer's window is full, input is left.
    Feeding,
    /// Output is being collected.
    Collecting,
    /// The session has ended.
    Over,
}

/// What the remote side has said so far.
#[verifier::ext_equal]
pub ghost struct OutputView {
    pub stdout: Seq<u8>,
    pub stderr: Seq<u8>,
    pub exit_status: Option<u32>,
    pub exit_signal: Option<Seq<char>>,
}

impl View for ExecOutput {
    type V = OutputView;

    open spec fn view(&self) -> OutputView {
        OutputView {
            stdout: self.stdout@,
            stderr: self.stderr@,
            exit_status: self.exit_status,
            exit_signal: opt_view(self.exit_signal),
        }
    }
}

impl OutputView {
    /// Nothing said yet.
    pub open spec fn silent() -> OutputView {
        OutputView {
            stdout: Seq::empty(),
            stderr: Seq::empty(),
            exit_status: None,
            exit_signal: None,
        }
    }

    /// How much has been collected.
    pub open spec fn size(self) -> nat {
        self.stdout.len() + self.stderr.len()
    }
}

/// A session: the part of its script that is still ahead, where it stands,
/// and what it has collected.
#[verifier::ext_equal]
pub ghost struct SessionView {
    pub channel: u32,
    pub stage: Stage,
    /// Rounds that the stage has taken.
    pub rounds: nat,
    pub stuck: &'static str,
    pub failed: &'static str,
    pub asks: Seq<AskView>,
    pub feed: Option<FeedView>,
    /// How much of the input has been sent.
    pub off: nat,
    pub collect: Option<Collect>,
    pub eof_sent: bool,
    pub out: OutputView,
}

/// What a payload leads to: the connection and the session afterwards, what
/// is sent, and what comes next.
#[verifier::ext_equal]
pub ghost struct Reply {
    pub conn: ConnectionView,
    pub session: SessionView,
    pub send: Seq<Seq<u8>>,
    pub next: Next,
}

impl SessionView {
    /// The bounds that a session keeps.
    pub open spec fn wf(self) -> bool {
        &&& self.rounds <= MAX_EXEC_ITER
        &&& self.stage !is Feeding ==> self.rounds < MAX_EXEC_ITER
        &&& self.stage is Feeding ==> self.feed is Some
        &&& self.stage is Collecting ==> self.collect is Some
        &&& self.feed matches Some(f) ==> self.off <= f.bytes.len()
        &&& self.out.size() <= MAX_EXEC_OUTPUT
    }

    /// A session that has just asked for its channel.
    pub open spec fn opening(script: ScriptView, channel: u32) -> SessionView {
        SessionView {
            channel,
            stage: Stage::Opening,
            rounds: 0,
            stuck: script.stuck,
            failed: script.failed,
            asks: script.asks,
            feed: script.feed,
            off: 0,
            collect: script.collect,
            eof_sent: false,
            out: OutputView::silent(),
        }
    }

    /// Give up.
    pub open spec fn fail(self, conn: ConnectionView, send: Seq<Seq<u8>>, e: Error) -> Reply {
        Reply {
            conn,
            session: SessionView { stage: Stage::Over, rounds: 0, ..self },
            send,
            next: Next::Failed(e),
        }
    }

    /// Wait in a new stage.
    pub open spec fn enter(self, conn: ConnectionView, send: Seq<Seq<u8>>, stage: Stage) -> Reply {
        Reply {
            conn,
            session: SessionView { stage, rounds: 0, ..self },
            send,
            next: Next::Wait,
        }
    }

    /// Stay where it is, unless the stage has run out of rounds.
    pub open spec fn stay(
        self,
        conn: ConnectionView,
        send: Seq<Seq<u8>>,
        stuck: &'static str,
    ) -> Reply {
        if self.rounds + 1 >= MAX_EXEC_ITER {
            self.fail(conn, send, Error::Protocol(stuck))
        } else {
            Reply {
                conn,
                session: SessionView { rounds: self.rounds + 1, ..self },
                send,
                next: Next::Wait,
            }
        }
    }

    /// Send the requests that are ahead, up to one that waits for its reply.
    pub open spec fn ask(self, conn: ConnectionView, send: Seq<Seq<u8>>) -> Reply
        decreases self.asks.len(),
    {
        if self.asks.len() == 0 {
            match self.feed {
                Some(_) => SessionView { rounds: 0, ..self }.push_input(conn, send),
                None => self.settle(conn, send),
            }
        } else {
            let first = self.asks[0];
            let rest = SessionView { asks: self.asks.skip(1), ..self };
            match conn.send_request(self.channel, first.request, first.reply is Some) {
                Err(e) => rest.fail(conn, send, e),
                Ok(payload) => match first.reply {
                    Some(words) => rest.enter(conn, send.push(payload), Stage::Asking(words)),
                    None => rest.ask(conn, send.push(payload)),
                },
            }
        }
    }

    /// Push input until it is all sent or the peer's window is full. EOF
    /// follows the last of it.
    pub open spec fn push_input(self, conn: ConnectionView, send: Seq<Seq<u8>>) -> Reply
        decreases self.feed->0.bytes.len() - self.off,
    {
        let feed = self.feed->0;
        if self.off >= feed.bytes.len() {
            match conn.send_eof(self.channel) {
                Err(e) => self.fail(conn, send, e),
                Ok((after, payload)) => self.settle(after, send.push(payload)),
            }
        } else if self.rounds >= MAX_EXEC_ITER {
            self.fail(conn, send, Error::Protocol(feed.stuck))
        } else {
            match conn.send_data(self.channel, feed.bytes.skip(self.off as int)) {
                Err(e) => self.fail(conn, send, e),
                Ok((after, payload, n)) => {
                    let sent = SessionView { rounds: self.rounds + 1, ..self };
                    if n <= 0 {
                        Reply {
                            conn: after,
                            session: SessionView { stage: Stage::Feeding, ..sent },
                            send,
                            next: Next::Wait,
                        }
                    } else {
                        SessionView { off: (self.off + n) as nat, ..sent }.push_input(
                            after,
                            send.push(payload),
                        )
                    }
                },
            }
        }
    }

    /// All that was to be sent is sent.
    pub open spec fn settle(self, conn: ConnectionView, send: Seq<Seq<u8>>) -> Reply {
        match self.collect {
            Some(_) => self.enter(conn, send, Stage::Collecting),
            None => Reply {
                conn,
                session: SessionView { stage: Stage::Over, rounds: 0, ..self },
                send,
                next: Next::Ready,
            },
        }
    }

    /// Credit `n` received bytes to the peer.
    pub open spec fn credit(self, conn: ConnectionView, n: u32) -> Reply {
        match conn.replenish_window(self.channel, n) {
            Err(e) => self.fail(conn, Seq::empty(), e),
            Ok((after, adjust)) => self.stay(
                after,
                match adjust {
                    Some(payload) => seq![payload],
                    None => Seq::empty(),
                },
                self.collect->0.stuck,
            ),
        }
    }

    /// Keep `data` as standard output, or as standard error.
    pub open spec fn keep(self, conn: ConnectionView, data: Seq<u8>, stderr: bool) -> Reply {
        if self.out.size() + data.len() > MAX_EXEC_OUTPUT {
            self.fail(conn, Seq::empty(), Error::Protocol(self.collect->0.too_large))
        } else {
            let out = if stderr {
                OutputView { stderr: self.out.stderr + data, ..self.out }
            } else {
                OutputView { stdout: self.out.stdout + data, ..self.out }
            };
            SessionView { out, ..self }.credit(conn, data.len() as u32)
        }
    }

    /// The peer reported how the command ended, or asked for something that
    /// a client does not do.
    pub open spec fn report(
        self,
        conn: ConnectionView,
        request: ChannelRequestView,
        want_reply: bool,
    ) -> Reply {
        let out = match request {
            ChannelRequestView::ExitStatus { code } => OutputView {
                exit_status: Some(code),
                ..self.out
            },
            ChannelRequestView::ExitSignal { name, .. } => OutputView {
                exit_signal: Some(name),
                ..self.out
            },
            _ => self.out,
        };
        let heard = SessionView { out, ..self };
        if !want_reply {
            heard.stay(conn, Seq::empty(), self.collect->0.stuck)
        } else {
            match conn.send_reply(self.channel, MSG_CHANNEL_FAILURE) {
                Err(e) => heard.fail(conn, Seq::empty(), e),
                Ok(payload) => heard.stay(conn, seq![payload], self.collect->0.stuck),
            }
        }
    }

    /// The peer is done: answer its close.
    pub open spec fn finish(self, conn: ConnectionView) -> Reply {
        match conn.send_close(self.channel) {
            Err(e) => self.fail(conn, Seq::empty(), e),
            Ok((after, payload)) => Reply {
                conn: after,
                session: SessionView { stage: Stage::Over, rounds: 0, ..self },
                send: seq![payload],
                next: Next::Done,
            },
        }
    }

    /// An event while output is collected.
    pub open spec fn gather(self, conn: ConnectionView, event: EventView) -> Reply {
        let how = self.collect->0;
        let ignore = self.stay(conn, Seq::empty(), how.stuck);
        match event {
            EventView::Data { channel, data } => if channel == self.channel {
                self.keep(conn, data, false)
            } else {
                ignore
            },
            EventView::ExtendedData { channel, code, data } => if channel != self.channel {
                ignore
            } else if how.data_only {
                self.credit(conn, data.len() as u32)
            } else {
                self.keep(conn, data, code == SSH_EXTENDED_DATA_STDERR)
            },
            EventView::Request { channel, request, want_reply } => if channel == self.channel
                && !how.data_only {
                self.report(conn, request, want_reply)
            } else {
                ignore
            },
            EventView::Eof { channel } => if channel == self.channel && how.echo_eof
                && !self.eof_sent {
                match conn.send_eof(self.channel) {
                    Err(e) => self.fail(conn, Seq::empty(), e),
                    Ok((after, payload)) => SessionView { eof_sent: true, ..self }.stay(
                        after,
                        seq![payload],
                        how.stuck,
                    ),
                }
            } else {
                ignore
            },
            EventView::Close { channel } => if channel == self.channel {
                self.finish(conn)
            } else {
                ignore
            },
            _ => ignore,
        }
    }

    /// An event, whatever the session is waiting for.
    pub open spec fn on_event(self, conn: ConnectionView, event: EventView) -> Reply {
        match self.stage {
            Stage::Opening => match event {
                EventView::OpenConfirmed { channel } => if channel == self.channel {
                    self.ask(conn, Seq::empty())
                } else {
                    self.stay(conn, Seq::empty(), self.stuck)
                },
                EventView::OpenFailed { channel, .. } => if channel == self.channel {
                    self.fail(conn, Seq::empty(), Error::Protocol(self.failed))
                } else {
                    self.stay(conn, Seq::empty(), self.stuck)
                },
                _ => self.stay(conn, Seq::empty(), self.stuck),
            },
            Stage::Asking(words) => match event {
                EventView::Success { channel } => if channel == self.channel {
                    self.ask(conn, Seq::empty())
                } else {
                    self.stay(conn, Seq::empty(), words.stuck)
                },
                EventView::Failure { channel } => if channel == self.channel {
                    self.fail(conn, Seq::empty(), Error::Protocol(words.denied))
                } else {
                    self.stay(conn, Seq::empty(), words.stuck)
                },
                _ => self.stay(conn, Seq::empty(), words.stuck),
            },
            Stage::Feeding => match event {
                EventView::Close { channel } => if channel == self.channel {
                    self.fail(conn, Seq::empty(), Error::Protocol(self.feed->0.closed))
                } else {
                    self.push_input(conn, Seq::empty())
                },
                _ => self.push_input(conn, Seq::empty()),
            },
            Stage::Collecting => self.gather(conn, event),
            Stage::Over => Reply { conn, session: self, send: Seq::empty(), next: Next::Wait },
        }
    }

    /// An inbound payload. One that the connection protocol refuses ends the
    /// session.
    pub open spec fn on_payload(self, conn: ConnectionView, payload: Seq<u8>) -> Reply {
        match conn.on_packet(payload) {
            Err(e) => self.fail(conn, Seq::empty(), e),
            Ok((after, event)) => self.on_event(after, event),
        }
    }
}

/// A [`Script`] in progress.
#[derive(Debug)]
pub struct Session {
    channel: u32,
    stage: Stage,
    rounds: usize,
    stuck: &'static str,
    failed: &'static str,
    asks: VecDeque<Ask>,
    feed: Option<Feed>,
    off: usize,
    collect: Option<Collect>,
    eof_sent: bool,
    out: ExecOutput,
}

impl View for Session {
    type V = SessionView;

    closed spec fn view(&self) -> SessionView {
        SessionView {
            channel: self.channel,
            stage: self.stage,
            rounds: self.rounds as nat,
            stuck: self.stuck,
            failed: self.failed,
            asks: views(self.asks@),
            feed: opt_view(self.feed),
            off: self.off as nat,
            collect: self.collect,
            eof_sent: self.eof_sent,
            out: self.out@,
        }
    }
}

/// The views of a list grow with the list.
proof fn lemma_views_push(s: Seq<Vec<u8>>, x: Vec<u8>)
    ensures
        views(s.push(x)) == views(s).push(x@),
{
    assert(views(s.push(x)) =~= views(s).push(x@));
}

/// A list of one payload.
fn only(payload: Vec<u8>) -> (r: Vec<Vec<u8>>)
    ensures
        views(r@) == seq![payload@],
{
    let mut r: Vec<Vec<u8>> = Vec::new();
    r.push(payload);
    assert(views(r@) =~= seq![payload@]);
    r
}

/// A list without payloads.
fn nothing() -> (r: Vec<Vec<u8>>)
    ensures
        views(r@) == Seq::<Seq<u8>>::empty(),
{
    let r: Vec<Vec<u8>> = Vec::new();
    assert(views(r@) =~= Seq::<Seq<u8>>::empty());
    r
}

/// The outcome of a step of a session, as the model has it.
pub open spec fn follows(
    conn: ConnectionView,
    session: SessionView,
    step: Step,
    model: Reply,
) -> bool {
    model == (Reply { conn, session, send: views(step.send@), next: step.next })
}

impl Session {
    /// Open the channel of a script and start on it. Nothing but the open is
    /// sent before the peer answers.
    pub fn start(script: Script, conn: &mut ConnectionState) -> (r: (Session, Step))
        requires
            old(conn)@.has_room(),
        ensures
            r.0@.wf(),
            r.0@ == SessionView::opening(script@, old(conn)@.open(script@.kind).1),
            final(conn)@ == old(conn)@.open(script@.kind).0,
            views(r.1.send@) == seq![old(conn)@.open(script@.kind).2],
            r.1.next == Next::Wait,
    {
        let Script { kind, stuck, failed, asks, feed, collect } = script;
        let (channel, payload) = match conn.open(kind) {
            Ok(opened) => opened,
            Err(_) => {
                assert(false);
                (0, Vec::new())
            },
        };
        let out = ExecOutput {
            stdout: Vec::new(),
            stderr: Vec::new(),
            exit_status: None,
            exit_signal: None,
        };
        let session = Session {
            channel,
            stage: Stage::Opening,
            rounds: 0,
            stuck,
            failed,
            asks,
            feed,
            off: 0,
            collect,
            eof_sent: false,
            out,
        };
        assert(session@ =~= SessionView::opening(script@, channel));
        (session, Step { send: only(payload), next: Next::Wait })
    }

    /// The local id of the session's channel.
    pub fn channel(&self) -> (r: u32)
        ensures
            r == self@.channel,
    {
        self.channel
    }

    /// What has been collected.
    pub fn into_output(self) -> (r: ExecOutput)
        ensures
            r@ == self@.out,
    {
        self.out
    }

    /// Give up.
    fn fail(&mut self, send: Vec<Vec<u8>>, e: Error) -> (step: Step)
        ensures
            forall|conn: ConnectionView|
                follows(
                    conn,
                    final(self)@,
                    step,
                    #[trigger] old(self)@.fail(conn, views(send@), e),
                ),
    {
        self.stage = Stage::Over;
        self.rounds = 0;
        Step { send, next: Next::Failed(e) }
    }

    /// Wait in a new stage.
    fn enter(&mut self, send: Vec<Vec<u8>>, stage: Stage) -> (step: Step)
        ensures
            forall|conn: ConnectionView|
                follows(
                    conn,
                    final(self)@,
                    step,
                    #[trigger] old(self)@.enter(conn, views(send@), stage),
                ),
    {
        self.stage = stage;
        self.rounds = 0;
        Step { send, next: Next::Wait }
    }

    /// Stay, unless the stage has run out of rounds.
    fn stay(&mut self, send: Vec<Vec<u8>>, stuck: &'static str) -> (step: Step)
        requires
            old(self)@.rounds < MAX_EXEC_ITER,
        ensures
            forall|conn: ConnectionView|
                follows(
                    conn,
                    final(self)@,
                    step,
                    #[trigger] old(self)@.stay(conn, views(send@), stuck),
                ),
    {
        if self.rounds + 1 >= MAX_EXEC_ITER {
            return self.fail(send, Error::Protocol(stuck));
        }
        self.rounds = self.rounds + 1;
        Step { send, next: Next::Wait }
    }

    /// All that was to be sent is sent.
    fn settle(&mut self, send: Vec<Vec<u8>>) -> (step: Step)
        ensures
            forall|conn: ConnectionView|
                follows(
                    conn,
                    final(self)@,
                    step,
                    #[trigger] old(self)@.settle(conn, views(send@)),
                ),
    {
        match self.collect {
            Some(_) => self.enter(send, Stage::Collecting),
            None => {
                self.stage = Stage::Over;
                self.rounds = 0;
                Step { send, next: Next::Ready }
            },
        }
    }

    /// Take the next request that is ahead.
    fn next_ask(&mut self) -> (r: Option<Ask>)
        ensures
            match r {
                None => old(self)@.asks.len() == 0 && final(self)@ == old(self)@,
                Some(ask) => {
                    &&& old(self)@.asks.len() > 0
                    &&& ask@ == old(self)@.asks[0]
                    &&& final(self)@ == (SessionView { asks: old(self)@.asks.skip(1), ..old(self)@ })
                },
            },
    {
        let r = self.asks.pop_front();
        assert(r is Some ==> self@.asks =~= old(self)@.asks.skip(1));
        r
    }

    /// Send the requests that are ahead, up to one that waits for its reply.
    fn ask(&mut self, conn: &mut ConnectionState) -> (step: Step)
        requires
            old(self)@.wf(),
            old(self)@.stage !is Feeding,
        ensures
            final(self)@.wf(),
            follows(
                final(conn)@,
                final(self)@,
                step,
                old(self)@.ask(old(conn)@, Seq::empty()),
            ),
    {
        let mut send = nothing();
        let ghost model = self@.ask(conn@, Seq::empty());
        loop
            invariant
                self@.wf(),
                self@.stage !is Feeding,
                self@.ask(conn@, views(send@)) == model,
                model == old(self)@.ask(old(conn)@, Seq::empty()),
            decreases self@.asks.len(),
        {
            match self.next_ask() {
                None => {
                    if self.feed.is_some() {
                        self.rounds = 0;
                        return self.push_input(conn, send);
                    }
                    return self.settle(send);
                },
                Some(ask) => {
                    let Ask { request, reply } = ask;
                    match conn.send_request(self.channel, request, reply.is_some()) {
                        Err(e) => return self.fail(send, e),
                        Ok(payload) => {
                            proof {
                                lemma_views_push(send@, payload);
                            }
                            send.push(payload);
                            if let Some(words) = reply {
                                return self.enter(send, Stage::Asking(words));
                            }
                        },
                    }
                },
            }
        }
    }

    /// Push input until it is all sent or the peer's window is full.
    fn push_input(&mut self, conn: &mut ConnectionState, sent: Vec<Vec<u8>>) -> (step: Step)
        requires
            old(self)@.feed is Some,
            old(self)@.off <= old(self)@.feed->0.bytes.len(),
            old(self)@.rounds <= MAX_EXEC_ITER,
            old(self)@.out.size() <= MAX_EXEC_OUTPUT,
        ensures
            final(self)@.wf(),
            follows(
                final(conn)@,
                final(self)@,
                step,
                old(self)@.push_input(old(conn)@, views(sent@)),
            ),
    {
        let mut send = sent;
        let ghost model = self@.push_input(conn@, views(send@));
        loop
            invariant
                self@.feed is Some,
                self@.off <= self@.feed->0.bytes.len(),
                self@.rounds <= MAX_EXEC_ITER,
                self@.out.size() <= MAX_EXEC_OUTPUT,
                self@.push_input(conn@, views(send@)) == model,
                model == old(self)@.push_input(old(conn)@, views(sent@)),
            decreases self@.feed->0.bytes.len() - self@.off,
        {
            let (len, stuck): (usize, &'static str) = match &self.feed {
                Some(feed) => (feed.bytes.len(), feed.stuck),
                None => (0, ""),
            };
            if self.off >= len {
                match conn.send_eof(self.channel) {
                    Err(e) => return self.fail(send, e),
                    Ok(payload) => {
                        proof {
                            lemma_views_push(send@, payload);
                        }
                        send.push(payload);
                        return self.settle(send);
                    },
                }
            }
            if self.rounds >= MAX_EXEC_ITER {
                return self.fail(send, Error::Protocol(stuck));
            }
            let pushed = match &self.feed {
                Some(feed) => {
                    let rest = vstd::slice::slice_subrange(feed.bytes.as_slice(), self.off, len);
                    assert(rest@ =~= feed.bytes@.skip(self.off as int));
                    conn.send_data(self.channel, rest)
                },
                None => Err(Error::BadChannelState),
            };
            match pushed {
                Err(e) => return self.fail(send, e),
                Ok((payload, taken)) => {
                    self.rounds = self.rounds + 1;
                    if taken == 0 {
                        self.stage = Stage::Feeding;
                        return Step { send, next: Next::Wait };
                    }
                    self.off = self.off + taken;
                    proof {
                        lemma_views_push(send@, payload);
                    }
                    send.push(payload);
                },
            }
        }
    }

    /// The words for a close that never comes.
    fn stuck_collecting(&self) -> (r: &'static str)
        requires
            self@.collect is Some,
        ensures
            r == self@.collect->0.stuck,
    {
        match self.collect {
            Some(how) => how.stuck,
            None => "",
        }
    }

    /// Credit `n` received bytes to the peer.
    fn credit(&mut self, conn: &mut ConnectionState, n: u32) -> (step: Step)
        requires
            old(self)@.wf(),
            old(self)@.stage is Collecting,
        ensures
            final(self)@.wf(),
            follows(final(conn)@, final(self)@, step, old(self)@.credit(old(conn)@, n)),
    {
        let stuck = self.stuck_collecting();
        match conn.replenish_window(self.channel, n) {
            Err(e) => self.fail(nothing(), e),
            Ok(Some(adjust)) => self.stay(only(adjust), stuck),
            Ok(None) => self.stay(nothing(), stuck),
        }
    }

    /// Keep `data` as standard output, or as standard error.
    fn keep(&mut self, conn: &mut ConnectionState, data: &[u8], stderr: bool) -> (step: Step)
        requires
            old(self)@.wf(),
            old(self)@.stage is Collecting,
        ensures
            final(self)@.wf(),
            follows(final(conn)@, final(self)@, step, old(self)@.keep(old(conn)@, data@, stderr)),
    {
        let too_large = match self.collect {
            Some(how) => how.too_large,
            None => "",
        };
        if data.len() > MAX_EXEC_OUTPUT - (self.out.stdout.len() + self.out.stderr.len()) {
            return self.fail(nothing(), Error::Protocol(too_large));
        }
        if stderr {
            self.out.stderr.extend_from_slice(data);
            assert(self.out@.stderr =~= old(self)@.out.stderr + data@);
        } else {
            self.out.stdout.extend_from_slice(data);
            assert(self.out@.stdout =~= old(self)@.out.stdout + data@);
        }
        self.credit(conn, data.len() as u32)
    }

    /// The peer reported how the command ended, or asked for something.
    fn report(
        &mut self,
        conn: &mut ConnectionState,
        request: ChannelRequest,
        want_reply: bool,
    ) -> (step: Step)
        requires
            old(self)@.wf(),
            old(self)@.stage is Collecting,
        ensures
            final(self)@.wf(),
            follows(
                final(conn)@,
                final(self)@,
                step,
                old(self)@.report(old(conn)@, request@, want_reply),
            ),
    {
        let stuck = self.stuck_collecting();
        match request {
            ChannelRequest::ExitStatus { code } => self.out.exit_status = Some(code),
            ChannelRequest::ExitSignal { name, .. } => self.out.exit_signal = Some(name),
            _ => {},
        }
        if !want_reply {
            return self.stay(nothing(), stuck);
        }
        match conn.send_request_failure(self.channel) {
            Err(e) => self.fail(nothing(), e),
            Ok(payload) => self.stay(only(payload), stuck),
        }
    }

    /// The peer is done: answer its close.
    fn finish(&mut self, conn: &mut ConnectionState) -> (step: Step)
        requires
            old(self)@.wf(),
        ensures
            final(self)@.wf(),
            follows(final(conn)@, final(self)@, step, old(self)@.finish(old(conn)@)),
    {
        match conn.send_close(self.channel) {
            Err(e) => self.fail(nothing(), e),
            Ok(payload) => {
                self.stage = Stage::Over;
                self.rounds = 0;
                Step { send: only(payload), next: Next::Done }
            },
        }
    }

    /// An event while output is collected.
    fn gather(&mut self, conn: &mut ConnectionState, event: ChannelEvent) -> (step: Step)
        requires
            old(self)@.wf(),
            old(self)@.stage is Collecting,
        ensures
            final(self)@.wf(),
            follows(final(conn)@, final(self)@, step, old(self)@.gather(old(conn)@, event@)),
    {
        let stuck = self.stuck_collecting();
        let (echo_eof, data_only) = match self.collect {
            Some(how) => (how.echo_eof, how.data_only),
            None => (false, false),
        };
        match event {
            ChannelEvent::Data { channel, data } => {
                if channel == self.channel {
                    return self.keep(conn, data.as_slice(), false);
                }
            },
            ChannelEvent::ExtendedData { channel, code, data } => {
                if channel == self.channel {
                    if data_only {
                        return self.credit(conn, data.len() as u32);
                    }
                    return self.keep(conn, data.as_slice(), code == SSH_EXTENDED_DATA_STDERR);
                }
            },
            ChannelEvent::Request { channel, request, want_reply } => {
                if channel == self.channel && !data_only {
                    return self.report(conn, request, want_reply);
                }
            },
            ChannelEvent::Eof { channel } => {
                if channel == self.channel && echo_eof && !self.eof_sent {
                    match conn.send_eof(self.channel) {
                        Err(e) => return self.fail(nothing(), e),
                        Ok(payload) => {
                            self.eof_sent = true;
                            return self.stay(only(payload), stuck);
                        },
                    }
                }
            },
            ChannelEvent::Close { channel } => {
                if channel == self.channel {
                    return self.finish(conn);
                }
            },
            _ => {},
        }
        self.stay(nothing(), stuck)
    }

    /// An event, whatever the session is waiting for.
    fn on_event(&mut self, conn: &mut ConnectionState, event: ChannelEvent) -> (step: Step)
        requires
            old(self)@.wf(),
        ensures
            final(self)@.wf(),
            follows(final(conn)@, final(self)@, step, old(self)@.on_event(old(conn)@, event@)),
    {
        match self.stage {
            Stage::Opening => {
                let stuck = self.stuck;
                match event {
                    ChannelEvent::OpenConfirmed { channel } => {
                        if channel == self.channel {
                            return self.ask(conn);
                        }
                    },
                    ChannelEvent::OpenFailed { channel, .. } => {
                        if channel == self.channel {
                            let failed = self.failed;
                            return self.fail(nothing(), Error::Protocol(failed));
                        }
                    },
                    _ => {},
                }
                self.stay(nothing(), stuck)
            },
            Stage::Asking(words) => {
                match event {
                    ChannelEvent::Success { channel } => {
                        if channel == self.channel {
                            return self.ask(conn);
                        }
                    },
                    ChannelEvent::Failure { channel } => {
                        if channel == self.channel {
                            return self.fail(nothing(), Error::Protocol(words.denied));
                        }
                    },
                    _ => {},
                }
                self.stay(nothing(), words.stuck)
            },
            Stage::Feeding => {
                let closed = match &self.feed {
                    Some(feed) => feed.closed,
                    None => "",
                };
                if let ChannelEvent::Close { channel } = event {
                    if channel == self.channel {
                        return self.fail(nothing(), Error::Protocol(closed));
                    }
                }
                self.push_input(conn, nothing())
            },
            Stage::Collecting => self.gather(conn, event),
            Stage::Over => Step { send: nothing(), next: Next::Wait },
        }
    }

    /// Take an inbound payload, as far as the session is concerned. A payload
    /// that the connection protocol refuses ends the session; a session that
    /// has ended ignores what still arrives.
    pub fn on_payload(&mut self, conn: &mut ConnectionState, payload: &[u8]) -> (step: Step)
        requires
            old(self)@.wf(),
            payload@.len() > 0 && payload@[0] == MSG_CHANNEL_OPEN ==> old(conn)@.has_room(),
        ensures
            final(self)@.wf(),
            follows(final(conn)@, final(self)@, step, old(self)@.on_payload(old(conn)@, payload@)),
    {
        match conn.on_packet(payload) {
            Err(e) => self.fail(nothing(), e),
            Ok(event) => self.on_event(conn, event),
        }
    }
}

} // verus!
