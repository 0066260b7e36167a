//! The state of a client: the channels it has open, what every session of
//! its asks for, and which forwards it has been granted.

use super::forward::{
    Answered, ForwardRequest, ForwardRequestView, ForwardStep, Forwarding, ForwardingView, Grants,
    GrantsView,
};
use super::serve::{ClientHandlers, Granted, ServeState, ServeStep};
use super::session::{
    AskView, Await, Ask, Collect, Feed, FeedView, Next, Script, ScriptView, Session, SessionView,
    Step, MAX_EXEC_ITER,
};
use super::streamlocal::{direct_open, direct_streamlocal};
use crate::channel::layout::{asks_for_connection, lemma_direct_connection_layout};
use crate::channel::model::{global_payload, ConnectionView};
use crate::channel::open::ChannelOpenView;
use crate::channel::request::ChannelRequestView;
use crate::channel::{
    ChannelOpen, ChannelRequest, ConnectionState, DEFAULT_MAX_PACKET, DEFAULT_WINDOW,
    MSG_CHANNEL_OPEN,
};
use crate::text::{opt_view, views};
use std::collections::VecDeque;
use vstd::prelude::*;

verus! {

/// The body of the `x11-req` that a session sends.
#[derive(Debug)]
pub struct X11ReqArgs {
    /// Accept exactly one X client.
    pub single_connection: bool,
    /// Authentication protocol name.
    pub auth_protocol: String,
    /// Authentication cookie, hex-encoded.
    pub auth_cookie: String,
    /// X screen number.
    pub screen: u32,
}

/// The body of the `pty-req` that a session sends.
#[derive(Debug)]
pub struct PtyReqArgs {
    /// Value for `TERM`.
    pub term: String,
    /// Width in characters.
    pub cols: u32,
    /// Height in characters.
    pub rows: u32,
    /// Width in pixels.
    pub px_w: u32,
    /// Height in pixels.
    pub px_h: u32,
    /// Encoded terminal modes.
    pub modes: Vec<u8>,
}

impl View for X11ReqArgs {
    type V = ChannelRequestView;

    open spec fn view(&self) -> ChannelRequestView {
        ChannelRequestView::X11Req {
            single_connection: self.single_connection,
            auth_protocol: self.auth_protocol@,
            auth_cookie: self.auth_cookie@,
            screen: self.screen,
        }
    }
}

impl View for PtyReqArgs {
    type V = ChannelRequestView;

    open spec fn view(&self) -> ChannelRequestView {
        ChannelRequestView::PtyReq {
            term: self.term@,
            cols: self.cols,
            rows: self.rows,
            px_w: self.px_w,
            px_h: self.px_h,
            modes: self.modes@,
        }
    }
}

impl X11ReqArgs {
    /// The request.
    fn request(&self) -> (r: ChannelRequest)
        ensures
            r@ == self@,
    {
        ChannelRequest::X11Req {
            single_connection: self.single_connection,
            auth_protocol: self.auth_protocol.clone(),
            auth_cookie: self.auth_cookie.clone(),
            screen: self.screen,
        }
    }
}

impl PtyReqArgs {
    /// The request.
    fn request(&self) -> (r: ChannelRequest)
        ensures
            r@ == self@,
    {
        let modes = vstd::slice::slice_to_vec(self.modes.as_slice());
        assert(modes@ =~= self.modes@);
        ChannelRequest::PtyReq {
            term: self.term.clone(),
            cols: self.cols,
            rows: self.rows,
            px_w: self.px_w,
            px_h: self.px_h,
            modes,
        }
    }
}

/// A request that wants no reply.
pub open spec fn quiet(request: ChannelRequestView) -> AskView {
    AskView { request, reply: None }
}

/// A request that waits for its reply.
pub open spec fn awaited(
    request: ChannelRequestView,
    stuck: &'static str,
    denied: &'static str,
) -> AskView {
    AskView { request, reply: Some(Await { stuck, denied }) }
}

/// How most helpers word a request that goes wrong.
pub open spec fn replied(request: ChannelRequestView) -> AskView {
    awaited(
        request,
        "shell: request-reply loop did not converge",
        "shell: channel request denied",
    )
}

/// What a client is set up to do, and what it has going on.
#[verifier::ext_equal]
pub ghost struct ClientView {
    pub conn: ConnectionView,
    pub request_auth_agent: bool,
    pub request_x11: Option<ChannelRequestView>,
    pub session_env: Seq<(Seq<char>, Seq<char>)>,
    pub keepalive: Option<(u64, u32)>,
    pub request_pty: Option<ChannelRequestView>,
    pub grants: GrantsView,
}

/// The view of a pair of strings.
pub open spec fn pair_view(p: (String, String)) -> (Seq<char>, Seq<char>) {
    (p.0@, p.1@)
}

/// The requests that set the variables of an environment.
pub open spec fn env_asks(env: Seq<(Seq<char>, Seq<char>)>) -> Seq<AskView> {
    env.map_values(
        |p: (Seq<char>, Seq<char>)| quiet(ChannelRequestView::Env { name: p.0, value: p.1 }),
    )
}

/// A request that may have been set up.
pub open spec fn optional_ask(request: Option<ChannelRequestView>) -> Seq<AskView> {
    match request {
        Some(r) => seq![quiet(r)],
        None => Seq::empty(),
    }
}

impl ClientView {
    /// `auth-agent-req@openssh.com`, if forwarding of the agent is on, then
    /// `x11-req`, if forwarding of a display is on.
    pub open spec fn forwarding_asks(self) -> Seq<AskView> {
        (if self.request_auth_agent {
            seq![quiet(ChannelRequestView::AuthAgentReq)]
        } else {
            Seq::empty()
        }) + optional_ask(self.request_x11)
    }

    /// Forwarding, then the environment.
    pub open spec fn session_asks(self) -> Seq<AskView> {
        self.forwarding_asks() + env_asks(self.session_env)
    }

    /// Forwarding, the environment, and the terminal.
    pub open spec fn exec_asks(self) -> Seq<AskView> {
        self.session_asks() + optional_ask(self.request_pty)
    }

    /// Run a command and collect its output.
    pub open spec fn exec_script(self, command: Seq<char>) -> ScriptView {
        ScriptView {
            kind: ChannelOpenView::Session,
            stuck: "exec: open loop did not converge",
            failed: "channel open failed",
            asks: self.exec_asks().push(
                awaited(
                    ChannelRequestView::Exec { command },
                    "exec: request loop did not converge",
                    "exec request denied",
                ),
            ),
            feed: None,
            collect: Some(
                Collect {
                    echo_eof: true,
                    data_only: false,
                    too_large: "exec output too large",
                    stuck: "exec: drain loop exceeded iteration cap",
                },
            ),
        }
    }

    /// Run a shell on a terminal, give it `stdin`, and collect its output.
    pub open spec fn shell_script(
        self,
        term: Seq<char>,
        cols: u32,
        rows: u32,
        stdin: Seq<u8>,
    ) -> ScriptView {
        ScriptView {
            kind: ChannelOpenView::Session,
            stuck: "shell: open loop did not converge",
            failed: "channel open failed",
            asks: self.session_asks().push(
                replied(
                    ChannelRequestView::PtyReq {
                        term,
                        cols,
                        rows,
                        px_w: 0,
                        px_h: 0,
                        modes: Seq::empty(),
                    },
                ),
            ).push(replied(ChannelRequestView::Shell)),
            feed: Some(
                FeedView {
                    bytes: stdin,
                    stuck: "shell: stdin drain loop did not converge",
                    closed: "shell: peer closed channel before stdin drain",
                },
            ),
            collect: Some(
                Collect {
                    echo_eof: false,
                    data_only: false,
                    too_large: "shell output too large",
                    stuck: "shell: drain loop exceeded iteration cap",
                },
            ),
        }
    }

    /// Run a subsystem, give it `stdin`, and collect its data.
    pub open spec fn subsystem_script(name: Seq<char>, stdin: Seq<u8>) -> ScriptView {
        ScriptView {
            kind: ChannelOpenView::Session,
            stuck: "subsystem: open loop did not converge",
            failed: "channel open failed",
            asks: seq![replied(ChannelRequestView::Subsystem { name })],
            feed: Some(
                FeedView {
                    bytes: stdin,
                    stuck: "subsystem: stdin drain loop did not converge",
                    closed: "subsystem: peer closed channel before stdin drain",
                },
            ),
            collect: Some(
                Collect {
                    echo_eof: false,
                    data_only: true,
                    too_large: "subsystem output too large",
                    stuck: "subsystem: drain loop exceeded iteration cap",
                },
            ),
        }
    }

    /// Start the `sftp` subsystem on a channel.
    pub open spec fn sftp_script(self) -> ScriptView {
        ScriptView {
            kind: ChannelOpenView::Session,
            stuck: "sftp: open loop did not converge",
            failed: "channel open failed",
            asks: self.forwarding_asks().push(
                replied(ChannelRequestView::Subsystem { name: "sftp"@ }),
            ),
            feed: None,
            collect: None,
        }
    }

    /// Run a command on a channel.
    pub open spec fn exec_stream_script(self, command: Seq<char>) -> ScriptView {
        ScriptView {
            kind: ChannelOpenView::Session,
            stuck: "exec_stream: open loop did not converge",
            failed: "exec_stream: channel open failed",
            asks: self.session_asks().push(replied(ChannelRequestView::Exec { command })),
            feed: None,
            collect: None,
        }
    }

    /// Open a channel and send at most one request on it, which wants no
    /// reply.
    pub open spec fn bare_script(
        kind: ChannelOpenView,
        request: Option<ChannelRequestView>,
        stuck: &'static str,
        failed: &'static str,
    ) -> ScriptView {
        ScriptView { kind, stuck, failed, asks: optional_ask(request), feed: None, collect: None }
    }

    /// The session that running `script` starts, the client afterwards, and
    /// the open to transmit.
    pub open spec fn begin(self, script: ScriptView) -> (ClientView, SessionView, Seq<u8>) {
        let (conn, channel, payload) = self.conn.open(script.kind);
        (ClientView { conn, ..self }, SessionView::opening(script, channel), payload)
    }
}

/// The outcome of starting a script, as the model has it.
pub open spec fn begun(
    before: ClientView,
    after: ClientView,
    r: (Session, Step),
    script: ScriptView,
) -> bool {
    &&& r.0@.wf()
    &&& (after, r.0@) == (before.begin(script).0, before.begin(script).1)
    &&& views(r.1.send@) == seq![before.begin(script).2]
    &&& r.1.next == Next::Wait
}

/// A client, as far as it is not a transport: the frontend feeds it decoded
/// payloads and transmits what it gives back.
#[derive(Debug)]
pub struct Client {
    conn: ConnectionState,
    request_auth_agent: bool,
    request_x11: Option<X11ReqArgs>,
    session_env: Vec<(String, String)>,
    keepalive: Option<(u64, u32)>,
    request_pty: Option<PtyReqArgs>,
    grants: Grants,
}

impl View for Client {
    type V = ClientView;

    closed spec fn view(&self) -> ClientView {
        ClientView {
            conn: self.conn@,
            request_auth_agent: self.request_auth_agent,
            request_x11: opt_view(self.request_x11),
            session_env: self.session_env@.map_values(|p: (String, String)| pair_view(p)),
            keepalive: self.keepalive,
            request_pty: opt_view(self.request_pty),
            grants: self.grants@,
        }
    }
}

/// Add a request that wants no reply.
fn push_quiet(asks: &mut VecDeque<Ask>, request: ChannelRequest)
    ensures
        views(final(asks)@) == views(old(asks)@).push(quiet(request@)),
{
    let ask = Ask { request, reply: None };
    asks.push_back(ask);
    assert(views(asks@) =~= views(old(asks)@).push(quiet(request@)));
}

/// Add a request that waits for its reply.
fn push_awaited(
    asks: &mut VecDeque<Ask>,
    request: ChannelRequest,
    stuck: &'static str,
    denied: &'static str,
)
    ensures
        views(final(asks)@) == views(old(asks)@).push(awaited(request@, stuck, denied)),
{
    let ask = Ask { request, reply: Some(Await { stuck, denied }) };
    asks.push_back(ask);
    assert(views(asks@) =~= views(old(asks)@).push(awaited(request@, stuck, denied)));
}

/// Add a request with the usual words.
fn push_replied(asks: &mut VecDeque<Ask>, request: ChannelRequest)
    ensures
        views(final(asks)@) == views(old(asks)@).push(replied(request@)),
{
    push_awaited(
        asks,
        request,
        "shell: request-reply loop did not converge",
        "shell: channel request denied",
    );
}

/// A list without requests.
fn no_asks() -> (asks: VecDeque<Ask>)
    ensures
        views(asks@) == Seq::<AskView>::empty(),
{
    let asks: VecDeque<Ask> = VecDeque::new();
    assert(views(asks@) =~= Seq::<AskView>::empty());
    asks
}

impl Client {
    /// A client with no channels and nothing set up.
    pub fn new() -> (r: Client)
        ensures
            r@ == (ClientView {
                conn: ConnectionView {
                    channels: Map::empty(),
                    next_local_id: 0,
                    default_window: DEFAULT_WINDOW,
                    default_max_packet: DEFAULT_MAX_PACKET,
                },
                request_auth_agent: false,
                request_x11: None,
                session_env: Seq::empty(),
                keepalive: None,
                request_pty: None,
                grants: GrantsView::none(),
            }),
    {
        let r = Client {
            conn: ConnectionState::new(),
            request_auth_agent: false,
            request_x11: None,
            session_env: Vec::new(),
            keepalive: None,
            request_pty: None,
            grants: Grants::new(),
        };
        assert(r@.session_env =~= Seq::empty());
        r
    }

    /// Whether another channel can be opened.
    pub fn has_room(&self) -> (r: bool)
        ensures
            r == self@.conn.has_room(),
    {
        self.conn.has_room()
    }

    /// The channels, for what the other methods do not cover.
    pub fn conn_mut(&mut self) -> (r: &mut ConnectionState)
        ensures
            r@ == old(self)@.conn,
            final(self)@ == (ClientView { conn: final(r)@, ..old(self)@ }),
    {
        &mut self.conn
    }

    /// Of which sorts forwards are in force.
    pub fn granted(&self) -> (r: Granted)
        ensures
            r == self@.grants.granted(),
    {
        self.grants.granted()
    }

    /// Ask for agent forwarding (`ssh -A`) on every session from now on, or
    /// stop doing so.
    pub fn set_request_auth_agent_forwarding(&mut self, on: bool)
        ensures
            final(self)@ == (ClientView { request_auth_agent: on, ..old(self)@ }),
    {
        self.request_auth_agent = on;
    }

    /// Ask for X11 forwarding (`ssh -X`) on every session from now on: whether
    /// a single connection is accepted, the authentication protocol, the
    /// cookie, and the screen. `None` stops it.
    pub fn set_request_x11_forwarding(&mut self, args: Option<(bool, String, String, u32)>)
        ensures
            final(self)@ == (ClientView {
                request_x11: match args {
                    Some(a) => Some(
                        ChannelRequestView::X11Req {
                            single_connection: a.0,
                            auth_protocol: a.1@,
                            auth_cookie: a.2@,
                            screen: a.3,
                        },
                    ),
                    None => None,
                },
                ..old(self)@
            }),
    {
        self.request_x11 = match args {
            Some((single_connection, auth_protocol, auth_cookie, screen)) => Some(
                X11ReqArgs { single_connection, auth_protocol, auth_cookie, screen },
            ),
            None => None,
        };
    }

    /// Set the environment variables that [`Self::exec`], [`Self::exec_stream`]
    /// and [`Self::shell_with_stdin`] ask for from now on.
    /// The server's `AcceptEnv` decides which of them it takes.
    pub fn set_session_env(&mut self, env: Vec<(String, String)>)
        ensures
            final(self)@ == (ClientView {
                session_env: env@.map_values(|p: (String, String)| pair_view(p)),
                ..old(self)@
            }),
    {
        self.session_env = env;
    }

    /// Probe the server after `interval_secs` of silence, and give up on it
    /// once `count_max` probes have gone unanswered; at least one is sent.
    /// An interval of 0 turns probing off.
    pub fn set_keepalive(&mut self, interval_secs: u32, count_max: u32)
        ensures
            final(self)@ == (ClientView {
                keepalive: if interval_secs == 0 {
                    None
                } else {
                    Some((interval_secs as u64, if count_max < 1 { 1 } else { count_max }))
                },
                ..old(self)@
            }),
    {
        self.keepalive = if interval_secs == 0 {
            None
        } else {
            Some((interval_secs as u64, if count_max < 1 { 1 } else { count_max }))
        };
    }

    /// The keepalive interval in seconds, and the number of probes.
    pub fn keepalive(&self) -> (r: Option<(u64, u32)>)
        ensures
            r == self@.keepalive,
    {
        self.keepalive
    }

    /// Have [`Self::exec`], and it alone, run commands under a pseudo-terminal
    /// from now on: `TERM`, the size in characters and in pixels, and the
    /// encoded modes. `None` stops it.
    pub fn set_request_pty(&mut self, args: Option<(String, u32, u32, u32, u32, Vec<u8>)>)
        ensures
            final(self)@ == (ClientView {
                request_pty: match args {
                    Some(a) => Some(
                        ChannelRequestView::PtyReq {
                            term: a.0@,
                            cols: a.1,
                            rows: a.2,
                            px_w: a.3,
                            px_h: a.4,
                            modes: a.5@,
                        },
                    ),
                    None => None,
                },
                ..old(self)@
            }),
    {
        self.request_pty = match args {
            Some((term, cols, rows, px_w, px_h, modes)) => Some(
                PtyReqArgs { term, cols, rows, px_w, px_h, modes },
            ),
            None => None,
        };
    }

    /// The forwarding requests that are set up.
    fn forwarding_asks(&self) -> (asks: VecDeque<Ask>)
        ensures
            views(asks@) == self@.forwarding_asks(),
    {
        let mut asks = no_asks();
        if self.request_auth_agent {
            push_quiet(&mut asks, ChannelRequest::AuthAgentReq);
        }
        if let Some(args) = &self.request_x11 {
            push_quiet(&mut asks, args.request());
        }
        assert(views(asks@) =~= self@.forwarding_asks());
        asks
    }

    /// The forwarding requests, and the environment.
    fn session_asks(&self) -> (asks: VecDeque<Ask>)
        ensures
            views(asks@) == self@.session_asks(),
    {
        let mut asks = self.forwarding_asks();
        let ghost base = views(asks@);
        let ghost env = self@.session_env;
        let mut i: usize = 0;
        let n: usize = self.session_env.len();
        while i < n
            invariant
                i <= n,
                n == self.session_env@.len(),
                env == self@.session_env,
                env == self.session_env@.map_values(|p: (String, String)| pair_view(p)),
                views(asks@) == base + env_asks(env.take(i as int)),
            decreases n - i,
        {
            let name = self.session_env[i].0.clone();
            let value = self.session_env[i].1.clone();
            push_quiet(&mut asks, ChannelRequest::Env { name, value });
            proof {
                let before = env.take(i as int);
                assert(env.take(i + 1) =~= before.push(env[i as int]));
                assert(env_asks(env.take(i + 1)) =~= env_asks(before).push(
                    quiet(ChannelRequestView::Env { name: name@, value: value@ }),
                ));
                assert(views(asks@) =~= base + env_asks(env.take(i + 1)));
            }
            i += 1;
        }
        assert(env.take(n as int) =~= env);
        asks
    }

    /// The requests that precede a command whose output is collected.
    fn exec_asks(&self) -> (asks: VecDeque<Ask>)
        ensures
            views(asks@) == self@.exec_asks(),
    {
        let mut asks = self.session_asks();
        if let Some(args) = &self.request_pty {
            push_quiet(&mut asks, args.request());
        }
        assert(views(asks@) =~= self@.exec_asks());
        asks
    }

    /// Start on a script.
    fn begin(&mut self, script: Script) -> (r: (Session, Step))
        requires
            old(self)@.conn.has_room(),
        ensures
            begun(old(self)@, final(self)@, r, script@),
    {
        Session::start(script, &mut self.conn)
    }

    /// Run a remote command, draining stdout and stderr and capturing the
    /// exit status or signal. The session is done once the server has closed
    /// the channel.
    pub fn exec(&mut self, command: &str) -> (r: (Session, Step))
        requires
            old(self)@.conn.has_room(),
        ensures
            begun(old(self)@, final(self)@, r, old(self)@.exec_script(command@)),
    {
        let mut asks = self.exec_asks();
        push_awaited(
            &mut asks,
            ChannelRequest::Exec { command: command.to_owned() },
            "exec: request loop did not converge",
            "exec request denied",
        );
        self.begin(
            Script {
                kind: ChannelOpen::Session,
                stuck: "exec: open loop did not converge",
                failed: "channel open failed",
                asks,
                feed: None,
                collect: Some(
                    Collect {
                        echo_eof: true,
                        data_only: false,
                        too_large: "exec output too large",
                        stuck: "exec: drain loop exceeded iteration cap",
                    },
                ),
            },
        )
    }

    /// Run a shell on a pseudo-terminal, push `stdin` into it once, EOF, and
    /// drain the response until the server closes the channel.
    pub fn shell_with_stdin(&mut self, term: &str, cols: u32, rows: u32, stdin: &[u8]) -> (r: (
        Session,
        Step,
    ))
        requires
            old(self)@.conn.has_room(),
        ensures
            begun(
                old(self)@,
                final(self)@,
                r,
                old(self)@.shell_script(term@, cols, rows, stdin@),
            ),
    {
        let mut asks = self.session_asks();
        let modes: Vec<u8> = Vec::new();
        assert(modes@ =~= Seq::<u8>::empty());
        push_replied(
            &mut asks,
            ChannelRequest::PtyReq { term: term.to_owned(), cols, rows, px_w: 0, px_h: 0, modes },
        );
        push_replied(&mut asks, ChannelRequest::Shell);
        let bytes = vstd::slice::slice_to_vec(stdin);
        assert(bytes@ =~= stdin@);
        self.begin(
            Script {
                kind: ChannelOpen::Session,
                stuck: "shell: open loop did not converge",
                failed: "channel open failed",
                asks,
                feed: Some(
                    Feed {
                        bytes,
                        stuck: "shell: stdin drain loop did not converge",
                        closed: "shell: peer closed channel before stdin drain",
                    },
                ),
                collect: Some(
                    Collect {
                        echo_eof: false,
                        data_only: false,
                        too_large: "shell output too large",
                        stuck: "shell: drain loop exceeded iteration cap",
                    },
                ),
            },
        )
    }

    /// Run a subsystem, push `stdin` into it once, EOF, and drain its data
    /// until the peer closes the channel. The data is the session's stdout.
    pub fn subsystem_once(&mut self, name: &str, stdin: &[u8]) -> (r: (Session, Step))
        requires
            old(self)@.conn.has_room(),
        ensures
            begun(old(self)@, final(self)@, r, ClientView::subsystem_script(name@, stdin@)),
    {
        let mut asks = no_asks();
        push_replied(&mut asks, ChannelRequest::Subsystem { name: name.to_owned() });
        assert(views(asks@) =~= ClientView::subsystem_script(name@, stdin@).asks);
        let bytes = vstd::slice::slice_to_vec(stdin);
        assert(bytes@ =~= stdin@);
        self.begin(
            Script {
                kind: ChannelOpen::Session,
                stuck: "subsystem: open loop did not converge",
                failed: "channel open failed",
                asks,
                feed: Some(
                    Feed {
                        bytes,
                        stuck: "subsystem: stdin drain loop did not converge",
                        closed: "subsystem: peer closed channel before stdin drain",
                    },
                ),
                collect: Some(
                    Collect {
                        echo_eof: false,
                        data_only: true,
                        too_large: "subsystem output too large",
                        stuck: "subsystem: drain loop exceeded iteration cap",
                    },
                ),
            },
        )
    }

    /// Open a channel and start the `sftp` subsystem on it.
    pub fn sftp(&mut self) -> (r: (Session, Step))
        requires
            old(self)@.conn.has_room(),
        ensures
            begun(old(self)@, final(self)@, r, old(self)@.sftp_script()),
    {
        let mut asks = self.forwarding_asks();
        push_replied(&mut asks, ChannelRequest::Subsystem { name: "sftp".to_owned() });
        self.begin(
            Script {
                kind: ChannelOpen::Session,
                stuck: "sftp: open loop did not converge",
                failed: "channel open failed",
                asks,
                feed: None,
                collect: None,
            },
        )
    }

    /// Open a channel and run a command on it; the channel is then ready for
    /// streaming.
    pub fn exec_stream(&mut self, command: &str) -> (r: (Session, Step))
        requires
            old(self)@.conn.has_room(),
        ensures
            begun(old(self)@, final(self)@, r, old(self)@.exec_stream_script(command@)),
    {
        let mut asks = self.session_asks();
        push_replied(&mut asks, ChannelRequest::Exec { command: command.to_owned() });
        self.begin(
            Script {
                kind: ChannelOpen::Session,
                stuck: "exec_stream: open loop did not converge",
                failed: "exec_stream: channel open failed",
                asks,
                feed: None,
                collect: None,
            },
        )
    }

    /// Open a channel and send at most one request on it.
    fn begin_bare(
        &mut self,
        kind: ChannelOpen,
        request: Option<ChannelRequest>,
        stuck: &'static str,
        failed: &'static str,
    ) -> (r: (Session, Step))
        requires
            old(self)@.conn.has_room(),
        ensures
            begun(
                old(self)@,
                final(self)@,
                r,
                ClientView::bare_script(kind@, opt_view(request), stuck, failed),
            ),
    {
        let ghost wanted = optional_ask(opt_view(request));
        let mut asks = no_asks();
        if let Some(request) = request {
            push_quiet(&mut asks, request);
        }
        assert(views(asks@) =~= wanted);
        self.begin(Script { kind, stuck, failed, asks, feed: None, collect: None })
    }

    /// Open a channel over which the server proxies a TCP connection to
    /// `dest_host:dest_port`. The origin is for the server's log.
    pub fn open_direct_tcpip(
        &mut self,
        dest_host: &str,
        dest_port: u16,
        orig_host: &str,
        orig_port: u16,
    ) -> (r: (Session, Step))
        requires
            old(self)@.conn.has_room(),
        ensures
            begun(
                old(self)@,
                final(self)@,
                r,
                ClientView::bare_script(
                    ChannelOpenView::DirectTcpip {
                        dest_host: dest_host@,
                        dest_port: dest_port as u32,
                        orig_host: orig_host@,
                        orig_port: orig_port as u32,
                    },
                    None,
                    "direct-tcpip: open loop did not converge",
                    "direct-tcpip: open failed",
                ),
            ),
            r.1.send@.len() == 1,
            asks_for_connection(
                r.1.send@[0]@,
                r.0@.channel,
                old(self)@.conn,
                dest_host@,
                dest_port as u32,
                orig_host@,
                orig_port as u32,
            ),
    {
        let ghost before = self@;
        let r = self.begin_bare(
            ChannelOpen::DirectTcpip {
                dest_host: dest_host.to_owned(),
                dest_port: dest_port as u32,
                orig_host: orig_host.to_owned(),
                orig_port: orig_port as u32,
            },
            None,
            "direct-tcpip: open loop did not converge",
            "direct-tcpip: open failed",
        );
        proof {
            lemma_direct_connection_layout(
                before.conn,
                dest_host@,
                dest_port as u32,
                orig_host@,
                orig_port as u32,
            );
            assert(views(r.1.send@).len() == 1);
            assert(views(r.1.send@)[0] == r.1.send@[0]@);
        }
        r
    }

    /// Open a channel over which the server proxies a connection to the Unix
    /// socket at `socket_path`.
    pub fn open_direct_streamlocal(&mut self, socket_path: &str) -> (r: (Session, Step))
        requires
            old(self)@.conn.has_room(),
        ensures
            begun(
                old(self)@,
                final(self)@,
                r,
                ClientView::bare_script(
                    direct_open(socket_path@),
                    None,
                    "direct-streamlocal: open loop did not converge",
                    "direct-streamlocal: open failed",
                ),
            ),
    {
        self.begin_bare(
            direct_streamlocal(socket_path),
            None,
            "direct-streamlocal: open loop did not converge",
            "direct-streamlocal: open failed",
        )
    }

    /// Open a session channel that exists only to host agent forwarding. It
    /// stays open until [`Self::close_session`].
    pub fn open_session_for_agent_forward(&mut self) -> (r: (Session, Step))
        requires
            old(self)@.conn.has_room(),
        ensures
            begun(
                old(self)@,
                final(self)@,
                r,
                ClientView::bare_script(
                    ChannelOpenView::Session,
                    Some(ChannelRequestView::AuthAgentReq),
                    "agent-forward: open loop did not converge",
                    "agent-forward: channel open failed",
                ),
            ),
    {
        self.begin_bare(
            ChannelOpen::Session,
            Some(ChannelRequest::AuthAgentReq),
            "agent-forward: open loop did not converge",
            "agent-forward: channel open failed",
        )
    }

    /// Open a session channel that exists only to host X11 forwarding. It
    /// stays open until [`Self::close_session`].
    pub fn open_session_for_x11_forward(
        &mut self,
        single_connection: bool,
        auth_protocol: &str,
        auth_cookie: &str,
        screen: u32,
    ) -> (r: (Session, Step))
        requires
            old(self)@.conn.has_room(),
        ensures
            begun(
                old(self)@,
                final(self)@,
                r,
                ClientView::bare_script(
                    ChannelOpenView::Session,
                    Some(
                        ChannelRequestView::X11Req {
                            single_connection,
                            auth_protocol: auth_protocol@,
                            auth_cookie: auth_cookie@,
                            screen,
                        },
                    ),
                    "x11-forward: open loop did not converge",
                    "x11-forward: channel open failed",
                ),
            ),
    {
        self.begin_bare(
            ChannelOpen::Session,
            Some(
                ChannelRequest::X11Req {
                    single_connection,
                    auth_protocol: auth_protocol.to_owned(),
                    auth_cookie: auth_cookie.to_owned(),
                    screen,
                },
            ),
            "x11-forward: open loop did not converge",
            "x11-forward: channel open failed",
        )
    }

    /// Hand an inbound payload to a session.
    pub fn on_payload(&mut self, session: &mut Session, payload: &[u8]) -> (step: Step)
        requires
            old(session)@.wf(),
            payload@.len() > 0 && payload@[0] == MSG_CHANNEL_OPEN ==> old(self)@.conn.has_room(),
        ensures
            final(session)@.wf(),
            super::session::follows(
                final(self)@.conn,
                final(session)@,
                step,
                old(session)@.on_payload(old(self)@.conn, payload@),
            ),
            final(self)@ == (ClientView { conn: final(self)@.conn, ..old(self)@ }),
    {
        session.on_payload(&mut self.conn, payload)
    }

    /// The `CHANNEL_CLOSE` that tears a session channel down, or nothing if
    /// the channel is closed already or gone.
    pub fn close_session(&mut self, channel: u32) -> (r: Option<Vec<u8>>)
        ensures
            match old(self)@.conn.send_close(channel) {
                Ok((conn, payload)) => {
                    &&& r matches Some(p)
                    &&& p@ == payload
                    &&& final(self)@ == (ClientView { conn, ..old(self)@ })
                },
                Err(_) => r is None && final(self)@ == old(self)@,
            },
    {
        match self.conn.send_close(channel) {
            Ok(payload) => Some(payload),
            Err(_) => None,
        }
    }

    /// Ask the server to listen on `bind_address:bind_port` and to forward
    /// what connects there (`ssh -R`). Port 0 lets the server pick one. The
    /// payload is to be transmitted.
    pub fn request_tcpip_forward(&self, bind_address: &str, bind_port: u16) -> (r: (
        ForwardRequest,
        Vec<u8>,
    ))
        ensures
            asked(
                r,
                ForwardingView::Tcpip { bind_address: bind_address@, bind_port },
            ),
    {
        ForwardRequest::new(Forwarding::Tcpip { bind_address: bind_address.to_owned(), bind_port })
    }

    /// Ask the server to stop a forward that it has granted.
    pub fn cancel_tcpip_forward(&self, bind_address: &str, bind_port: u16) -> (r: (
        ForwardRequest,
        Vec<u8>,
    ))
        ensures
            asked(
                r,
                ForwardingView::CancelTcpip { bind_address: bind_address@, bind_port },
            ),
    {
        ForwardRequest::new(
            Forwarding::CancelTcpip { bind_address: bind_address.to_owned(), bind_port },
        )
    }

    /// Ask the server to listen on the Unix socket `socket_path` and to
    /// forward what connects there.
    pub fn request_streamlocal_forward(&self, socket_path: &str) -> (r: (ForwardRequest, Vec<u8>))
        ensures
            asked(r, ForwardingView::Streamlocal { socket_path: socket_path@ }),
    {
        ForwardRequest::new(Forwarding::Streamlocal { socket_path: socket_path.to_owned() })
    }

    /// Ask the server to stop a Unix-socket forward that it has granted.
    pub fn cancel_streamlocal_forward(&self, socket_path: &str) -> (r: (ForwardRequest, Vec<u8>))
        ensures
            asked(r, ForwardingView::CancelStreamlocal { socket_path: socket_path@ }),
    {
        ForwardRequest::new(Forwarding::CancelStreamlocal { socket_path: socket_path.to_owned() })
    }

    /// Hand an inbound payload to a request about a forward.
    pub fn on_forward_payload(&mut self, request: &mut ForwardRequest, payload: &[u8]) -> (r:
        ForwardStep)
        requires
            old(request)@.rounds < MAX_EXEC_ITER,
            payload@.len() > 0 && payload@[0] == MSG_CHANNEL_OPEN ==> old(self)@.conn.has_room(),
        ensures
            final(request)@.rounds < MAX_EXEC_ITER,
            final(self)@ == (ClientView {
                conn: final(self)@.conn,
                grants: final(self)@.grants,
                ..old(self)@
            }),
            old(request)@.on_payload(old(self)@.conn, old(self)@.grants, payload@) == (Answered {
                conn: final(self)@.conn,
                grants: final(self)@.grants,
                request: final(request)@,
                step: r,
            }),
    {
        request.on_payload(&mut self.conn, &mut self.grants, payload)
    }

    /// Hand an inbound payload to a serve loop.
    pub fn serve_dispatch_packet(
        &mut self,
        serve: &mut ServeState,
        handlers: &ClientHandlers,
        payload: &[u8],
    ) -> (r: ServeStep)
        requires
            payload@.len() > 0 && payload@[0] == MSG_CHANNEL_OPEN ==> old(self)@.conn.has_room(),
        ensures
            final(self)@ == (ClientView { conn: final(self)@.conn, ..old(self)@ }),
            super::serve::served(
                final(self)@.conn,
                final(serve)@,
                r,
                old(serve)@.dispatch(
                    old(self)@.conn,
                    old(self)@.grants.granted(),
                    *handlers,
                    payload@,
                ),
            ),
    {
        let granted = self.grants.granted();
        serve.dispatch(&mut self.conn, granted, handlers, payload)
    }
}

/// A request about a forward that has just been made.
pub open spec fn asked(r: (ForwardRequest, Vec<u8>), what: ForwardingView) -> bool {
    &&& r.0@ == (ForwardRequestView { what, rounds: 0 })
    &&& r.1@ == global_payload(what.request(), true)
}

} // verus!
