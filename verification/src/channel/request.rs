//! `SSH_MSG_CHANNEL_REQUEST` payloads (RFC 4254 section 6).

use super::{field, get_text, lemma_get_put_text, read_utf8, text_fits, wire_text};
use crate::error::Error;
use crate::format::{
    be32, get_bool, get_string, get_u32, lemma_get_put_bool, lemma_get_put_string,
    lemma_get_put_u32, lemma_regroup4, wire_bool, wire_string, Reader, Writer,
};
use crate::text::str_eq;
use vstd::prelude::*;

verus! {

/// A decoded channel-request body. The `request_type` and `want_reply` fields
/// of `SSH_MSG_CHANNEL_REQUEST` are handled by the connection state; the
/// variants here carry only the request-type-specific payload.
#[derive(Debug, Clone, PartialEq, Eq)]
pub enum ChannelRequest {
    /// `"pty-req"`: allocate a pseudo-terminal.
    PtyReq {
        /// Value for the `TERM` environment variable.
        term: String,
        /// Terminal width in characters.
        cols: u32,
        /// Terminal height in characters.
        rows: u32,
        /// Terminal width in pixels (0 if not specified).
        px_w: u32,
        /// Terminal height in pixels (0 if not specified).
        px_h: u32,
        /// Encoded terminal modes (RFC 4254 section 8).
        modes: Vec<u8>,
    },
    /// `"shell"`: run the user's default shell.
    Shell,
    /// `"exec"`: run a single command.
    Exec {
        /// The command line.
        command: String,
    },
    /// `"subsystem"`: start a named subsystem (e.g. "sftp").
    Subsystem {
        /// Subsystem name.
        name: String,
    },
    /// `"env"`: set an environment variable in the session.
    Env {
        /// Variable name.
        name: String,
        /// Variable value.
        value: String,
    },
    /// `"window-change"`: terminal resized.
    WindowChange {
        /// New width in characters.
        cols: u32,
        /// New height in characters.
        rows: u32,
        /// New width in pixels.
        px_w: u32,
        /// New height in pixels.
        px_h: u32,
    },
    /// `"signal"`: deliver a signal to the remote process.
    Signal {
        /// Signal name without the `SIG` prefix (e.g. `"TERM"`).
        name: String,
    },
    /// `"exit-status"`: process exited normally with this status.
    ExitStatus {
        /// Exit code.
        code: u32,
    },
    /// `"exit-signal"`: process was killed by a signal.
    ExitSignal {
        /// Signal name without the `SIG` prefix.
        name: String,
        /// Whether a core was dumped.
        core_dumped: bool,
        /// Free-text error message.
        message: String,
        /// RFC 3066 language tag for `message`.
        language: String,
    },
    /// `"auth-agent-req@openssh.com"`: set up authentication-agent
    /// forwarding on this session; no type-specific payload.
    AuthAgentReq,
    /// `"x11-req"`: set up X11 forwarding on this session (RFC 4254
    /// section 6.3.1).
    X11Req {
        /// Accept only a single X11 connection if `true`.
        single_connection: bool,
        /// Authentication protocol name (e.g. `"MIT-MAGIC-COOKIE-1"`).
        auth_protocol: String,
        /// Authentication cookie, hex-encoded.
        auth_cookie: String,
        /// X11 screen number.
        screen: u32,
    },
    /// Any request type we do not recognise; the raw type-specific body is preserved.
    Other {
        /// Request type as advertised on the wire.
        name: String,
        /// Type-specific body, verbatim.
        raw: Vec<u8>,
    },
}

/// What a [`ChannelRequest`] says.
#[verifier::ext_equal]
pub ghost enum ChannelRequestView {
    PtyReq { term: Seq<char>, cols: u32, rows: u32, px_w: u32, px_h: u32, modes: Seq<u8> },
    Shell,
    Exec { command: Seq<char> },
    Subsystem { name: Seq<char> },
    Env { name: Seq<char>, value: Seq<char> },
    WindowChange { cols: u32, rows: u32, px_w: u32, px_h: u32 },
    Signal { name: Seq<char> },
    ExitStatus { code: u32 },
    ExitSignal { name: Seq<char>, core_dumped: bool, message: Seq<char>, language: Seq<char> },
    AuthAgentReq,
    X11Req {
        single_connection: bool,
        auth_protocol: Seq<char>,
        auth_cookie: Seq<char>,
        screen: u32,
    },
    Other { name: Seq<char>, raw: Seq<u8> },
}

impl ChannelRequestView {
    /// The `request_type` field of the parent message.
    pub open spec fn name(self) -> Seq<char> {
        match self {
            ChannelRequestView::PtyReq { .. } => "pty-req"@,
            ChannelRequestView::Shell => "shell"@,
            ChannelRequestView::Exec { .. } => "exec"@,
            ChannelRequestView::Subsystem { .. } => "subsystem"@,
            ChannelRequestView::Env { .. } => "env"@,
            ChannelRequestView::WindowChange { .. } => "window-change"@,
            ChannelRequestView::Signal { .. } => "signal"@,
            ChannelRequestView::ExitStatus { .. } => "exit-status"@,
            ChannelRequestView::ExitSignal { .. } => "exit-signal"@,
            ChannelRequestView::AuthAgentReq => "auth-agent-req@openssh.com"@,
            ChannelRequestView::X11Req { .. } => "x11-req"@,
            ChannelRequestView::Other { name, .. } => name,
        }
    }

    /// The part of the message after `want_reply`.
    pub open spec fn body(self) -> Seq<u8> {
        match self {
            ChannelRequestView::PtyReq { term, cols, rows, px_w, px_h, modes } => {
                wire_text(term)
                    + be32(cols)
                    + be32(rows)
                    + be32(px_w)
                    + be32(px_h)
                    + wire_string(modes)
            },
            ChannelRequestView::Shell => Seq::empty(),
            ChannelRequestView::Exec { command } => {
                wire_text(command)
            },
            ChannelRequestView::Subsystem { name } => {
                wire_text(name)
            },
            ChannelRequestView::Env { name, value } => {
                wire_text(name)
                    + wire_text(value)
            },
            ChannelRequestView::WindowChange { cols, rows, px_w, px_h } => {
                be32(cols)
                    + be32(rows)
                    + be32(px_w)
                    + be32(px_h)
            },
            ChannelRequestView::Signal { name } => {
                wire_text(name)
            },
            ChannelRequestView::ExitStatus { code } => {
                be32(code)
            },
            ChannelRequestView::ExitSignal { name, core_dumped, message, language } => {
                wire_text(name)
                    + wire_bool(core_dumped)
                    + wire_text(message)
                    + wire_text(language)
            },
            ChannelRequestView::AuthAgentReq => Seq::empty(),
            ChannelRequestView::X11Req {
                single_connection,
                auth_protocol,
                auth_cookie,
                screen,
            } => {
                wire_bool(single_connection)
                    + wire_text(auth_protocol)
                    + wire_text(auth_cookie)
                    + be32(screen)
            },
            ChannelRequestView::Other { raw, .. } => raw,
        }
    }

    /// The request that a name and a body stand for. Bytes after the last
    /// field of a recognised request are ignored.
    pub open spec fn decode(name: Seq<char>, body: Seq<u8>) -> Result<Self, Error> {
        if name == "pty-req"@ {
            Self::decode_pty_req(body)
        } else if name == "shell"@ {
            Ok(ChannelRequestView::Shell)
        } else if name == "exec"@ {
            Self::decode_exec(body)
        } else if name == "subsystem"@ {
            Self::decode_subsystem(body)
        } else if name == "env"@ {
            Self::decode_env(body)
        } else if name == "window-change"@ {
            Self::decode_window_change(body)
        } else if name == "signal"@ {
            Self::decode_signal(body)
        } else if name == "exit-status"@ {
            Self::decode_exit_status(body)
        } else if name == "exit-signal"@ {
            Self::decode_exit_signal(body)
        } else if name == "auth-agent-req@openssh.com"@ {
            Ok(ChannelRequestView::AuthAgentReq)
        } else if name == "x11-req"@ {
            Self::decode_x11_req(body)
        } else {
            Ok(ChannelRequestView::Other { name, raw: body })
        }
    }

    /// The fields of a `"pty-req"` request.
    pub open spec fn decode_pty_req(body: Seq<u8>) -> Result<Self, Error> {
        match get_text(body, "invalid utf-8 in channel request") {
            Err(e) => Err(e),
            Ok((term, r1)) => {
                match field(get_u32(r1)) {
                    Err(e) => Err(e),
                    Ok((cols, r2)) => {
                        match field(get_u32(r2)) {
                            Err(e) => Err(e),
                            Ok((rows, r3)) => {
                                match field(get_u32(r3)) {
                                    Err(e) => Err(e),
                                    Ok((px_w, r4)) => {
                                        match field(get_u32(r4)) {
                                            Err(e) => Err(e),
                                            Ok((px_h, r5)) => {
                                                match field(get_string(r5)) {
                                                    Err(e) => Err(e),
                                                    Ok((modes, _)) => Ok(
                                                        ChannelRequestView::PtyReq {
                                                            term,
                                                            cols,
                                                            rows,
                                                            px_w,
                                                            px_h,
                                                            modes,
                                                        },
                                                    ),
                                                }
                                            },
                                        }
                                    },
                                }
                            },
                        }
                    },
                }
            },
        }
    }

    /// The fields of a `"exec"` request.
    pub open spec fn decode_exec(body: Seq<u8>) -> Result<Self, Error> {
        match get_text(body, "invalid utf-8 in channel request") {
            Err(e) => Err(e),
            Ok((command, _)) => Ok(ChannelRequestView::Exec { command }),
        }
    }

    /// The fields of a `"subsystem"` request.
    pub open spec fn decode_subsystem(body: Seq<u8>) -> Result<Self, Error> {
        match get_text(body, "invalid utf-8 in channel request") {
            Err(e) => Err(e),
            Ok((name, _)) => Ok(ChannelRequestView::Subsystem { name }),
        }
    }

    /// The fields of a `"env"` request.
    pub open spec fn decode_env(body: Seq<u8>) -> Result<Self, Error> {
        match get_text(body, "invalid utf-8 in channel request") {
            Err(e) => Err(e),
            Ok((name, r1)) => {
                match get_text(r1, "invalid utf-8 in channel request") {
                    Err(e) => Err(e),
                    Ok((value, _)) => Ok(ChannelRequestView::Env { name, value }),
                }
            },
        }
    }

    /// The fields of a `"window-change"` request.
    pub open spec fn decode_window_change(body: Seq<u8>) -> Result<Self, Error> {
        match field(get_u32(body)) {
            Err(e) => Err(e),
            Ok((cols, r1)) => {
                match field(get_u32(r1)) {
                    Err(e) => Err(e),
                    Ok((rows, r2)) => {
                        match field(get_u32(r2)) {
                            Err(e) => Err(e),
                            Ok((px_w, r3)) => {
                                match field(get_u32(r3)) {
                                    Err(e) => Err(e),
                                    Ok((px_h, _)) => Ok(
                                        ChannelRequestView::WindowChange {
                                            cols,
                                            rows,
                                            px_w,
                                            px_h,
                                        },
                                    ),
                                }
                            },
                        }
                    },
                }
            },
        }
    }

    /// The fields of a `"signal"` request.
    pub open spec fn decode_signal(body: Seq<u8>) -> Result<Self, Error> {
        match get_text(body, "invalid utf-8 in channel request") {
            Err(e) => Err(e),
            Ok((name, _)) => Ok(ChannelRequestView::Signal { name }),
        }
    }

    /// The fields of a `"exit-status"` request.
    pub open spec fn decode_exit_status(body: Seq<u8>) -> Result<Self, Error> {
        match field(get_u32(body)) {
            Err(e) => Err(e),
            Ok((code, _)) => Ok(ChannelRequestView::ExitStatus { code }),
        }
    }

    /// The fields of a `"exit-signal"` request.
    pub open spec fn decode_exit_signal(body: Seq<u8>) -> Result<Self, Error> {
        match get_text(body, "invalid utf-8 in channel request") {
            Err(e) => Err(e),
            Ok((name, r1)) => {
                match field(get_bool(r1)) {
                    Err(e) => Err(e),
                    Ok((core_dumped, r2)) => {
                        match get_text(r2, "invalid utf-8 in channel request") {
                            Err(e) => Err(e),
                            Ok((message, r3)) => {
                                match get_text(r3, "invalid utf-8 in channel request") {
                                    Err(e) => Err(e),
                                    Ok((language, _)) => Ok(
                                        ChannelRequestView::ExitSignal {
                                            name,
                                            core_dumped,
                                            message,
                                            language,
                                        },
                                    ),
                                }
                            },
                        }
                    },
                }
            },
        }
    }

    /// The fields of a `"x11-req"` request.
    pub open spec fn decode_x11_req(body: Seq<u8>) -> Result<Self, Error> {
        match field(get_bool(body)) {
            Err(e) => Err(e),
            Ok((single_connection, r1)) => {
                match get_text(r1, "invalid utf-8 in channel request") {
                    Err(e) => Err(e),
                    Ok((auth_protocol, r2)) => {
                        match get_text(r2, "invalid utf-8 in channel request") {
                            Err(e) => Err(e),
                            Ok((auth_cookie, r3)) => {
                                match field(get_u32(r3)) {
                                    Err(e) => Err(e),
                                    Ok((screen, _)) => Ok(
                                        ChannelRequestView::X11Req {
                                            single_connection,
                                            auth_protocol,
                                            auth_cookie,
                                            screen,
                                        },
                                    ),
                                }
                            },
                        }
                    },
                }
            },
        }
    }

    /// Whether the request survives the trip over the wire: its strings fit
    /// their length prefixes, and an unrecognised name is not one of the known
    /// ones.
    pub open spec fn encodable(self) -> bool {
        match self {
            ChannelRequestView::PtyReq { term, modes, .. } => text_fits(term)
                && modes.len() <= u32::MAX,
            ChannelRequestView::Shell => true,
            ChannelRequestView::Exec { command } => text_fits(command),
            ChannelRequestView::Subsystem { name } => text_fits(name),
            ChannelRequestView::Env { name, value } => text_fits(name) && text_fits(value),
            ChannelRequestView::WindowChange { .. } => true,
            ChannelRequestView::Signal { name } => text_fits(name),
            ChannelRequestView::ExitStatus { .. } => true,
            ChannelRequestView::ExitSignal { name, message, language, .. } => text_fits(name)
                && text_fits(message)
                && text_fits(language),
            ChannelRequestView::AuthAgentReq => true,
            ChannelRequestView::X11Req { auth_protocol, auth_cookie, .. } => text_fits(auth_protocol)
                && text_fits(auth_cookie),
            ChannelRequestView::Other { name, .. } => !known_request(name),
        }
    }
}

/// The request types that have a body format of their own.
pub open spec fn known_request(name: Seq<char>) -> bool {
    ||| name == "pty-req"@
    ||| name == "shell"@
    ||| name == "exec"@
    ||| name == "subsystem"@
    ||| name == "env"@
    ||| name == "window-change"@
    ||| name == "signal"@
    ||| name == "exit-status"@
    ||| name == "exit-signal"@
    ||| name == "auth-agent-req@openssh.com"@
    ||| name == "x11-req"@
}

impl View for ChannelRequest {
    type V = ChannelRequestView;

    open spec fn view(&self) -> ChannelRequestView {
        match self {
            ChannelRequest::PtyReq { term, cols, rows, px_w, px_h, modes } => {
                ChannelRequestView::PtyReq {
                    term: term@,
                    cols: *cols,
                    rows: *rows,
                    px_w: *px_w,
                    px_h: *px_h,
                    modes: modes@,
                }
            },
            ChannelRequest::Shell => ChannelRequestView::Shell,
            ChannelRequest::Exec { command } => {
                ChannelRequestView::Exec { command: command@ }
            },
            ChannelRequest::Subsystem { name } => {
                ChannelRequestView::Subsystem { name: name@ }
            },
            ChannelRequest::Env { name, value } => {
                ChannelRequestView::Env { name: name@, value: value@ }
            },
            ChannelRequest::WindowChange { cols, rows, px_w, px_h } => {
                ChannelRequestView::WindowChange {
                    cols: *cols,
                    rows: *rows,
                    px_w: *px_w,
                    px_h: *px_h,
                }
            },
            ChannelRequest::Signal { name } => {
                ChannelRequestView::Signal { name: name@ }
            },
            ChannelRequest::ExitStatus { code } => {
                ChannelRequestView::ExitStatus { code: *code }
            },
            ChannelRequest::ExitSignal { name, core_dumped, message, language } => {
                ChannelRequestView::ExitSignal {
                    name: name@,
                    core_dumped: *core_dumped,
                    message: message@,
                    language: language@,
                }
            },
            ChannelRequest::AuthAgentReq => ChannelRequestView::AuthAgentReq,
            ChannelRequest::X11Req { single_connection, auth_protocol, auth_cookie, screen } => {
                ChannelRequestView::X11Req {
                    single_connection: *single_connection,
                    auth_protocol: auth_protocol@,
                    auth_cookie: auth_cookie@,
                    screen: *screen,
                }
            },
            ChannelRequest::Other { name, raw } => {
                ChannelRequestView::Other { name: name@, raw: raw@ }
            },
        }
    }
}

/// The recognised names are pairwise different.
proof fn lemma_names_differ()
    ensures
        "pty-req"@ != "shell"@,
        "pty-req"@ != "exec"@,
        "shell"@ != "exec"@,
        "pty-req"@ != "subsystem"@,
        "shell"@ != "subsystem"@,
        "exec"@ != "subsystem"@,
        "pty-req"@ != "env"@,
        "shell"@ != "env"@,
        "exec"@ != "env"@,
        "subsystem"@ != "env"@,
        "pty-req"@ != "window-change"@,
        "shell"@ != "window-change"@,
        "exec"@ != "window-change"@,
        "subsystem"@ != "window-change"@,
        "env"@ != "window-change"@,
        "pty-req"@ != "signal"@,
        "shell"@ != "signal"@,
        "exec"@ != "signal"@,
        "subsystem"@ != "signal"@,
        "env"@ != "signal"@,
        "window-change"@ != "signal"@,
        "pty-req"@ != "exit-status"@,
        "shell"@ != "exit-status"@,
        "exec"@ != "exit-status"@,
        "subsystem"@ != "exit-status"@,
        "env"@ != "exit-status"@,
        "window-change"@ != "exit-status"@,
        "signal"@ != "exit-status"@,
        "pty-req"@ != "exit-signal"@,
        "shell"@ != "exit-signal"@,
        "exec"@ != "exit-signal"@,
        "subsystem"@ != "exit-signal"@,
        "env"@ != "exit-signal"@,
        "window-change"@ != "exit-signal"@,
        "signal"@ != "exit-signal"@,
        "exit-status"@ != "exit-signal"@,
        "pty-req"@ != "auth-agent-req@openssh.com"@,
        "shell"@ != "auth-agent-req@openssh.com"@,
        "exec"@ != "auth-agent-req@openssh.com"@,
        "subsystem"@ != "auth-agent-req@openssh.com"@,
        "env"@ != "auth-agent-req@openssh.com"@,
        "window-change"@ != "auth-agent-req@openssh.com"@,
        "signal"@ != "auth-agent-req@openssh.com"@,
        "exit-status"@ != "auth-agent-req@openssh.com"@,
        "exit-signal"@ != "auth-agent-req@openssh.com"@,
        "pty-req"@ != "x11-req"@,
        "shell"@ != "x11-req"@,
        "exec"@ != "x11-req"@,
        "subsystem"@ != "x11-req"@,
        "env"@ != "x11-req"@,
        "window-change"@ != "x11-req"@,
        "signal"@ != "x11-req"@,
        "exit-status"@ != "x11-req"@,
        "exit-signal"@ != "x11-req"@,
        "auth-agent-req@openssh.com"@ != "x11-req"@,
{
    reveal_strlit("pty-req");
    reveal_strlit("shell");
    reveal_strlit("exec");
    reveal_strlit("subsystem");
    reveal_strlit("env");
    reveal_strlit("window-change");
    reveal_strlit("signal");
    reveal_strlit("exit-status");
    reveal_strlit("exit-signal");
    reveal_strlit("auth-agent-req@openssh.com");
    reveal_strlit("x11-req");
    assert("pty-req"@.len() == 7);
    assert("shell"@.len() == 5);
    assert("exec"@.len() == 4);
    assert("subsystem"@.len() == 9);
    assert("env"@.len() == 3);
    assert("window-change"@.len() == 13);
    assert("signal"@.len() == 6);
    assert("exit-status"@.len() == 11);
    assert("exit-signal"@.len() == 11);
    assert("auth-agent-req@openssh.com"@.len() == 26);
    assert("x11-req"@.len() == 7);
    assert("exit-status"@[6] != "exit-signal"@[6]);
    assert("pty-req"@[0] != "x11-req"@[0]);
}

proof fn lemma_pty_req_round_trip(req: ChannelRequestView)
    requires
        req is PtyReq,
        req.encodable(),
    ensures
        ChannelRequestView::decode_pty_req(req.body()) == Ok::<ChannelRequestView, Error>(req),
{
    if let ChannelRequestView::PtyReq { term, cols, rows, px_w, px_h, modes } = req {
        let t6 = Seq::<u8>::empty();
        let t5 = wire_string(modes) + t6;
        let t4 = be32(px_h) + t5;
        let t3 = be32(px_w) + t4;
        let t2 = be32(rows) + t3;
        let t1 = be32(cols) + t2;
        assert(req.body() =~= wire_text(term) + t1);
        lemma_get_put_text(term, t1, "invalid utf-8 in channel request");
        lemma_get_put_u32(cols, t2);
        lemma_get_put_u32(rows, t3);
        lemma_get_put_u32(px_w, t4);
        lemma_get_put_u32(px_h, t5);
        lemma_get_put_string(modes, t6);
    }
}

proof fn lemma_exec_round_trip(req: ChannelRequestView)
    requires
        req is Exec,
        req.encodable(),
    ensures
        ChannelRequestView::decode_exec(req.body()) == Ok::<ChannelRequestView, Error>(req),
{
    if let ChannelRequestView::Exec { command } = req {
        let t1 = Seq::<u8>::empty();
        assert(req.body() =~= wire_text(command) + t1);
        lemma_get_put_text(command, t1, "invalid utf-8 in channel request");
    }
}

proof fn lemma_subsystem_round_trip(req: ChannelRequestView)
    requires
        req is Subsystem,
        req.encodable(),
    ensures
        ChannelRequestView::decode_subsystem(req.body()) == Ok::<ChannelRequestView, Error>(req),
{
    if let ChannelRequestView::Subsystem { name } = req {
        let t1 = Seq::<u8>::empty();
        assert(req.body() =~= wire_text(name) + t1);
        lemma_get_put_text(name, t1, "invalid utf-8 in channel request");
    }
}

proof fn lemma_env_round_trip(req: ChannelRequestView)
    requires
        req is Env,
        req.encodable(),
    ensures
        ChannelRequestView::decode_env(req.body()) == Ok::<ChannelRequestView, Error>(req),
{
    if let ChannelRequestView::Env { name, value } = req {
        let t2 = Seq::<u8>::empty();
        let t1 = wire_text(value) + t2;
        assert(req.body() =~= wire_text(name) + t1);
        lemma_get_put_text(name, t1, "invalid utf-8 in channel request");
        lemma_get_put_text(value, t2, "invalid utf-8 in channel request");
    }
}

proof fn lemma_window_change_round_trip(req: ChannelRequestView)
    requires
        req is WindowChange,
        req.encodable(),
    ensures
        ChannelRequestView::decode_window_change(req.body()) == Ok::<ChannelRequestView, Error>(req),
{
    if let ChannelRequestView::WindowChange { cols, rows, px_w, px_h } = req {
        let t4 = Seq::<u8>::empty();
        let t3 = be32(px_h) + t4;
        let t2 = be32(px_w) + t3;
        let t1 = be32(rows) + t2;
        lemma_regroup4(be32(cols), be32(rows), be32(px_w), be32(px_h));
        lemma_get_put_u32(cols, t1);
        lemma_get_put_u32(rows, t2);
        lemma_get_put_u32(px_w, t3);
        lemma_get_put_u32(px_h, t4);
    }
}

proof fn lemma_signal_round_trip(req: ChannelRequestView)
    requires
        req is Signal,
        req.encodable(),
    ensures
        ChannelRequestView::decode_signal(req.body()) == Ok::<ChannelRequestView, Error>(req),
{
    if let ChannelRequestView::Signal { name } = req {
        let t1 = Seq::<u8>::empty();
        assert(req.body() =~= wire_text(name) + t1);
        lemma_get_put_text(name, t1, "invalid utf-8 in channel request");
    }
}

proof fn lemma_exit_status_round_trip(req: ChannelRequestView)
    requires
        req is ExitStatus,
        req.encodable(),
    ensures
        ChannelRequestView::decode_exit_status(req.body()) == Ok::<ChannelRequestView, Error>(req),
{
    if let ChannelRequestView::ExitStatus { code } = req {
        let t1 = Seq::<u8>::empty();
        assert(req.body() =~= be32(code) + t1);
        lemma_get_put_u32(code, t1);
    }
}

proof fn lemma_exit_signal_round_trip(req: ChannelRequestView)
    requires
        req is ExitSignal,
        req.encodable(),
    ensures
        ChannelRequestView::decode_exit_signal(req.body()) == Ok::<ChannelRequestView, Error>(req),
{
    if let ChannelRequestView::ExitSignal { name, core_dumped, message, language } = req {
        let t4 = Seq::<u8>::empty();
        let t3 = wire_text(language) + t4;
        let t2 = wire_text(message) + t3;
        let t1 = wire_bool(core_dumped) + t2;
        lemma_regroup4(
            wire_text(name),
            wire_bool(core_dumped),
            wire_text(message),
            wire_text(language),
        );
        lemma_get_put_text(name, t1, "invalid utf-8 in channel request");
        lemma_get_put_bool(core_dumped, t2);
        lemma_get_put_text(message, t3, "invalid utf-8 in channel request");
        lemma_get_put_text(language, t4, "invalid utf-8 in channel request");
    }
}

proof fn lemma_x11_req_round_trip(req: ChannelRequestView)
    requires
        req is X11Req,
        req.encodable(),
    ensures
        ChannelRequestView::decode_x11_req(req.body()) == Ok::<ChannelRequestView, Error>(req),
{
    if let ChannelRequestView::X11Req {
        single_connection,
        auth_protocol,
        auth_cookie,
        screen,
    } = req {
        let t4 = Seq::<u8>::empty();
        let t3 = be32(screen) + t4;
        let t2 = wire_text(auth_cookie) + t3;
        let t1 = wire_text(auth_protocol) + t2;
        lemma_regroup4(
            wire_bool(single_connection),
            wire_text(auth_protocol),
            wire_text(auth_cookie),
            be32(screen),
        );
        lemma_get_put_bool(single_connection, t1);
        lemma_get_put_text(auth_protocol, t2, "invalid utf-8 in channel request");
        lemma_get_put_text(auth_cookie, t3, "invalid utf-8 in channel request");
        lemma_get_put_u32(screen, t4);
    }
}

/// Decoding what was encoded gives the request back.
pub proof fn lemma_request_round_trip(req: ChannelRequestView)
    requires
        req.encodable(),
    ensures
        ChannelRequestView::decode(req.name(), req.body()) == Ok::<ChannelRequestView, Error>(req),
{
    lemma_names_differ();
    match req {
        ChannelRequestView::PtyReq { .. } => lemma_pty_req_round_trip(req),
        ChannelRequestView::Exec { .. } => lemma_exec_round_trip(req),
        ChannelRequestView::Subsystem { .. } => lemma_subsystem_round_trip(req),
        ChannelRequestView::Env { .. } => lemma_env_round_trip(req),
        ChannelRequestView::WindowChange { .. } => lemma_window_change_round_trip(req),
        ChannelRequestView::Signal { .. } => lemma_signal_round_trip(req),
        ChannelRequestView::ExitStatus { .. } => lemma_exit_status_round_trip(req),
        ChannelRequestView::ExitSignal { .. } => lemma_exit_signal_round_trip(req),
        ChannelRequestView::X11Req { .. } => lemma_x11_req_round_trip(req),
        _ => {},
    }
}

impl ChannelRequest {
    /// The `request_type` field of the parent message.
    pub fn name(&self) -> (r: &str)
        ensures
            r@ == self@.name(),
    {
        match self {
            ChannelRequest::PtyReq { .. } => "pty-req",
            ChannelRequest::Shell => "shell",
            ChannelRequest::Exec { .. } => "exec",
            ChannelRequest::Subsystem { .. } => "subsystem",
            ChannelRequest::Env { .. } => "env",
            ChannelRequest::WindowChange { .. } => "window-change",
            ChannelRequest::Signal { .. } => "signal",
            ChannelRequest::ExitStatus { .. } => "exit-status",
            ChannelRequest::ExitSignal { .. } => "exit-signal",
            ChannelRequest::AuthAgentReq => "auth-agent-req@openssh.com",
            ChannelRequest::X11Req { .. } => "x11-req",
            ChannelRequest::Other { name, .. } => name.as_str(),
        }
    }

    /// Encode just the request-type-specific tail (everything after `want_reply`).
    pub fn encode(&self, w: &mut Writer)
        ensures
            final(w)@ == old(w)@ + self@.body(),
    {
        match self {
            ChannelRequest::PtyReq { term, cols, rows, px_w, px_h, modes } => {
                w.write_string(term.as_str().as_bytes());
                w.write_u32(*cols);
                w.write_u32(*rows);
                w.write_u32(*px_w);
                w.write_u32(*px_h);
                w.write_string(modes.as_slice());
            },
            ChannelRequest::Shell => {},
            ChannelRequest::Exec { command } => {
                w.write_string(command.as_str().as_bytes());
            },
            ChannelRequest::Subsystem { name } => {
                w.write_string(name.as_str().as_bytes());
            },
            ChannelRequest::Env { name, value } => {
                w.write_string(name.as_str().as_bytes());
                w.write_string(value.as_str().as_bytes());
            },
            ChannelRequest::WindowChange { cols, rows, px_w, px_h } => {
                w.write_u32(*cols);
                w.write_u32(*rows);
                w.write_u32(*px_w);
                w.write_u32(*px_h);
            },
            ChannelRequest::Signal { name } => {
                w.write_string(name.as_str().as_bytes());
            },
            ChannelRequest::ExitStatus { code } => {
                w.write_u32(*code);
            },
            ChannelRequest::ExitSignal { name, core_dumped, message, language } => {
                w.write_string(name.as_str().as_bytes());
                w.write_bool(*core_dumped);
                w.write_string(message.as_str().as_bytes());
                w.write_string(language.as_str().as_bytes());
            },
            ChannelRequest::AuthAgentReq => {},
            ChannelRequest::X11Req { single_connection, auth_protocol, auth_cookie, screen } => {
                w.write_bool(*single_connection);
                w.write_string(auth_protocol.as_str().as_bytes());
                w.write_string(auth_cookie.as_str().as_bytes());
                w.write_u32(*screen);
            },
            ChannelRequest::Other { raw, .. } => {
                w.write_raw(raw.as_slice());
            },
        }
        assert(w@ =~= old(w)@ + self@.body());
    }

    /// Decode the request-type-specific tail given the `request_type` name and
    /// the remaining payload bytes.
    pub fn decode(name: &str, body: &[u8]) -> (r: Result<Self, Error>)
        ensures
            match ChannelRequestView::decode(name@, body@) {
                Ok(v) => r matches Ok(req) && req@ == v,
                Err(e) => r == Err::<Self, Error>(e),
            },
    {
        let mut r = Reader::new(body);
        if str_eq(name, "pty-req") {
            let term = read_utf8(&mut r, "invalid utf-8 in channel request")?.to_owned();
            let cols: u32 = r.read_u32()?;
            let rows: u32 = r.read_u32()?;
            let px_w: u32 = r.read_u32()?;
            let px_h: u32 = r.read_u32()?;
            let modes = vstd::slice::slice_to_vec(r.read_string()?);
            Ok(ChannelRequest::PtyReq { term, cols, rows, px_w, px_h, modes })
        } else if str_eq(name, "shell") {
            Ok(ChannelRequest::Shell)
        } else if str_eq(name, "exec") {
            let command = read_utf8(&mut r, "invalid utf-8 in channel request")?.to_owned();
            Ok(ChannelRequest::Exec { command })
        } else if str_eq(name, "subsystem") {
            let name = read_utf8(&mut r, "invalid utf-8 in channel request")?.to_owned();
            Ok(ChannelRequest::Subsystem { name })
        } else if str_eq(name, "env") {
            let name = read_utf8(&mut r, "invalid utf-8 in channel request")?.to_owned();
            let value = read_utf8(&mut r, "invalid utf-8 in channel request")?.to_owned();
            Ok(ChannelRequest::Env { name, value })
        } else if str_eq(name, "window-change") {
            let cols: u32 = r.read_u32()?;
            let rows: u32 = r.read_u32()?;
            let px_w: u32 = r.read_u32()?;
            let px_h: u32 = r.read_u32()?;
            Ok(ChannelRequest::WindowChange { cols, rows, px_w, px_h })
        } else if str_eq(name, "signal") {
            let name = read_utf8(&mut r, "invalid utf-8 in channel request")?.to_owned();
            Ok(ChannelRequest::Signal { name })
        } else if str_eq(name, "exit-status") {
            let code: u32 = r.read_u32()?;
            Ok(ChannelRequest::ExitStatus { code })
        } else if str_eq(name, "exit-signal") {
            let name = read_utf8(&mut r, "invalid utf-8 in channel request")?.to_owned();
            let core_dumped = r.read_bool()?;
            let message = read_utf8(&mut r, "invalid utf-8 in channel request")?.to_owned();
            let language = read_utf8(&mut r, "invalid utf-8 in channel request")?.to_owned();
            Ok(ChannelRequest::ExitSignal { name, core_dumped, message, language })
        } else if str_eq(name, "auth-agent-req@openssh.com") {
            Ok(ChannelRequest::AuthAgentReq)
        } else if str_eq(name, "x11-req") {
            let single_connection = r.read_bool()?;
            let auth_protocol = read_utf8(&mut r, "invalid utf-8 in channel request")?.to_owned();
            let auth_cookie = read_utf8(&mut r, "invalid utf-8 in channel request")?.to_owned();
            let screen: u32 = r.read_u32()?;
            Ok(ChannelRequest::X11Req { single_connection, auth_protocol, auth_cookie, screen })
        } else {
            Ok(
                ChannelRequest::Other {
                    name: name.to_owned(),
                    raw: vstd::slice::slice_to_vec(body),
                },
            )
        }
    }
}

} // verus!
