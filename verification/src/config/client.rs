//! The client's configuration file, `ssh_config`.
//!
//! Only keywords that have an effect are recognised; any other is an error.
//!
//! The file is a sequence of blocks. `Host` opens a block for host patterns,
//! `Match` one for criteria, and what stands before the first block belongs to
//! an implicit `Host *` block. A lookup walks the blocks that apply, in order:
//! the first value of a scalar wins, and `IdentityFile`, `LocalForward` and
//! `RemoteForward` concatenate.

use super::glob::{host_matches, list_matches, HostPattern, HostPatternView};
use super::match_block::{
    all_match_step, block_given, lemma_exec_denied, lemma_match_line_is_not_empty, match_line,
    parse_match_line, ExecPolicy, ExecStep, MatchCondition, MatchConditionView, MatchContext,
    MatchContextView, MatchSide, Step,
};
use super::parser::{parse_text, tokenize, ParsedLine, ParsedLineView};
use super::value::{
    complain, complain_of, first_set, joined, line_error, log_level_value, lower_value, one_arg,
    one_arg_lower, one_value, parse_log_level, parse_u16, parse_yes_no, pick, pick_text,
    port_value, switch_value, unexpected,
};
use super::{bad_value, unsupported, ConfigError, ConfigErrorView};
use crate::text::{
    chars_of, concat, decimal, decimal_string, last_index, opt_view, parse_number, parse_unsigned,
    rfind, str_eq, string_of, views,
};
use vstd::prelude::*;

verus! {

/// `StrictHostKeyChecking` value.
#[derive(Clone, Copy, Debug, PartialEq, Eq, Structural)]
pub enum StrictMode {
    /// `yes`: refuse an unknown key; reject a changed one.
    Yes,
    /// `no`: accept an unknown key, and tolerate a changed one (insecure).
    No,
    /// `accept-new`: accept an unknown key; reject a changed one.
    AcceptNew,
    /// `ask`: prompt on an unknown key; reject a changed one.
    Ask,
}

/// `RequestTTY` value.
#[derive(Clone, Copy, Debug, PartialEq, Eq, Structural)]
pub enum RequestTty {
    /// `no`: never allocate.
    No,
    /// `yes`: allocate for an interactive session.
    Yes,
    /// `force`: always allocate.
    Force,
    /// `auto`: allocate iff local stdin is a terminal.
    Auto,
}

/// One `LocalForward` entry, `[bind:]port host:hostport`.
#[derive(Clone, Debug, PartialEq, Eq)]
pub struct LocalForwardSpec {
    /// Local bind address; `None` for the loopback interface.
    pub bind_addr: Option<String>,
    /// Local port to listen on.
    pub listen_port: u16,
    /// Remote destination host.
    pub remote_host: String,
    /// Remote destination port.
    pub remote_port: u16,
}

/// What a [`LocalForwardSpec`] says.
#[verifier::ext_equal]
pub ghost struct LocalForwardSpecView {
    pub bind_addr: Option<Seq<char>>,
    pub listen_port: u16,
    pub remote_host: Seq<char>,
    pub remote_port: u16,
}

impl View for LocalForwardSpec {
    type V = LocalForwardSpecView;

    open spec fn view(&self) -> LocalForwardSpecView {
        LocalForwardSpecView {
            bind_addr: opt_view(self.bind_addr),
            listen_port: self.listen_port,
            remote_host: self.remote_host@,
            remote_port: self.remote_port,
        }
    }
}

/// One `RemoteForward` entry, `[bind:]port host:hostport`.
#[derive(Clone, Debug, PartialEq, Eq)]
pub struct RemoteForwardSpec {
    /// Remote bind address; `None` for the loopback interface of the server.
    pub bind_addr: Option<String>,
    /// Remote port that the server should bind.
    pub remote_port: u16,
    /// Local destination host.
    pub local_host: String,
    /// Local destination port.
    pub local_port: u16,
}

/// What a [`RemoteForwardSpec`] says.
#[verifier::ext_equal]
pub ghost struct RemoteForwardSpecView {
    pub bind_addr: Option<Seq<char>>,
    pub remote_port: u16,
    pub local_host: Seq<char>,
    pub local_port: u16,
}

impl View for RemoteForwardSpec {
    type V = RemoteForwardSpecView;

    open spec fn view(&self) -> RemoteForwardSpecView {
        RemoteForwardSpecView {
            bind_addr: opt_view(self.bind_addr),
            remote_port: self.remote_port,
            local_host: self.local_host@,
            local_port: self.local_port,
        }
    }
}

/// Options for a host. What is `None` or empty was not set.
#[derive(Clone, Debug, PartialEq, Eq)]
pub struct ClientOptions {
    /// `HostName`: the host to connect to; the `Host` name is a label.
    pub host_name: Option<String>,
    /// `Port`.
    pub port: Option<u16>,
    /// `User`: remote user name.
    pub user: Option<String>,
    /// `IdentityFile` entries, cumulative.
    pub identity_files: Vec<String>,
    /// `IdentitiesOnly`.
    pub identities_only: Option<bool>,
    /// `StrictHostKeyChecking`.
    pub strict_host_key: Option<StrictMode>,
    /// `UserKnownHostsFile`.
    pub user_known_hosts: Option<String>,
    /// `HashKnownHosts`.
    pub hash_known_hosts: Option<bool>,
    /// `LocalForward` entries, cumulative.
    pub local_forwards: Vec<LocalForwardSpec>,
    /// `RemoteForward` entries, cumulative.
    pub remote_forwards: Vec<RemoteForwardSpec>,
    /// `ForwardAgent`.
    pub forward_agent: Option<bool>,
    /// `ForwardX11`.
    pub forward_x11: Option<bool>,
    /// `ForwardX11Trusted`.
    pub forward_x11_trusted: Option<bool>,
    /// `RequestTTY`.
    pub request_tty: Option<RequestTty>,
    /// `LogLevel`, from 0 (`QUIET` to `INFO`) to 3 (`DEBUG3`).
    pub log_level: Option<u8>,
}

/// What [`ClientOptions`] say.
#[verifier::ext_equal]
pub ghost struct ClientOptionsView {
    pub host_name: Option<Seq<char>>,
    pub port: Option<u16>,
    pub user: Option<Seq<char>>,
    pub identity_files: Seq<Seq<char>>,
    pub identities_only: Option<bool>,
    pub strict_host_key: Option<StrictMode>,
    pub user_known_hosts: Option<Seq<char>>,
    pub hash_known_hosts: Option<bool>,
    pub local_forwards: Seq<LocalForwardSpecView>,
    pub remote_forwards: Seq<RemoteForwardSpecView>,
    pub forward_agent: Option<bool>,
    pub forward_x11: Option<bool>,
    pub forward_x11_trusted: Option<bool>,
    pub request_tty: Option<RequestTty>,
    pub log_level: Option<u8>,
}

impl View for ClientOptions {
    type V = ClientOptionsView;

    open spec fn view(&self) -> ClientOptionsView {
        ClientOptionsView {
            host_name: opt_view(self.host_name),
            port: self.port,
            user: opt_view(self.user),
            identity_files: views(self.identity_files@),
            identities_only: self.identities_only,
            strict_host_key: self.strict_host_key,
            user_known_hosts: opt_view(self.user_known_hosts),
            hash_known_hosts: self.hash_known_hosts,
            local_forwards: views(self.local_forwards@),
            remote_forwards: views(self.remote_forwards@),
            forward_agent: self.forward_agent,
            forward_x11: self.forward_x11,
            forward_x11_trusted: self.forward_x11_trusted,
            request_tty: self.request_tty,
            log_level: self.log_level,
        }
    }
}

impl ClientOptionsView {
    /// Nothing set.
    pub open spec fn unset() -> ClientOptionsView {
        ClientOptionsView {
            host_name: None,
            port: None,
            user: None,
            identity_files: Seq::empty(),
            identities_only: None,
            strict_host_key: None,
            user_known_hosts: None,
            hash_known_hosts: None,
            local_forwards: Seq::empty(),
            remote_forwards: Seq::empty(),
            forward_agent: None,
            forward_x11: None,
            forward_x11_trusted: None,
            request_tty: None,
            log_level: None,
        }
    }

    /// These options with another block taken in: the first value of a scalar
    /// wins, and lists concatenate.
    pub open spec fn with(self, other: ClientOptionsView) -> ClientOptionsView {
        ClientOptionsView {
            host_name: first_set(self.host_name, other.host_name),
            port: first_set(self.port, other.port),
            user: first_set(self.user, other.user),
            identity_files: self.identity_files + other.identity_files,
            identities_only: first_set(self.identities_only, other.identities_only),
            strict_host_key: first_set(self.strict_host_key, other.strict_host_key),
            user_known_hosts: first_set(self.user_known_hosts, other.user_known_hosts),
            hash_known_hosts: first_set(self.hash_known_hosts, other.hash_known_hosts),
            local_forwards: self.local_forwards + other.local_forwards,
            remote_forwards: self.remote_forwards + other.remote_forwards,
            forward_agent: first_set(self.forward_agent, other.forward_agent),
            forward_x11: first_set(self.forward_x11, other.forward_x11),
            forward_x11_trusted: first_set(self.forward_x11_trusted, other.forward_x11_trusted),
            request_tty: first_set(self.request_tty, other.request_tty),
            log_level: first_set(self.log_level, other.log_level),
        }
    }

    /// Whether other options have every value that is set here, and every list
    /// from here as the front of theirs.
    pub open spec fn kept_by(self, other: ClientOptionsView) -> bool {
        &&& self.host_name is Some ==> other.host_name == self.host_name
        &&& self.port is Some ==> other.port == self.port
        &&& self.user is Some ==> other.user == self.user
        &&& self.identity_files.is_prefix_of(other.identity_files)
        &&& self.identities_only is Some ==> other.identities_only == self.identities_only
        &&& self.strict_host_key is Some ==> other.strict_host_key == self.strict_host_key
        &&& self.user_known_hosts is Some ==> other.user_known_hosts == self.user_known_hosts
        &&& self.hash_known_hosts is Some ==> other.hash_known_hosts == self.hash_known_hosts
        &&& self.local_forwards.is_prefix_of(other.local_forwards)
        &&& self.remote_forwards.is_prefix_of(other.remote_forwards)
        &&& self.forward_agent is Some ==> other.forward_agent == self.forward_agent
        &&& self.forward_x11 is Some ==> other.forward_x11 == self.forward_x11
        &&& self.forward_x11_trusted is Some ==> other.forward_x11_trusted
            == self.forward_x11_trusted
        &&& self.request_tty is Some ==> other.request_tty == self.request_tty
        &&& self.log_level is Some ==> other.log_level == self.log_level
    }
}

impl Default for ClientOptions {
    fn default() -> (r: Self)
        ensures
            r@ == ClientOptionsView::unset(),
    {
        let r = ClientOptions {
            host_name: None,
            port: None,
            user: None,
            identity_files: Vec::new(),
            identities_only: None,
            strict_host_key: None,
            user_known_hosts: None,
            hash_known_hosts: None,
            local_forwards: Vec::new(),
            remote_forwards: Vec::new(),
            forward_agent: None,
            forward_x11: None,
            forward_x11_trusted: None,
            request_tty: None,
            log_level: None,
        };
        assert(r@ =~~= ClientOptionsView::unset());
        r
    }
}

/// The value of `StrictHostKeyChecking`.
pub open spec fn strict_value(line: ParsedLineView) -> Result<StrictMode, ConfigErrorView> {
    match lower_value(line) {
        Err(e) => Err(e),
        Ok(s) => if s == "yes"@ {
            Ok(StrictMode::Yes)
        } else if s == "no"@ || s == "off"@ {
            Ok(StrictMode::No)
        } else if s == "accept-new"@ {
            Ok(StrictMode::AcceptNew)
        } else if s == "ask"@ {
            Ok(StrictMode::Ask)
        } else {
            Err(unexpected(line, "expected yes/no/accept-new/ask/off, got "@, s))
        },
    }
}

/// The value of `RequestTTY`.
pub open spec fn request_tty_value(line: ParsedLineView) -> Result<RequestTty, ConfigErrorView> {
    match lower_value(line) {
        Err(e) => Err(e),
        Ok(s) => if s == "no"@ {
            Ok(RequestTty::No)
        } else if s == "yes"@ {
            Ok(RequestTty::Yes)
        } else if s == "force"@ {
            Ok(RequestTty::Force)
        } else if s == "auto"@ {
            Ok(RequestTty::Auto)
        } else {
            Err(unexpected(line, "expected no/yes/force/auto, got "@, s))
        },
    }
}

/// Where `]:` first occurs.
pub open spec fn bracket_end(s: Seq<char>) -> Option<int>
    decreases s.len(),
{
    if s.len() < 2 {
        None
    } else if s[0] == ']' && s[1] == ':' {
        Some(0)
    } else {
        match bracket_end(s.skip(1)) {
            Some(i) => Some(i + 1),
            None => None,
        }
    }
}

/// The port that a part of `s` names.
pub open spec fn forward_port(text: Seq<char>, s: Seq<char>, line: ParsedLineView) -> Result<
    u16,
    ConfigErrorView,
> {
    match parse_unsigned(text, 65535) {
        Some(v) => Ok(v as u16),
        None => Err(unexpected(line, "bad port in "@, s)),
    }
}

/// The address and port of `[address]:port` or `address:port`, or nothing
/// where there is no colon.
pub open spec fn address_port(s: Seq<char>, malformed: Seq<char>, line: ParsedLineView) -> Result<
    Option<(Seq<char>, u16)>,
    ConfigErrorView,
> {
    if s.len() > 0 && s[0] == '[' {
        let rest = s.skip(1);
        match bracket_end(rest) {
            None => Err(unexpected(line, malformed, s)),
            Some(i) => match forward_port(rest.skip(i + 2), s, line) {
                Ok(p) => Ok(Some((rest.take(i), p))),
                Err(e) => Err(e),
            },
        }
    } else {
        match last_index(s, ':') {
            None => Ok(None),
            Some(i) => match forward_port(s.skip(i + 1), s, line) {
                Ok(p) => Ok(Some((s.take(i), p))),
                Err(e) => Err(e),
            },
        }
    }
}

/// The listening side of a forwarding: `[bind:]port`.
pub open spec fn bind_port(s: Seq<char>, line: ParsedLineView) -> Result<
    (Option<Seq<char>>, u16),
    ConfigErrorView,
> {
    match address_port(s, "malformed bracketed bind:port "@, line) {
        Err(e) => Err(e),
        Ok(Some((addr, port))) => Ok((Some(addr), port)),
        Ok(None) => match parse_unsigned(s, 65535) {
            Some(v) => Ok((None, v as u16)),
            None => Err(unexpected(line, "expected port or addr:port, got "@, s)),
        },
    }
}

/// The far side of a forwarding: `host:port`.
pub open spec fn target_port(s: Seq<char>, line: ParsedLineView) -> Result<
    (Seq<char>, u16),
    ConfigErrorView,
> {
    match address_port(s, "malformed bracketed host:port "@, line) {
        Err(e) => Err(e),
        Ok(Some((host, port))) => Ok((host, port)),
        Ok(None) => Err(unexpected(line, "expected host:port, got "@, s)),
    }
}

/// Both sides of a forwarding.
pub open spec fn forward_value(line: ParsedLineView) -> Result<
    (Option<Seq<char>>, u16, Seq<char>, u16),
    ConfigErrorView,
> {
    if line.args.len() != 2 {
        Err(line_error(line, "expected 2 tokens, got "@ + decimal(line.args.len())))
    } else {
        match bind_port(line.args[0], line) {
            Err(e) => Err(e),
            Ok((bind, port)) => match target_port(line.args[1], line) {
                Err(e) => Err(e),
                Ok((host, host_port)) => Ok((bind, port, host, host_port)),
            },
        }
    }
}

/// The value of `LocalForward`.
pub open spec fn local_forward_value(line: ParsedLineView) -> Result<
    LocalForwardSpecView,
    ConfigErrorView,
> {
    match forward_value(line) {
        Err(e) => Err(e),
        Ok((bind_addr, listen_port, remote_host, remote_port)) => Ok(
            LocalForwardSpecView { bind_addr, listen_port, remote_host, remote_port },
        ),
    }
}

/// The value of `RemoteForward`.
pub open spec fn remote_forward_value(line: ParsedLineView) -> Result<
    RemoteForwardSpecView,
    ConfigErrorView,
> {
    match forward_value(line) {
        Err(e) => Err(e),
        Ok((bind_addr, remote_port, local_host, local_port)) => Ok(
            RemoteForwardSpecView { bind_addr, remote_port, local_host, local_port },
        ),
    }
}

/// The options after one directive.
pub open spec fn with_directive(o: ClientOptionsView, line: ParsedLineView) -> Result<
    ClientOptionsView,
    ConfigErrorView,
> {
    let kw = line.keyword;
    if kw == "hostname"@ {
        match one_value(line) {
            Err(e) => Err(e),
            Ok(s) => Ok(ClientOptionsView { host_name: Some(s), ..o }),
        }
    } else if kw == "port"@ {
        match port_value(line) {
            Err(e) => Err(e),
            Ok(v) => Ok(ClientOptionsView { port: Some(v), ..o }),
        }
    } else if kw == "user"@ {
        match one_value(line) {
            Err(e) => Err(e),
            Ok(s) => Ok(ClientOptionsView { user: Some(s), ..o }),
        }
    } else if kw == "identityfile"@ {
        match one_value(line) {
            Err(e) => Err(e),
            Ok(s) => Ok(ClientOptionsView { identity_files: o.identity_files.push(s), ..o }),
        }
    } else if kw == "identitiesonly"@ {
        match switch_value(line) {
            Err(e) => Err(e),
            Ok(v) => Ok(ClientOptionsView { identities_only: Some(v), ..o }),
        }
    } else if kw == "stricthostkeychecking"@ {
        match strict_value(line) {
            Err(e) => Err(e),
            Ok(v) => Ok(ClientOptionsView { strict_host_key: Some(v), ..o }),
        }
    } else if kw == "userknownhostsfile"@ {
        match one_value(line) {
            Err(e) => Err(e),
            Ok(s) => Ok(ClientOptionsView { user_known_hosts: Some(s), ..o }),
        }
    } else if kw == "hashknownhosts"@ {
        match switch_value(line) {
            Err(e) => Err(e),
            Ok(v) => Ok(ClientOptionsView { hash_known_hosts: Some(v), ..o }),
        }
    } else if kw == "localforward"@ {
        match local_forward_value(line) {
            Err(e) => Err(e),
            Ok(f) => Ok(ClientOptionsView { local_forwards: o.local_forwards.push(f), ..o }),
        }
    } else if kw == "remoteforward"@ {
        match remote_forward_value(line) {
            Err(e) => Err(e),
            Ok(f) => Ok(ClientOptionsView { remote_forwards: o.remote_forwards.push(f), ..o }),
        }
    } else if kw == "forwardagent"@ {
        match switch_value(line) {
            Err(e) => Err(e),
            Ok(v) => Ok(ClientOptionsView { forward_agent: Some(v), ..o }),
        }
    } else if kw == "forwardx11"@ {
        match switch_value(line) {
            Err(e) => Err(e),
            Ok(v) => Ok(ClientOptionsView { forward_x11: Some(v), ..o }),
        }
    } else if kw == "forwardx11trusted"@ {
        match switch_value(line) {
            Err(e) => Err(e),
            Ok(v) => Ok(ClientOptionsView { forward_x11_trusted: Some(v), ..o }),
        }
    } else if kw == "requesttty"@ {
        match request_tty_value(line) {
            Err(e) => Err(e),
            Ok(v) => Ok(ClientOptionsView { request_tty: Some(v), ..o }),
        }
    } else if kw == "loglevel"@ {
        match log_level_value(line) {
            Err(e) => Err(e),
            Ok(v) => Ok(ClientOptionsView { log_level: Some(v), ..o }),
        }
    } else {
        Err(ConfigErrorView::UnknownKeyword { line: line.line_no, keyword: kw })
    }
}

fn parse_strict(line: &ParsedLine) -> (r: Result<StrictMode, ConfigError>)
    ensures
        match strict_value(line@) {
            Ok(p) => r matches Ok(v) && v == p,
            Err(e) => r matches Err(x) && x@ == e,
        },
{
    let word = one_arg_lower(line)?;
    let s = word.as_str();
    if str_eq(s, "yes") {
        Ok(StrictMode::Yes)
    } else if str_eq(s, "no") || str_eq(s, "off") {
        Ok(StrictMode::No)
    } else if str_eq(s, "accept-new") {
        Ok(StrictMode::AcceptNew)
    } else if str_eq(s, "ask") {
        Ok(StrictMode::Ask)
    } else {
        Err(complain_of(line, "expected yes/no/accept-new/ask/off, got ", s))
    }
}

fn parse_request_tty(line: &ParsedLine) -> (r: Result<RequestTty, ConfigError>)
    ensures
        match request_tty_value(line@) {
            Ok(p) => r matches Ok(v) && v == p,
            Err(e) => r matches Err(x) && x@ == e,
        },
{
    let word = one_arg_lower(line)?;
    let s = word.as_str();
    if str_eq(s, "no") {
        Ok(RequestTty::No)
    } else if str_eq(s, "yes") {
        Ok(RequestTty::Yes)
    } else if str_eq(s, "force") {
        Ok(RequestTty::Force)
    } else if str_eq(s, "auto") {
        Ok(RequestTty::Auto)
    } else {
        Err(complain_of(line, "expected no/yes/force/auto, got ", s))
    }
}

/// Where `]:` first occurs.
fn find_bracket_end(s: &[char]) -> (r: Option<usize>)
    ensures
        match bracket_end(s@) {
            Some(i) => r matches Some(k) && k == i && k + 2 <= s@.len(),
            None => r is None,
        },
{
    let n: usize = s.len();
    let mut i: usize = 0;
    assert(s@.skip(0) =~= s@);
    while n - i > 1
        invariant
            i <= n,
            n == s@.len(),
            match bracket_end(s@.skip(i as int)) {
                Some(k) => bracket_end(s@) == Some(i + k),
                None => bracket_end(s@) is None,
            },
        decreases n - i,
    {
        assert(s@.skip(i as int)[0] == s@[i as int]);
        assert(s@.skip(i as int)[1] == s@[i + 1]);
        assert(s@.skip(i as int).skip(1) =~= s@.skip(i + 1));
        if s[i] == ']' && s[i + 1] == ':' {
            return Some(i);
        }
        i += 1;
    }
    None
}

fn parse_forward_port(text: &[char], s: &str, line: &ParsedLine) -> (r: Result<u16, ConfigError>)
    ensures
        match forward_port(text@, s@, line@) {
            Ok(p) => r matches Ok(v) && v == p,
            Err(e) => r matches Err(x) && x@ == e,
        },
{
    match parse_number(text, 65535) {
        Some(v) => Ok(v as u16),
        None => Err(complain_of(line, "bad port in ", s)),
    }
}

/// Split `[address]:port` or `address:port`.
fn split_address_port(s: &str, malformed: &str, line: &ParsedLine) -> (r: Result<
    Option<(String, u16)>,
    ConfigError,
>)
    ensures
        match address_port(s@, malformed@, line@) {
            Ok(None) => r matches Ok(None),
            Ok(Some((addr, port))) => r matches Ok(Some((a, p))) && a@ == addr && p == port,
            Err(e) => r matches Err(x) && x@ == e,
        },
{
    let cs = chars_of(s);
    let n: usize = cs.len();
    if n > 0 && cs[0] == '[' {
        let rest = vstd::slice::slice_subrange(cs.as_slice(), 1, n);
        assert(rest@ =~= s@.skip(1));
        match find_bracket_end(rest) {
            None => Err(complain_of(line, malformed, s)),
            Some(i) => {
                let addr = vstd::slice::slice_subrange(rest, 0, i);
                let text = vstd::slice::slice_subrange(rest, i + 2, rest.len());
                assert(addr@ =~= rest@.take(i as int));
                assert(text@ =~= rest@.skip(i + 2));
                let port = parse_forward_port(text, s, line)?;
                Ok(Some((string_of(addr), port)))
            },
        }
    } else {
        match rfind(cs.as_slice(), ':') {
            None => Ok(None),
            Some(i) => {
                let addr = vstd::slice::slice_subrange(cs.as_slice(), 0, i);
                let text = vstd::slice::slice_subrange(cs.as_slice(), i + 1, n);
                assert(addr@ =~= s@.take(i as int));
                assert(text@ =~= s@.skip(i + 1));
                let port = parse_forward_port(text, s, line)?;
                Ok(Some((string_of(addr), port)))
            },
        }
    }
}

/// Parse the listening side of a forwarding, `[bind:]port`.
fn split_bind_port(s: &str, line: &ParsedLine) -> (r: Result<(Option<String>, u16), ConfigError>)
    ensures
        match bind_port(s@, line@) {
            Ok((bind, port)) => r matches Ok((b, p)) && opt_view(b) == bind && p == port,
            Err(e) => r matches Err(x) && x@ == e,
        },
{
    match split_address_port(s, "malformed bracketed bind:port ", line)? {
        Some((addr, port)) => Ok((Some(addr), port)),
        None => match parse_number(chars_of(s).as_slice(), 65535) {
            Some(v) => Ok((None, v as u16)),
            None => Err(complain_of(line, "expected port or addr:port, got ", s)),
        },
    }
}

/// Parse the far side of a forwarding, `host:port`.
fn split_host_port(s: &str, line: &ParsedLine) -> (r: Result<(String, u16), ConfigError>)
    ensures
        match target_port(s@, line@) {
            Ok((host, port)) => r matches Ok((h, p)) && h@ == host && p == port,
            Err(e) => r matches Err(x) && x@ == e,
        },
{
    match split_address_port(s, "malformed bracketed host:port ", line)? {
        Some(found) => Ok(found),
        None => Err(complain_of(line, "expected host:port, got ", s)),
    }
}

/// Parse both sides of a forwarding.
fn parse_forward(line: &ParsedLine) -> (r: Result<(Option<String>, u16, String, u16), ConfigError>)
    ensures
        match forward_value(line@) {
            Ok((bind, port, host, host_port)) => r matches Ok((b, p, h, hp)) && opt_view(b) == bind
                && p == port && h@ == host && hp == host_port,
            Err(e) => r matches Err(x) && x@ == e,
        },
{
    if line.args.len() != 2 {
        return Err(
            complain(
                line,
                concat("expected 2 tokens, got ", decimal_string(line.args.len()).as_str()),
            ),
        );
    }
    assert(line@.args[0] == line.args@[0]@);
    assert(line@.args[1] == line.args@[1]@);
    let (bind, port) = split_bind_port(line.args[0].as_str(), line)?;
    let (host, host_port) = split_host_port(line.args[1].as_str(), line)?;
    Ok((bind, port, host, host_port))
}

/// Parse the value of `LocalForward`.
fn parse_local_forward(line: &ParsedLine) -> (r: Result<LocalForwardSpec, ConfigError>)
    ensures
        super::agrees(r, local_forward_value(line@)),
{
    let (bind_addr, listen_port, remote_host, remote_port) = parse_forward(line)?;
    Ok(LocalForwardSpec { bind_addr, listen_port, remote_host, remote_port })
}

/// Parse the value of `RemoteForward`.
fn parse_remote_forward(line: &ParsedLine) -> (r: Result<RemoteForwardSpec, ConfigError>)
    ensures
        super::agrees(r, remote_forward_value(line@)),
{
    let (bind_addr, remote_port, local_host, local_port) = parse_forward(line)?;
    Ok(RemoteForwardSpec { bind_addr, remote_port, local_host, local_port })
}

fn with_local_forwards(a: Vec<LocalForwardSpec>, b: &Vec<LocalForwardSpec>) -> (r: Vec<
    LocalForwardSpec,
>)
    ensures
        views(r@) == views(a@) + views(b@),
{
    let mut out = a;
    let mut i: usize = 0;
    assert(views(b@).take(0) =~= Seq::<LocalForwardSpecView>::empty());
    assert(views(a@) + Seq::<LocalForwardSpecView>::empty() =~= views(a@));
    while i < b.len()
        invariant
            i <= b.len(),
            views(out@) == views(a@) + views(b@).take(i as int),
        decreases b.len() - i,
    {
        let ghost before = views(out@);
        out.push(
            LocalForwardSpec {
                bind_addr: b[i].bind_addr.clone(),
                listen_port: b[i].listen_port,
                remote_host: b[i].remote_host.clone(),
                remote_port: b[i].remote_port,
            },
        );
        assert(out@.last()@ == b@[i as int]@);
        assert(views(out@) =~= before.push(b@[i as int]@));
        assert(before.push(b@[i as int]@) =~= views(a@) + views(b@).take(i + 1));
        i += 1;
    }
    assert(views(b@).take(i as int) =~= views(b@));
    out
}

fn with_remote_forwards(a: Vec<RemoteForwardSpec>, b: &Vec<RemoteForwardSpec>) -> (r: Vec<
    RemoteForwardSpec,
>)
    ensures
        views(r@) == views(a@) + views(b@),
{
    let mut out = a;
    let mut i: usize = 0;
    assert(views(b@).take(0) =~= Seq::<RemoteForwardSpecView>::empty());
    assert(views(a@) + Seq::<RemoteForwardSpecView>::empty() =~= views(a@));
    while i < b.len()
        invariant
            i <= b.len(),
            views(out@) == views(a@) + views(b@).take(i as int),
        decreases b.len() - i,
    {
        let ghost before = views(out@);
        out.push(
            RemoteForwardSpec {
                bind_addr: b[i].bind_addr.clone(),
                remote_port: b[i].remote_port,
                local_host: b[i].local_host.clone(),
                local_port: b[i].local_port,
            },
        );
        assert(out@.last()@ == b@[i as int]@);
        assert(views(out@) =~= before.push(b@[i as int]@));
        assert(before.push(b@[i as int]@) =~= views(a@) + views(b@).take(i + 1));
        i += 1;
    }
    assert(views(b@).take(i as int) =~= views(b@));
    out
}

/// Apply one directive. A directive with an error changes nothing.
fn apply_keyword(opts: &mut ClientOptions, line: &ParsedLine) -> (r: Result<(), ConfigError>)
    ensures
        match with_directive(old(opts)@, line@) {
            Ok(o) => r is Ok && final(opts)@ == o,
            Err(e) => r matches Err(x) && x@ == e && final(opts)@ == old(opts)@,
        },
{
    let kw = line.keyword.as_str();
    if str_eq(kw, "hostname") {
        opts.host_name = Some(one_arg(line)?);
    } else if str_eq(kw, "port") {
        opts.port = Some(parse_u16(line)?);
    } else if str_eq(kw, "user") {
        opts.user = Some(one_arg(line)?);
    } else if str_eq(kw, "identityfile") {
        let word = one_arg(line)?;
        opts.identity_files.push(word);
        assert(views(opts.identity_files@) =~= old(opts)@.identity_files.push(word@));
    } else if str_eq(kw, "identitiesonly") {
        opts.identities_only = Some(parse_yes_no(line)?);
    } else if str_eq(kw, "stricthostkeychecking") {
        opts.strict_host_key = Some(parse_strict(line)?);
    } else if str_eq(kw, "userknownhostsfile") {
        opts.user_known_hosts = Some(one_arg(line)?);
    } else if str_eq(kw, "hashknownhosts") {
        opts.hash_known_hosts = Some(parse_yes_no(line)?);
    } else if str_eq(kw, "localforward") {
        let forward = parse_local_forward(line)?;
        opts.local_forwards.push(forward);
        assert(views(opts.local_forwards@) =~= old(opts)@.local_forwards.push(forward@));
    } else if str_eq(kw, "remoteforward") {
        let forward = parse_remote_forward(line)?;
        opts.remote_forwards.push(forward);
        assert(views(opts.remote_forwards@) =~= old(opts)@.remote_forwards.push(forward@));
    } else if str_eq(kw, "forwardagent") {
        opts.forward_agent = Some(parse_yes_no(line)?);
    } else if str_eq(kw, "forwardx11") {
        opts.forward_x11 = Some(parse_yes_no(line)?);
    } else if str_eq(kw, "forwardx11trusted") {
        opts.forward_x11_trusted = Some(parse_yes_no(line)?);
    } else if str_eq(kw, "requesttty") {
        opts.request_tty = Some(parse_request_tty(line)?);
    } else if str_eq(kw, "loglevel") {
        opts.log_level = Some(parse_log_level(line)?);
    } else {
        return Err(
            ConfigError::UnknownKeyword { line: line.line_no, keyword: line.keyword.clone() },
        );
    }
    Ok(())
}

/// Take in another block: an already set scalar is kept, and lists
/// concatenate.
fn merge_into(dst: ClientOptions, src: &ClientOptions) -> (r: ClientOptions)
    ensures
        r@ == dst@.with(src@),
{
    ClientOptions {
        host_name: pick_text(dst.host_name, &src.host_name),
        port: pick(dst.port, src.port),
        user: pick_text(dst.user, &src.user),
        identity_files: joined(dst.identity_files, &src.identity_files),
        identities_only: pick(dst.identities_only, src.identities_only),
        strict_host_key: pick(dst.strict_host_key, src.strict_host_key),
        user_known_hosts: pick_text(dst.user_known_hosts, &src.user_known_hosts),
        hash_known_hosts: pick(dst.hash_known_hosts, src.hash_known_hosts),
        local_forwards: with_local_forwards(dst.local_forwards, &src.local_forwards),
        remote_forwards: with_remote_forwards(dst.remote_forwards, &src.remote_forwards),
        forward_agent: pick(dst.forward_agent, src.forward_agent),
        forward_x11: pick(dst.forward_x11, src.forward_x11),
        forward_x11_trusted: pick(dst.forward_x11_trusted, src.forward_x11_trusted),
        request_tty: pick(dst.request_tty, src.request_tty),
        log_level: pick(dst.log_level, src.log_level),
    }
}

/// A block: what it applies to, and its options.
#[derive(Clone, Debug)]
enum Block {
    Host { patterns: Vec<HostPattern>, opts: ClientOptions },
    Match { conditions: Vec<MatchCondition>, opts: ClientOptions },
}

/// What a block says.
#[verifier::ext_equal]
pub ghost enum BlockView {
    Host { patterns: Seq<HostPatternView>, opts: ClientOptionsView },
    Match { conditions: Seq<MatchConditionView>, opts: ClientOptionsView },
}

impl View for Block {
    type V = BlockView;

    closed spec fn view(&self) -> BlockView {
        match self {
            Block::Host { patterns, opts } => BlockView::Host {
                patterns: views(patterns@),
                opts: opts@,
            },
            Block::Match { conditions, opts } => BlockView::Match {
                conditions: views(conditions@),
                opts: opts@,
            },
        }
    }
}

impl BlockView {
    /// The block's options.
    pub open spec fn opts(self) -> ClientOptionsView {
        match self {
            BlockView::Host { opts, .. } => opts,
            BlockView::Match { opts, .. } => opts,
        }
    }

    /// The block with other options.
    pub open spec fn with_opts(self, opts: ClientOptionsView) -> BlockView {
        match self {
            BlockView::Host { patterns, .. } => BlockView::Host { patterns, opts },
            BlockView::Match { conditions, .. } => BlockView::Match { conditions, opts },
        }
    }

    /// Whether the block applies, given the answers of commands that were run,
    /// and how many of these it takes.
    pub open spec fn given(
        self,
        ctx: MatchContextView,
        policy: ExecPolicy,
        answers: Seq<bool>,
    ) -> (Step<bool>, nat) {
        match self {
            BlockView::Host { patterns, .. } => (Step::Done(list_matches(patterns, ctx.host)), 0),
            BlockView::Match { conditions, .. } => block_given(conditions, ctx, policy, answers),
        }
    }
}

impl Block {
    fn opts(&self) -> (r: &ClientOptions)
        ensures
            r@ == self@.opts(),
    {
        match self {
            Block::Host { opts, .. } => opts,
            Block::Match { opts, .. } => opts,
        }
    }

    /// Apply one directive to the block's options.
    fn apply(&mut self, line: &ParsedLine) -> (r: Result<(), ConfigError>)
        ensures
            match with_directive(old(self)@.opts(), line@) {
                Ok(o) => r is Ok && final(self)@ == old(self)@.with_opts(o),
                Err(e) => r matches Err(x) && x@ == e,
            },
    {
        match self {
            Block::Host { opts, .. } => apply_keyword(opts, line),
            Block::Match { opts, .. } => apply_keyword(opts, line),
        }
    }

    /// Whether the block applies, and how many answers that takes.
    fn applies(&self, ctx: &MatchContext<'_>, policy: ExecPolicy, answers: &[bool]) -> (r: (
        ExecStep<bool>,
        usize,
    ))
        ensures
            r.0.is(self@.given(ctx@, policy, answers@).0),
            r.1 == self@.given(ctx@, policy, answers@).1,
            r.1 <= answers@.len(),
    {
        match self {
            Block::Host { patterns, .. } => (
                ExecStep::Done(host_matches(patterns.as_slice(), ctx.host)),
                0,
            ),
            Block::Match { conditions, .. } => all_match_step(
                conditions.as_slice(),
                ctx,
                policy,
                answers,
            ),
        }
    }
}

/// The block that lines before any `Host` or `Match` line belong to.
pub open spec fn global_block() -> BlockView {
    BlockView::Host { patterns: seq![HostPatternView::Any], opts: ClientOptionsView::unset() }
}

/// The blocks with one more line: `Host` and `Match` open a block, and any
/// other line goes to the last one.
pub open spec fn with_line(blocks: Seq<BlockView>, line: ParsedLineView) -> Result<
    Seq<BlockView>,
    ConfigErrorView,
> {
    if line.keyword == "host"@ {
        if line.args.len() == 0 {
            Err(
                ConfigErrorView::BadValue {
                    line: line.line_no,
                    keyword: "host"@,
                    msg: "Host requires at least one pattern"@,
                },
            )
        } else {
            Ok(
                blocks.push(
                    BlockView::Host {
                        patterns: line.args.map_values(|t: Seq<char>| HostPatternView::parse(t)),
                        opts: ClientOptionsView::unset(),
                    },
                ),
            )
        }
    } else if line.keyword == "match"@ {
        match match_line(line.args, line.line_no, MatchSide::Client) {
            Err(e) => Err(e),
            Ok(conditions) => Ok(
                blocks.push(BlockView::Match { conditions, opts: ClientOptionsView::unset() }),
            ),
        }
    } else if line.keyword == "include"@ {
        Err(
            ConfigErrorView::Unsupported {
                line: line.line_no,
                msg: "Include requires file-based loading; use SshClientConfig::load() instead"@,
            },
        )
    } else {
        match with_directive(blocks.last().opts(), line) {
            Err(e) => Err(e),
            Ok(opts) => Ok(blocks.drop_last().push(blocks.last().with_opts(opts))),
        }
    }
}

/// The blocks that the lines of a file form.
pub open spec fn blocks_of(lines: Seq<ParsedLineView>) -> Result<Seq<BlockView>, ConfigErrorView>
    decreases lines.len(),
{
    if lines.len() == 0 {
        Ok(seq![global_block()])
    } else {
        match blocks_of(lines.drop_last()) {
            Err(e) => Err(e),
            Ok(blocks) => with_line(blocks, lines.last()),
        }
    }
}

/// Options with every block taken in that applies.
pub open spec fn blocks_given(
    out: ClientOptionsView,
    blocks: Seq<BlockView>,
    ctx: MatchContextView,
    policy: ExecPolicy,
    answers: Seq<bool>,
) -> Step<ClientOptionsView>
    decreases blocks.len(),
{
    if blocks.len() == 0 {
        Step::Done(out)
    } else {
        match blocks[0].given(ctx, policy, answers) {
            (Step::Run(cmd), _) => Step::Run(cmd),
            (Step::Done(applies), used) => blocks_given(
                if applies {
                    out.with(blocks[0].opts())
                } else {
                    out
                },
                blocks.skip(1),
                ctx,
                policy,
                answers.skip(used as int),
            ),
        }
    }
}

/// A parsed `ssh_config` file.
#[derive(Clone, Debug)]
pub struct SshClientConfig {
    blocks: Vec<Block>,
    enable_match_exec: bool,
}

/// What an [`SshClientConfig`] says: its blocks, and whether `exec` criteria
/// may run commands.
#[verifier::ext_equal]
pub ghost struct SshClientConfigView {
    pub blocks: Seq<BlockView>,
    pub commands: bool,
}

impl View for SshClientConfig {
    type V = SshClientConfigView;

    closed spec fn view(&self) -> SshClientConfigView {
        SshClientConfigView { blocks: views(self.blocks@), commands: self.enable_match_exec }
    }
}

impl SshClientConfigView {
    /// What the lines of a file say. `exec` criteria are denied.
    pub open spec fn of_lines(lines: Seq<ParsedLineView>) -> Result<
        SshClientConfigView,
        ConfigErrorView,
    > {
        match blocks_of(lines) {
            Err(e) => Err(e),
            Ok(blocks) => Ok(SshClientConfigView { blocks, commands: false }),
        }
    }

    /// What the text of a file says.
    pub open spec fn of_text(src: Seq<char>) -> Result<SshClientConfigView, ConfigErrorView> {
        match parse_text(src) {
            Err(e) => Err(e),
            Ok(lines) => SshClientConfigView::of_lines(lines),
        }
    }

    /// What to do with `exec` criteria.
    pub open spec fn policy(self) -> ExecPolicy {
        if self.commands {
            ExecPolicy::Allow
        } else {
            ExecPolicy::Deny
        }
    }

    /// What applies to a target, given the answers of commands that were run.
    pub open spec fn found(self, ctx: MatchContextView, answers: Seq<bool>) -> Step<
        ClientOptionsView,
    > {
        blocks_given(ClientOptionsView::unset(), self.blocks, ctx, self.policy(), answers)
    }
}

/// What is known of a connection when only the host is.
pub open spec fn host_only(host: Seq<char>) -> MatchContextView {
    MatchContextView {
        host,
        original_host: None,
        user: None,
        local_user: None,
        address: None,
        local_address: None,
        local_port: None,
        groups: None,
    }
}

impl ExecStep<ClientOptions> {
    /// Whether this is how far the model gets.
    pub open spec fn is(self, model: Step<ClientOptionsView>) -> bool {
        match model {
            Step::Done(o) => self matches ExecStep::Done(x) && x@ == o,
            Step::Run(cmd) => self matches ExecStep::Run(c) && c@ == cmd,
        }
    }
}

impl Default for SshClientConfig {
    fn default() -> (r: Self)
        ensures
            r@ == (SshClientConfigView { blocks: Seq::empty(), commands: false }),
    {
        let r = SshClientConfig { blocks: Vec::new(), enable_match_exec: false };
        assert(views(r.blocks@) =~= Seq::<BlockView>::empty());
        r
    }
}

impl SshClientConfig {
    /// Parse the contents of an `ssh_config` file. `exec` criteria are denied;
    /// see [`Self::enable_match_exec`].
    ///
    /// `Include` is refused here, since there is no directory to look in: see
    /// [`super::includes`].
    pub fn parse(src: &str) -> (r: Result<Self, ConfigError>)
        ensures
            super::agrees(r, SshClientConfigView::of_text(src@)),
    {
        let lines = tokenize(src)?;
        Self::from_lines(lines)
    }

    /// Build a configuration from lines that were tokenized already, such as
    /// those of a file whose includes are expanded.
    pub fn from_lines(lines: Vec<ParsedLine>) -> (r: Result<Self, ConfigError>)
        ensures
            super::agrees(r, SshClientConfigView::of_lines(views(lines@))),
    {
        let blocks = parse_blocks(lines)?;
        Ok(SshClientConfig { blocks, enable_match_exec: false })
    }

    /// Permit or deny `exec` criteria to run commands during a lookup. Denied
    /// from the start: a file from an untrusted place could run anything at
    /// the privilege of whoever looks something up in it.
    pub fn enable_match_exec(self, allow: bool) -> (r: Self)
        ensures
            r@ == (SshClientConfigView { commands: allow, ..self@ }),
    {
        SshClientConfig { blocks: self.blocks, enable_match_exec: allow }
    }

    /// Whether `exec` criteria may run commands.
    pub fn is_match_exec_enabled(&self) -> (r: bool)
        ensures
            r == self@.commands,
    {
        self.enable_match_exec
    }

    /// What applies to a host, as far as that needs no command to be run.
    /// Criteria on anything but the host do not hold; see
    /// [`Self::lookup_with`].
    pub fn lookup(&self, host: &str) -> (r: ClientOptions)
        requires
            self@.found(host_only(host@), Seq::empty()) is Done,
        ensures
            self@.found(host_only(host@), Seq::empty()) == Step::Done(r@),
    {
        let ctx = MatchContext {
            host,
            original_host: None,
            user: None,
            local_user: None,
            address: None,
            local_address: None,
            local_port: None,
            groups: None,
        };
        assert(ctx@ =~= host_only(host@));
        self.lookup_with(ctx)
    }

    /// What applies to a target, as far as that needs no command to be run:
    /// every block that applies taken in, in source order.
    pub fn lookup_with(&self, ctx: MatchContext<'_>) -> (r: ClientOptions)
        requires
            self@.found(ctx@, Seq::empty()) is Done,
        ensures
            self@.found(ctx@, Seq::empty()) == Step::Done(r@),
    {
        let none: Vec<bool> = Vec::new();
        match self.lookup_step(&ctx, none.as_slice()) {
            ExecStep::Done(o) => o,
            ExecStep::Run(_) => ClientOptions::default(),
        }
    }

    /// What applies to a target, given the answers of the commands that were
    /// run so far, or the command to run next.
    pub fn lookup_step(&self, ctx: &MatchContext<'_>, answers: &[bool]) -> (r: ExecStep<
        ClientOptions,
    >)
        ensures
            r.is(self@.found(ctx@, answers@)),
    {
        let policy = if self.enable_match_exec {
            ExecPolicy::Allow
        } else {
            ExecPolicy::Deny
        };
        let mut out = ClientOptions::default();
        let mut used: usize = 0;
        let mut i: usize = 0;
        let ghost blocks = views(self.blocks@);
        let ghost model = self@.found(ctx@, answers@);
        assert(blocks.skip(0) =~= blocks);
        assert(answers@.skip(0) =~= answers@);
        while i < self.blocks.len()
            invariant
                i <= self.blocks.len(),
                used <= answers.len(),
                blocks == views(self.blocks@),
                model == blocks_given(
                    out@,
                    blocks.skip(i as int),
                    ctx@,
                    policy,
                    answers@.skip(used as int),
                ),
                model == self@.found(ctx@, answers@),
            decreases self.blocks.len() - i,
        {
            let left = vstd::slice::slice_subrange(answers, used, answers.len());
            assert(left@ =~= answers@.skip(used as int));
            assert(blocks.skip(i as int)[0] == self.blocks@[i as int]@);
            assert(blocks.skip(i as int).skip(1) =~= blocks.skip(i + 1));
            let (step, takes) = self.blocks[i].applies(ctx, policy, left);
            assert(answers@.skip(used as int).skip(takes as int) =~= answers@.skip(used + takes));
            match step {
                ExecStep::Run(cmd) => {
                    return ExecStep::Run(cmd);
                },
                ExecStep::Done(applies) => {
                    if applies {
                        out = merge_into(out, self.blocks[i].opts());
                    }
                },
            }
            used = used + takes;
            i += 1;
        }
        assert(blocks.skip(i as int) =~= Seq::<BlockView>::empty());
        ExecStep::Done(out)
    }
}

/// An error among the first lines is the error of all.
proof fn lemma_blocks_of_fails(lines: Seq<ParsedLineView>, n: int)
    requires
        0 <= n <= lines.len(),
        blocks_of(lines.take(n)) is Err,
    ensures
        blocks_of(lines) == blocks_of(lines.take(n)),
    decreases lines.len() - n,
{
    if n == lines.len() {
        assert(lines.take(n) =~= lines);
    } else {
        assert(lines.take(n + 1).drop_last() =~= lines.take(n));
        lemma_blocks_of_fails(lines, n + 1);
    }
}

/// Split lines into blocks.
fn parse_blocks(lines: Vec<ParsedLine>) -> (r: Result<Vec<Block>, ConfigError>)
    ensures
        match blocks_of(views(lines@)) {
            Ok(blocks) => r matches Ok(v) && views(v@) == blocks,
            Err(e) => r matches Err(x) && x@ == e,
        },
{
    let mut patterns: Vec<HostPattern> = Vec::new();
    patterns.push(HostPattern::Any);
    assert(views(patterns@) =~= seq![HostPatternView::Any]);
    let mut blocks: Vec<Block> = Vec::new();
    blocks.push(Block::Host { patterns, opts: ClientOptions::default() });
    assert(views(blocks@) =~= seq![global_block()]);
    let mut i: usize = 0;
    let ghost all = views(lines@);
    assert(all.take(0) =~= Seq::<ParsedLineView>::empty());
    while i < lines.len()
        invariant
            i <= lines.len(),
            all == views(lines@),
            blocks@.len() > 0,
            blocks_of(all.take(i as int)) == Ok::<Seq<BlockView>, ConfigErrorView>(views(blocks@)),
        decreases lines.len() - i,
    {
        proof {
            let next = all.take(i + 1);
            assert(next.drop_last() =~= all.take(i as int));
            assert(next.last() == lines@[i as int]@);
            if with_line(views(blocks@), lines@[i as int]@) is Err {
                lemma_blocks_of_fails(all, i + 1);
            }
        }
        take_line(&mut blocks, &lines[i])?;
        i += 1;
    }
    assert(all.take(i as int) =~= all);
    Ok(blocks)
}

/// Take in one line.
fn take_line(blocks: &mut Vec<Block>, line: &ParsedLine) -> (r: Result<(), ConfigError>)
    requires
        old(blocks)@.len() > 0,
    ensures
        match with_line(views(old(blocks)@), line@) {
            Ok(next) => r is Ok && views(final(blocks)@) == next && final(blocks)@.len() > 0,
            Err(e) => r matches Err(x) && x@ == e,
        },
{
    let kw = line.keyword.as_str();
    if str_eq(kw, "host") {
        if line.args.len() == 0 {
            return Err(
                bad_value(line.line_no, "host", "Host requires at least one pattern".to_owned()),
            );
        }
        let block = Block::Host {
            patterns: HostPattern::parse_all(line.args.as_slice()),
            opts: ClientOptions::default(),
        };
        blocks.push(block);
        assert(views(blocks@) =~= views(old(blocks)@).push(block@));
    } else if str_eq(kw, "match") {
        let conditions = parse_match_line(line.args.as_slice(), line.line_no)?;
        let block = Block::Match { conditions, opts: ClientOptions::default() };
        blocks.push(block);
        assert(views(blocks@) =~= views(old(blocks)@).push(block@));
    } else if str_eq(kw, "include") {
        return Err(
            unsupported(
                line.line_no,
                "Include requires file-based loading; use SshClientConfig::load() instead",
            ),
        );
    } else {
        match blocks.pop() {
            None => {},
            Some(mut block) => {
                assert(views(old(blocks)@).last() == block@);
                assert(views(old(blocks)@).drop_last() =~= views(blocks@));
                block.apply(line)?;
                let ghost before = views(blocks@);
                let ghost view = block@;
                blocks.push(block);
                assert(views(blocks@) =~= before.push(view));
            },
        }
    }
    Ok(())
}

/// Taking blocks in one after the other is taking in their combination.
pub proof fn lemma_with_is_associative(
    a: ClientOptionsView,
    b: ClientOptionsView,
    c: ClientOptionsView,
)
    ensures
        a.with(b).with(c) == a.with(b.with(c)),
{
    assert(a.with(b).with(c) =~~= a.with(b.with(c)));
}

/// A block without directives changes nothing, and to nothing a block adds
/// just its own options.
pub proof fn lemma_with_nothing(o: ClientOptionsView)
    ensures
        o.with(ClientOptionsView::unset()) == o,
        ClientOptionsView::unset().with(o) == o,
{
    assert(o.with(ClientOptionsView::unset()) =~~= o);
    assert(ClientOptionsView::unset().with(o) =~~= o);
}

/// The first value of a scalar wins, and lists grow at the end: whatever was
/// there before other blocks are looked at is kept.
pub proof fn lemma_earlier_wins(
    out: ClientOptionsView,
    blocks: Seq<BlockView>,
    ctx: MatchContextView,
    policy: ExecPolicy,
    answers: Seq<bool>,
)
    ensures
        blocks_given(out, blocks, ctx, policy, answers) matches Step::Done(r) ==> out.kept_by(r),
    decreases blocks.len(),
{
    if blocks.len() > 0 {
        if let (Step::Done(applies), used) = blocks[0].given(ctx, policy, answers) {
            let next = if applies {
                out.with(blocks[0].opts())
            } else {
                out
            };
            lemma_earlier_wins(next, blocks.skip(1), ctx, policy, answers.skip(used as int));
        }
    }
}

/// A file that was understood starts with a block for every host, and each of
/// its `Match` blocks has a criterion.
pub proof fn lemma_global_block_is_first(lines: Seq<ParsedLineView>)
    ensures
        blocks_of(lines) matches Ok(blocks) ==> {
            &&& blocks.len() > 0
            &&& blocks[0] matches BlockView::Host { patterns, .. } && patterns
                == seq![HostPatternView::Any]
            &&& forall|i: int|
                0 <= i < blocks.len() && (#[trigger] blocks[i]) is Match
                    ==> blocks[i]->conditions.len() > 0
        },
    decreases lines.len(),
{
    if lines.len() > 0 {
        lemma_global_block_is_first(lines.drop_last());
        let line = lines.last();
        if let Ok(blocks) = blocks_of(lines.drop_last()) {
            lemma_match_line_is_not_empty(line.args, line.line_no, MatchSide::Client);
            if let Ok(next) = with_line(blocks, line) {
                assert forall|i: int| 0 <= i < next.len() && (#[trigger] next[i]) is Match implies
                    next[i]->conditions.len() > 0 by {
                    if i < blocks.len() {
                        assert(blocks[i] is Match ==> blocks[i]->conditions.len() > 0);
                    }
                }
            }
        }
    }
}

/// The options before any `Host` or `Match` line apply to every host, and
/// nothing later overrides them.
pub proof fn lemma_global_options_apply(
    lines: Seq<ParsedLineView>,
    ctx: MatchContextView,
    answers: Seq<bool>,
)
    ensures
        SshClientConfigView::of_lines(lines) matches Ok(cfg) ==> cfg.found(
            ctx,
            answers,
        ) matches Step::Done(r) ==> cfg.blocks[0].opts().kept_by(r),
{
    lemma_global_block_is_first(lines);
    if let Ok(cfg) = SshClientConfigView::of_lines(lines) {
        let first = cfg.blocks[0];
        assert(list_matches(seq![HostPatternView::Any], ctx.host)) by {
            assert(seq![HostPatternView::Any][0].admits(ctx.host));
        }
        assert(first.given(ctx, cfg.policy(), answers) == (Step::Done(true), 0nat));
        lemma_with_nothing(first.opts());
        lemma_earlier_wins(
            first.opts(),
            cfg.blocks.skip(1),
            ctx,
            cfg.policy(),
            answers.skip(0),
        );
    }
}

/// While commands are denied, a lookup needs none.
pub proof fn lemma_denied_lookup_is_done(
    cfg: SshClientConfigView,
    ctx: MatchContextView,
    answers: Seq<bool>,
)
    requires
        !cfg.commands,
    ensures
        cfg.found(ctx, answers) is Done,
{
    lemma_denied_blocks(ClientOptionsView::unset(), cfg.blocks, ctx, answers);
}

proof fn lemma_denied_blocks(
    out: ClientOptionsView,
    blocks: Seq<BlockView>,
    ctx: MatchContextView,
    answers: Seq<bool>,
)
    ensures
        blocks_given(out, blocks, ctx, ExecPolicy::Deny, answers) is Done,
    decreases blocks.len(),
{
    if blocks.len() > 0 {
        if let BlockView::Match { conditions, .. } = blocks[0] {
            lemma_exec_denied(conditions, ctx, answers);
        }
        let (step, used) = blocks[0].given(ctx, ExecPolicy::Deny, answers);
        if let Step::Done(applies) = step {
            let next = if applies {
                out.with(blocks[0].opts())
            } else {
                out
            };
            lemma_denied_blocks(next, blocks.skip(1), ctx, answers.skip(used as int));
        }
    }
}

} // verus!
