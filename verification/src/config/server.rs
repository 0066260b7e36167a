//! The server's configuration file, `sshd_config`.
//!
//! Only keywords that have an effect are recognised; any other is an error.
//!
//! Options before the first `Match` line are global. Each `Match` block carries
//! its conditions and options of its own. What applies to a connection starts
//! from the global options and takes in every matching block: the first value
//! of a scalar wins, and lists concatenate.
//!
//! The server authenticates by public key alone, so directives that would turn
//! another method on are refused.

use super::algos::{
    catalogue, lemma_resolution_is_known, resolution, resolve_algo_list, AlgoCategory,
};
use super::match_block::{
    all_match_step, block_given, lemma_match_line_is_not_empty, match_line,
    parse_match_line_server, ExecPolicy, ExecStep,
    MatchCondition, MatchConditionView, MatchContext, MatchContextView, MatchSide, Step,
};
use super::parser::{parse_text, tokenize, ParsedLine, ParsedLineView};
use super::value::{
    append_words, complain, complain_of, duration, duration_value, first_set, integer_value,
    joined, line_error, log_level_value, lower_value, one_arg, one_arg_lower, one_value,
    parse_duration_seconds, parse_duration_str, parse_log_level, parse_size, parse_u16, parse_u32,
    parse_yes_no, pick, pick_text, port_value, push_word, size_bytes, switch_value, unexpected,
};
use super::{unsupported, with_quoted, ConfigError, ConfigErrorView};
use crate::text::{
    chars_of, clone_strings, concat, contains_str, debug_quoted, find, first_index, join,
    join_strings, last_index, lower_text, opt_view, parse_number, parse_unsigned, pieces, rfind,
    split_pieces, str_eq, string_of, to_lower, views,
};
use vstd::prelude::*;

verus! {

/// `PermitRootLogin` policy. Since the server authenticates by public key
/// alone, `Yes` and `ProhibitPassword` come to the same.
#[derive(Clone, Copy, Debug, PartialEq, Eq, Structural)]
pub enum PermitRootLogin {
    /// Root may log in.
    Yes,
    /// Root may never log in.
    No,
    /// Root may log in by public key but not by password.
    ProhibitPassword,
}

impl PermitRootLogin {
    /// Whether root may log in by public key: always but under `No`.
    pub fn permits_publickey(self) -> (r: bool)
        ensures
            r == !(self is No),
    {
        matches!(self, PermitRootLogin::Yes | PermitRootLogin::ProhibitPassword)
    }
}

/// `AllowTcpForwarding` policy: which forwarding directions are permitted.
#[derive(Clone, Copy, Debug, PartialEq, Eq, Structural)]
pub enum TcpForwarding {
    /// `no`: neither direction.
    No,
    /// `yes` or `all`: both directions.
    All,
    /// `local`: only connections that the client asks for.
    Local,
    /// `remote`: only listeners that the client asks for.
    Remote,
}

impl TcpForwarding {
    /// Whether local forwarding is allowed.
    pub fn local_allowed(self) -> (r: bool)
        ensures
            r == (self is All || self is Local),
    {
        matches!(self, TcpForwarding::All | TcpForwarding::Local)
    }

    /// Whether remote forwarding is allowed.
    pub fn remote_allowed(self) -> (r: bool)
        ensures
            r == (self is All || self is Remote),
    {
        matches!(self, TcpForwarding::All | TcpForwarding::Remote)
    }
}

/// `GatewayPorts` policy for remote forwarding.
#[derive(Clone, Copy, Debug, PartialEq, Eq, Structural)]
pub enum GatewayPorts {
    /// `no`: listen on the loopback interface, whatever the client asks for.
    No,
    /// `yes`: listen on all interfaces.
    Yes,
    /// `clientspecified`: listen where the client asks.
    ClientSpecified,
}

/// `Compression` policy.
#[derive(Clone, Copy, Debug, PartialEq, Eq, Structural)]
pub enum Compression {
    /// `no`: never offered.
    No,
    /// `yes`: offered from the start.
    Yes,
    /// `delayed`: offered after authentication.
    Delayed,
}

/// `AddressFamily` policy.
#[derive(Clone, Copy, Debug, PartialEq, Eq, Structural)]
pub enum AddressFamily {
    /// `any`: both IPv4 and IPv6.
    Any,
    /// `inet`: IPv4 only.
    Inet,
    /// `inet6`: IPv6 only.
    Inet6,
}

/// One `host:port` entry for `PermitOpen` or `PermitListen`.
#[derive(Clone, Debug, PartialEq, Eq)]
pub struct HostPort {
    /// Host literal, or `*` for any host.
    pub host: String,
    /// Port, or `None` for any port.
    pub port: Option<u16>,
}

/// What a [`HostPort`] says.
#[verifier::ext_equal]
pub ghost struct HostPortView {
    pub host: Seq<char>,
    pub port: Option<u16>,
}

impl View for HostPort {
    type V = HostPortView;

    open spec fn view(&self) -> HostPortView {
        HostPortView { host: self.host@, port: self.port }
    }
}

impl HostPortView {
    /// Whether the entry permits a host and port.
    pub open spec fn permits(self, host: Seq<char>, port: u16) -> bool {
        &&& self.host == "*"@ || self.host == host
        &&& self.port is None || self.port == Some(port)
    }
}

impl HostPort {
    /// Whether this entry permits a request for a host and port. A `*` host
    /// matches any host; a `None` port matches any port.
    pub fn matches(&self, host: &str, port: u16) -> (r: bool)
        ensures
            r == self@.permits(host@, port),
    {
        let host_ok = str_eq(self.host.as_str(), "*") || str_eq(self.host.as_str(), host);
        let port_ok = match self.port {
            Some(p) => p == port,
            None => true,
        };
        host_ok && port_ok
    }
}

/// `RekeyLimit` thresholds.
#[derive(Clone, Copy, Debug, PartialEq, Eq, Structural)]
pub struct RekeyLimit {
    /// How many bytes; `None` for the default.
    pub max_bytes: Option<u64>,
    /// How many seconds; `None` for no limit in time.
    pub max_seconds: Option<u32>,
}

/// The views of an optional list.
pub open spec fn opt_list<T: View>(o: Option<Vec<T>>) -> Option<Seq<T::V>> {
    match o {
        Some(v) => Some(views(v@)),
        None => None,
    }
}

/// One block of options. What is `None` or empty was not set.
#[derive(Clone, Debug, PartialEq, Eq)]
pub struct ServerOptions {
    /// `Port`.
    pub port: Option<u16>,
    /// `ListenAddress` entries, cumulative: each a `host[:port]` literal.
    pub listen_addresses: Vec<String>,
    /// `HostKey` entries, cumulative.
    pub host_key_files: Vec<String>,
    /// `AuthorizedKeysFile`.
    pub authorized_keys_file: Option<String>,
    /// `AllowUsers`, cumulative.
    pub allow_users: Vec<String>,
    /// `LoginGraceTime` in seconds; `0` disables.
    pub login_grace_time: Option<u32>,
    /// `MaxStartups`, the first number alone: the triple `start:rate:full` is
    /// rejected as a bad value.
    pub max_startups: Option<u32>,
    /// `AllowAgentForwarding`.
    pub allow_agent_forwarding: Option<bool>,
    /// `X11Forwarding`.
    pub x11_forwarding: Option<bool>,
    /// `AcceptEnv` patterns, cumulative.
    pub accept_env: Vec<String>,
    /// `StrictModes`.
    pub strict_modes: Option<bool>,
    /// `LogLevel`, from 0 (`QUIET` to `INFO`) to 3 (`DEBUG3`).
    pub log_level: Option<u8>,
    /// `SftpEnabled`.
    pub sftp_enabled: Option<bool>,
    /// `SftpReadOnly`.
    pub sftp_read_only: Option<bool>,
    /// `SftpRoot`: the directory that SFTP sessions see as root.
    pub sftp_root: Option<String>,
    /// `ScpEnabled`.
    pub scp_enabled: Option<bool>,
    /// `PermitRootLogin`.
    pub permit_root_login: Option<PermitRootLogin>,
    /// `Ciphers`, resolved to a preference list.
    pub ciphers: Option<Vec<String>>,
    /// `MACs`, resolved to a preference list.
    pub macs: Option<Vec<String>>,
    /// `KexAlgorithms`, resolved to a preference list without markers.
    pub kex_algorithms: Option<Vec<String>>,
    /// `HostKeyAlgorithms`, resolved to a preference list.
    pub host_key_algorithms: Option<Vec<String>>,
    /// `PubkeyAuthentication`.
    pub pubkey_authentication: Option<bool>,
    /// `PasswordAuthentication`: only `no` can be set.
    pub password_authentication: Option<bool>,
    /// `KbdInteractiveAuthentication`: only `no` can be set.
    pub kbd_interactive_authentication: Option<bool>,
    /// `AuthenticationMethods`: only `publickey` and `any` can be set.
    pub authentication_methods: Option<Vec<String>>,
    /// `MaxAuthTries`.
    pub max_auth_tries: Option<u32>,
    /// `DenyUsers` patterns, cumulative.
    pub deny_users: Vec<String>,
    /// `AllowGroups` patterns, cumulative.
    pub allow_groups: Vec<String>,
    /// `DenyGroups` patterns, cumulative.
    pub deny_groups: Vec<String>,
    /// `Banner`: the path of a file, where it is not `none`.
    pub banner: Option<String>,
    /// `MaxSessions`: how many sessions a connection may have.
    pub max_sessions: Option<u32>,
    /// `AllowTcpForwarding`.
    pub allow_tcp_forwarding: Option<TcpForwarding>,
    /// `PermitOpen`: what local forwarding may reach; empty for `none`.
    pub permit_open: Option<Vec<HostPort>>,
    /// `PermitListen`: what remote forwarding may bind; empty for `none`.
    pub permit_listen: Option<Vec<HostPort>>,
    /// `GatewayPorts`.
    pub gateway_ports: Option<GatewayPorts>,
    /// `ForceCommand`.
    pub force_command: Option<String>,
    /// `ChrootDirectory`, where it is not `none`.
    pub chroot_directory: Option<String>,
    /// `ClientAliveInterval` in seconds.
    pub client_alive_interval: Option<u32>,
    /// `ClientAliveCountMax`.
    pub client_alive_count_max: Option<u32>,
    /// `PrintMotd`.
    pub print_motd: Option<bool>,
    /// `Compression`.
    pub compression: Option<Compression>,
    /// `RekeyLimit`.
    pub rekey_limit: Option<RekeyLimit>,
    /// `AddressFamily`.
    pub address_family: Option<AddressFamily>,
    /// `PidFile`, where it is not `none`.
    pub pid_file: Option<String>,
    /// Whether a `PidFile` line was seen.
    pub pid_file_set: bool,
    /// `Subsystem sftp internal-sftp`.
    pub subsystem_sftp: Option<bool>,
}

/// What [`ServerOptions`] say.
#[verifier::ext_equal]
pub ghost struct ServerOptionsView {
    pub port: Option<u16>,
    pub listen_addresses: Seq<Seq<char>>,
    pub host_key_files: Seq<Seq<char>>,
    pub authorized_keys_file: Option<Seq<char>>,
    pub allow_users: Seq<Seq<char>>,
    pub login_grace_time: Option<u32>,
    pub max_startups: Option<u32>,
    pub allow_agent_forwarding: Option<bool>,
    pub x11_forwarding: Option<bool>,
    pub accept_env: Seq<Seq<char>>,
    pub strict_modes: Option<bool>,
    pub log_level: Option<u8>,
    pub sftp_enabled: Option<bool>,
    pub sftp_read_only: Option<bool>,
    pub sftp_root: Option<Seq<char>>,
    pub scp_enabled: Option<bool>,
    pub permit_root_login: Option<PermitRootLogin>,
    pub ciphers: Option<Seq<Seq<char>>>,
    pub macs: Option<Seq<Seq<char>>>,
    pub kex_algorithms: Option<Seq<Seq<char>>>,
    pub host_key_algorithms: Option<Seq<Seq<char>>>,
    pub pubkey_authentication: Option<bool>,
    pub password_authentication: Option<bool>,
    pub kbd_interactive_authentication: Option<bool>,
    pub authentication_methods: Option<Seq<Seq<char>>>,
    pub max_auth_tries: Option<u32>,
    pub deny_users: Seq<Seq<char>>,
    pub allow_groups: Seq<Seq<char>>,
    pub deny_groups: Seq<Seq<char>>,
    pub banner: Option<Seq<char>>,
    pub max_sessions: Option<u32>,
    pub allow_tcp_forwarding: Option<TcpForwarding>,
    pub permit_open: Option<Seq<HostPortView>>,
    pub permit_listen: Option<Seq<HostPortView>>,
    pub gateway_ports: Option<GatewayPorts>,
    pub force_command: Option<Seq<char>>,
    pub chroot_directory: Option<Seq<char>>,
    pub client_alive_interval: Option<u32>,
    pub client_alive_count_max: Option<u32>,
    pub print_motd: Option<bool>,
    pub compression: Option<Compression>,
    pub rekey_limit: Option<RekeyLimit>,
    pub address_family: Option<AddressFamily>,
    pub pid_file: Option<Seq<char>>,
    pub pid_file_set: bool,
    pub subsystem_sftp: Option<bool>,
}

impl View for ServerOptions {
    type V = ServerOptionsView;

    open spec fn view(&self) -> ServerOptionsView {
        ServerOptionsView {
            port: self.port,
            listen_addresses: views(self.listen_addresses@),
            host_key_files: views(self.host_key_files@),
            authorized_keys_file: opt_view(self.authorized_keys_file),
            allow_users: views(self.allow_users@),
            login_grace_time: self.login_grace_time,
            max_startups: self.max_startups,
            allow_agent_forwarding: self.allow_agent_forwarding,
            x11_forwarding: self.x11_forwarding,
            accept_env: views(self.accept_env@),
            strict_modes: self.strict_modes,
            log_level: self.log_level,
            sftp_enabled: self.sftp_enabled,
            sftp_read_only: self.sftp_read_only,
            sftp_root: opt_view(self.sftp_root),
            scp_enabled: self.scp_enabled,
            permit_root_login: self.permit_root_login,
            ciphers: opt_list(self.ciphers),
            macs: opt_list(self.macs),
            kex_algorithms: opt_list(self.kex_algorithms),
            host_key_algorithms: opt_list(self.host_key_algorithms),
            pubkey_authentication: self.pubkey_authentication,
            password_authentication: self.password_authentication,
            kbd_interactive_authentication: self.kbd_interactive_authentication,
            authentication_methods: opt_list(self.authentication_methods),
            max_auth_tries: self.max_auth_tries,
            deny_users: views(self.deny_users@),
            allow_groups: views(self.allow_groups@),
            deny_groups: views(self.deny_groups@),
            banner: opt_view(self.banner),
            max_sessions: self.max_sessions,
            allow_tcp_forwarding: self.allow_tcp_forwarding,
            permit_open: opt_list(self.permit_open),
            permit_listen: opt_list(self.permit_listen),
            gateway_ports: self.gateway_ports,
            force_command: opt_view(self.force_command),
            chroot_directory: opt_view(self.chroot_directory),
            client_alive_interval: self.client_alive_interval,
            client_alive_count_max: self.client_alive_count_max,
            print_motd: self.print_motd,
            compression: self.compression,
            rekey_limit: self.rekey_limit,
            address_family: self.address_family,
            pid_file: opt_view(self.pid_file),
            pid_file_set: self.pid_file_set,
            subsystem_sftp: self.subsystem_sftp,
        }
    }
}

impl ServerOptionsView {
    /// Nothing set.
    pub open spec fn unset() -> ServerOptionsView {
        ServerOptionsView {
            port: None,
            listen_addresses: Seq::empty(),
            host_key_files: Seq::empty(),
            authorized_keys_file: None,
            allow_users: Seq::empty(),
            login_grace_time: None,
            max_startups: None,
            allow_agent_forwarding: None,
            x11_forwarding: None,
            accept_env: Seq::empty(),
            strict_modes: None,
            log_level: None,
            sftp_enabled: None,
            sftp_read_only: None,
            sftp_root: None,
            scp_enabled: None,
            permit_root_login: None,
            ciphers: None,
            macs: None,
            kex_algorithms: None,
            host_key_algorithms: None,
            pubkey_authentication: None,
            password_authentication: None,
            kbd_interactive_authentication: None,
            authentication_methods: None,
            max_auth_tries: None,
            deny_users: Seq::empty(),
            allow_groups: Seq::empty(),
            deny_groups: Seq::empty(),
            banner: None,
            max_sessions: None,
            allow_tcp_forwarding: None,
            permit_open: None,
            permit_listen: None,
            gateway_ports: None,
            force_command: None,
            chroot_directory: None,
            client_alive_interval: None,
            client_alive_count_max: None,
            print_motd: None,
            compression: None,
            rekey_limit: None,
            address_family: None,
            pid_file: None,
            pid_file_set: false,
            subsystem_sftp: None,
        }
    }

    /// These options with another block taken in: the first value of a scalar
    /// wins, and lists concatenate.
    pub open spec fn with(self, other: ServerOptionsView) -> ServerOptionsView {
        ServerOptionsView {
            port: first_set(self.port, other.port),
            listen_addresses: self.listen_addresses + other.listen_addresses,
            host_key_files: self.host_key_files + other.host_key_files,
            authorized_keys_file: first_set(self.authorized_keys_file, other.authorized_keys_file),
            allow_users: self.allow_users + other.allow_users,
            login_grace_time: first_set(self.login_grace_time, other.login_grace_time),
            max_startups: first_set(self.max_startups, other.max_startups),
            allow_agent_forwarding: first_set(
                self.allow_agent_forwarding,
                other.allow_agent_forwarding,
            ),
            x11_forwarding: first_set(self.x11_forwarding, other.x11_forwarding),
            accept_env: self.accept_env + other.accept_env,
            strict_modes: first_set(self.strict_modes, other.strict_modes),
            log_level: first_set(self.log_level, other.log_level),
            sftp_enabled: first_set(self.sftp_enabled, other.sftp_enabled),
            sftp_read_only: first_set(self.sftp_read_only, other.sftp_read_only),
            sftp_root: first_set(self.sftp_root, other.sftp_root),
            scp_enabled: first_set(self.scp_enabled, other.scp_enabled),
            permit_root_login: first_set(self.permit_root_login, other.permit_root_login),
            ciphers: first_set(self.ciphers, other.ciphers),
            macs: first_set(self.macs, other.macs),
            kex_algorithms: first_set(self.kex_algorithms, other.kex_algorithms),
            host_key_algorithms: first_set(self.host_key_algorithms, other.host_key_algorithms),
            pubkey_authentication: first_set(
                self.pubkey_authentication,
                other.pubkey_authentication,
            ),
            password_authentication: first_set(
                self.password_authentication,
                other.password_authentication,
            ),
            kbd_interactive_authentication: first_set(
                self.kbd_interactive_authentication,
                other.kbd_interactive_authentication,
            ),
            authentication_methods: first_set(
                self.authentication_methods,
                other.authentication_methods,
            ),
            max_auth_tries: first_set(self.max_auth_tries, other.max_auth_tries),
            deny_users: self.deny_users + other.deny_users,
            allow_groups: self.allow_groups + other.allow_groups,
            deny_groups: self.deny_groups + other.deny_groups,
            banner: first_set(self.banner, other.banner),
            max_sessions: first_set(self.max_sessions, other.max_sessions),
            allow_tcp_forwarding: first_set(self.allow_tcp_forwarding, other.allow_tcp_forwarding),
            permit_open: first_set(self.permit_open, other.permit_open),
            permit_listen: first_set(self.permit_listen, other.permit_listen),
            gateway_ports: first_set(self.gateway_ports, other.gateway_ports),
            force_command: first_set(self.force_command, other.force_command),
            chroot_directory: first_set(self.chroot_directory, other.chroot_directory),
            client_alive_interval: first_set(
                self.client_alive_interval,
                other.client_alive_interval,
            ),
            client_alive_count_max: first_set(
                self.client_alive_count_max,
                other.client_alive_count_max,
            ),
            print_motd: first_set(self.print_motd, other.print_motd),
            compression: first_set(self.compression, other.compression),
            rekey_limit: first_set(self.rekey_limit, other.rekey_limit),
            address_family: first_set(self.address_family, other.address_family),
            pid_file: if !self.pid_file_set && other.pid_file_set {
                other.pid_file
            } else {
                self.pid_file
            },
            pid_file_set: self.pid_file_set || other.pid_file_set,
            subsystem_sftp: first_set(self.subsystem_sftp, other.subsystem_sftp),
        }
    }
}

impl Default for ServerOptions {
    fn default() -> (r: Self)
        ensures
            r@ == ServerOptionsView::unset(),
    {
        let r = ServerOptions {
            port: None,
            listen_addresses: Vec::new(),
            host_key_files: Vec::new(),
            authorized_keys_file: None,
            allow_users: Vec::new(),
            login_grace_time: None,
            max_startups: None,
            allow_agent_forwarding: None,
            x11_forwarding: None,
            accept_env: Vec::new(),
            strict_modes: None,
            log_level: None,
            sftp_enabled: None,
            sftp_read_only: None,
            sftp_root: None,
            scp_enabled: None,
            permit_root_login: None,
            ciphers: None,
            macs: None,
            kex_algorithms: None,
            host_key_algorithms: None,
            pubkey_authentication: None,
            password_authentication: None,
            kbd_interactive_authentication: None,
            authentication_methods: None,
            max_auth_tries: None,
            deny_users: Vec::new(),
            allow_groups: Vec::new(),
            deny_groups: Vec::new(),
            banner: None,
            max_sessions: None,
            allow_tcp_forwarding: None,
            permit_open: None,
            permit_listen: None,
            gateway_ports: None,
            force_command: None,
            chroot_directory: None,
            client_alive_interval: None,
            client_alive_count_max: None,
            print_motd: None,
            compression: None,
            rekey_limit: None,
            address_family: None,
            pid_file: None,
            pid_file_set: false,
            subsystem_sftp: None,
        };
        assert(r@ =~~= ServerOptionsView::unset());
        r
    }
}

impl ServerOptions {
    /// A copy of these options.
    fn duplicate(&self) -> (r: ServerOptions)
        ensures
            r@ == self@,
    {
        ServerOptions {
            port: self.port,
            listen_addresses: clone_strings(self.listen_addresses.as_slice()),
            host_key_files: clone_strings(self.host_key_files.as_slice()),
            authorized_keys_file: self.authorized_keys_file.clone(),
            allow_users: clone_strings(self.allow_users.as_slice()),
            login_grace_time: self.login_grace_time,
            max_startups: self.max_startups,
            allow_agent_forwarding: self.allow_agent_forwarding,
            x11_forwarding: self.x11_forwarding,
            accept_env: clone_strings(self.accept_env.as_slice()),
            strict_modes: self.strict_modes,
            log_level: self.log_level,
            sftp_enabled: self.sftp_enabled,
            sftp_read_only: self.sftp_read_only,
            sftp_root: self.sftp_root.clone(),
            scp_enabled: self.scp_enabled,
            permit_root_login: self.permit_root_login,
            ciphers: clone_list(&self.ciphers),
            macs: clone_list(&self.macs),
            kex_algorithms: clone_list(&self.kex_algorithms),
            host_key_algorithms: clone_list(&self.host_key_algorithms),
            pubkey_authentication: self.pubkey_authentication,
            password_authentication: self.password_authentication,
            kbd_interactive_authentication: self.kbd_interactive_authentication,
            authentication_methods: clone_list(&self.authentication_methods),
            max_auth_tries: self.max_auth_tries,
            deny_users: clone_strings(self.deny_users.as_slice()),
            allow_groups: clone_strings(self.allow_groups.as_slice()),
            deny_groups: clone_strings(self.deny_groups.as_slice()),
            banner: self.banner.clone(),
            max_sessions: self.max_sessions,
            allow_tcp_forwarding: self.allow_tcp_forwarding,
            permit_open: clone_host_ports(&self.permit_open),
            permit_listen: clone_host_ports(&self.permit_listen),
            gateway_ports: self.gateway_ports,
            force_command: self.force_command.clone(),
            chroot_directory: self.chroot_directory.clone(),
            client_alive_interval: self.client_alive_interval,
            client_alive_count_max: self.client_alive_count_max,
            print_motd: self.print_motd,
            compression: self.compression,
            rekey_limit: self.rekey_limit,
            address_family: self.address_family,
            pid_file: self.pid_file.clone(),
            pid_file_set: self.pid_file_set,
            subsystem_sftp: self.subsystem_sftp,
        }
    }
}

/// A directive that is understood but cannot be honoured.
pub open spec fn refusal(line: ParsedLineView, msg: Seq<char>) -> ConfigErrorView {
    ConfigErrorView::Unsupported { line: line.line_no, msg }
}

/// The words on a line, at least one.
pub open spec fn word_list(line: ParsedLineView, missing: Seq<char>) -> Result<
    Seq<Seq<char>>,
    ConfigErrorView,
> {
    if line.args.len() == 0 {
        Err(line_error(line, missing))
    } else {
        Ok(line.args)
    }
}

/// Whether a user pattern has an empty half, or more than one `@`.
pub open spec fn malformed_user(token: Seq<char>) -> bool {
    match first_index(token, '@') {
        None => false,
        Some(i) => i == 0 || token.skip(i + 1).len() == 0 || token.skip(i + 1).contains('@'),
    }
}

/// The first malformed user pattern.
pub open spec fn first_malformed(tokens: Seq<Seq<char>>) -> Option<Seq<char>>
    decreases tokens.len(),
{
    if tokens.len() == 0 {
        None
    } else if malformed_user(tokens[0]) {
        Some(tokens[0])
    } else {
        first_malformed(tokens.skip(1))
    }
}

/// The user patterns on a line, at least one, each a user or `user@host`.
pub open spec fn user_list(line: ParsedLineView, missing: Seq<char>) -> Result<
    Seq<Seq<char>>,
    ConfigErrorView,
> {
    match word_list(line, missing) {
        Err(e) => Err(e),
        Ok(ws) => match first_malformed(ws) {
            None => Ok(ws),
            Some(t) => Err(unexpected(line, "malformed user@host pattern "@, t)),
        },
    }
}

/// The one number of `MaxStartups`.
pub open spec fn max_startups_value(line: ParsedLineView) -> Result<u32, ConfigErrorView> {
    match one_value(line) {
        Err(e) => Err(e),
        Ok(s) => if s.contains(':') {
            Err(line_error(line, "MaxStartups start:rate:full triple not yet supported"@))
        } else {
            integer_value(line)
        },
    }
}

/// The value of `PermitRootLogin`.
pub open spec fn root_login_value(line: ParsedLineView) -> Result<
    PermitRootLogin,
    ConfigErrorView,
> {
    match lower_value(line) {
        Err(e) => Err(e),
        Ok(s) => if s == "yes"@ || s == "true"@ || s == "on"@ {
            Ok(PermitRootLogin::Yes)
        } else if s == "no"@ || s == "false"@ || s == "off"@ {
            Ok(PermitRootLogin::No)
        } else if s == "prohibit-password"@ || s == "without-password"@ {
            Ok(PermitRootLogin::ProhibitPassword)
        } else if s == "forced-commands-only"@ {
            Err(
                refusal(
                    line,
                    "PermitRootLogin forced-commands-only is not supported (puressh authorized_keys has no command= restriction); use yes, no, or prohibit-password"@,
                ),
            )
        } else {
            Err(unexpected(line, "expected yes/no/prohibit-password, got "@, s))
        },
    }
}

/// Whether an alternative of `AuthenticationMethods` can be honoured.
pub open spec fn method_supported(alt: Seq<char>) -> bool {
    alt == "any"@ || pieces(alt, ',', false) == seq!["publickey"@]
}

/// The first alternative that cannot be honoured.
pub open spec fn first_unsupported(alts: Seq<Seq<char>>) -> Option<Seq<char>>
    decreases alts.len(),
{
    if alts.len() == 0 {
        None
    } else if method_supported(alts[0]) {
        first_unsupported(alts.skip(1))
    } else {
        Some(alts[0])
    }
}

/// The alternatives of `AuthenticationMethods`.
pub open spec fn methods_value(line: ParsedLineView) -> Result<Seq<Seq<char>>, ConfigErrorView> {
    match word_list(line, "expected at least one method list"@) {
        Err(e) => Err(e),
        Ok(alts) => match first_unsupported(alts) {
            None => Ok(alts),
            Some(alt) => Err(
                refusal(
                    line,
                    "AuthenticationMethods "@ + debug_quoted(alt)
                        + ": only `publickey` (or `any`) is supported — multi-factor chains and non-publickey methods are not"@,
                ),
            ),
        },
    }
}

/// A path, or nothing where the word is `none`.
pub open spec fn unless_none(s: Seq<char>) -> Option<Seq<char>> {
    if lower_text(s) == "none"@ {
        None
    } else {
        Some(s)
    }
}

/// The value of `AllowTcpForwarding`.
pub open spec fn tcp_forwarding_value(line: ParsedLineView) -> Result<
    TcpForwarding,
    ConfigErrorView,
> {
    match lower_value(line) {
        Err(e) => Err(e),
        Ok(s) => if s == "yes"@ || s == "all"@ {
            Ok(TcpForwarding::All)
        } else if s == "no"@ {
            Ok(TcpForwarding::No)
        } else if s == "local"@ {
            Ok(TcpForwarding::Local)
        } else if s == "remote"@ {
            Ok(TcpForwarding::Remote)
        } else {
            Err(unexpected(line, "expected yes/no/all/local/remote, got "@, s))
        },
    }
}

/// The value of `GatewayPorts`.
pub open spec fn gateway_ports_value(line: ParsedLineView) -> Result<
    GatewayPorts,
    ConfigErrorView,
> {
    match lower_value(line) {
        Err(e) => Err(e),
        Ok(s) => if s == "no"@ {
            Ok(GatewayPorts::No)
        } else if s == "yes"@ {
            Ok(GatewayPorts::Yes)
        } else if s == "clientspecified"@ {
            Ok(GatewayPorts::ClientSpecified)
        } else {
            Err(unexpected(line, "expected no/yes/clientspecified, got "@, s))
        },
    }
}

/// The value of `Compression`.
pub open spec fn compression_value(line: ParsedLineView) -> Result<Compression, ConfigErrorView> {
    match lower_value(line) {
        Err(e) => Err(e),
        Ok(s) => if s == "no"@ || s == "false"@ || s == "off"@ {
            Ok(Compression::No)
        } else if s == "yes"@ || s == "true"@ || s == "on"@ {
            Ok(Compression::Yes)
        } else if s == "delayed"@ {
            Ok(Compression::Delayed)
        } else {
            Err(unexpected(line, "expected no/yes/delayed, got "@, s))
        },
    }
}

/// The value of `AddressFamily`.
pub open spec fn address_family_value(line: ParsedLineView) -> Result<
    AddressFamily,
    ConfigErrorView,
> {
    match lower_value(line) {
        Err(e) => Err(e),
        Ok(s) => if s == "any"@ {
            Ok(AddressFamily::Any)
        } else if s == "inet"@ {
            Ok(AddressFamily::Inet)
        } else if s == "inet6"@ {
            Ok(AddressFamily::Inet6)
        } else {
            Err(unexpected(line, "expected any/inet/inet6, got "@, s))
        },
    }
}

/// The host and the port's text of an entry, if it has both.
pub open spec fn entry_halves(s: Seq<char>) -> Option<(Seq<char>, Seq<char>)> {
    if s.len() > 0 && s[0] == '[' {
        let rest = s.skip(1);
        match first_index(rest, ']') {
            Some(i) => if rest.skip(i + 1).len() > 0 && rest[i + 1] == ':' {
                Some((rest.take(i), rest.skip(i + 2)))
            } else {
                None
            },
            None => None,
        }
    } else {
        match last_index(s, ':') {
            Some(i) => if s.take(i).contains(':') {
                None
            } else {
                Some((s.take(i), s.skip(i + 1)))
            },
            None => None,
        }
    }
}

/// The entry that `host:port`, `host:*`, `*:port` or `[v6]:port` stands for.
pub open spec fn entry(s: Seq<char>) -> Option<HostPortView> {
    match entry_halves(s) {
        None => None,
        Some((host, port)) => if host.len() == 0 {
            None
        } else if port == "*"@ {
            Some(HostPortView { host, port: None })
        } else {
            match parse_unsigned(port, 65535) {
                Some(v) => Some(HostPortView { host, port: Some(v as u16) }),
                None => None,
            }
        },
    }
}

/// The entries that texts stand for, or the complaint about the first that is
/// malformed.
pub open spec fn entries(texts: Seq<Seq<char>>, line: ParsedLineView) -> Result<
    Seq<HostPortView>,
    ConfigErrorView,
>
    decreases texts.len(),
{
    if texts.len() == 0 {
        Ok(Seq::empty())
    } else {
        match entries(texts.drop_last(), line) {
            Err(e) => Err(e),
            Ok(front) => match entry(texts.last()) {
                Some(x) => Ok(front.push(x)),
                None => Err(unexpected(line, "malformed host:port entry "@, texts.last())),
            },
        }
    }
}

/// The entries of `PermitOpen` or `PermitListen`: one that permits everything
/// for `any`, and none for `none`.
pub open spec fn host_port_list(line: ParsedLineView) -> Result<
    Seq<HostPortView>,
    ConfigErrorView,
> {
    if line.args.len() == 0 {
        Err(line_error(line, "expected at least one host:port (or any/none)"@))
    } else if line.args.len() == 1 && lower_text(line.args[0]) == "any"@ {
        Ok(seq![HostPortView { host: "*"@, port: None }])
    } else if line.args.len() == 1 && lower_text(line.args[0]) == "none"@ {
        Ok(Seq::empty())
    } else {
        entries(line.args, line)
    }
}

/// The bytes of a `RekeyLimit`.
pub open spec fn rekey_bytes(word: Seq<char>, line: ParsedLineView) -> Result<
    Option<u64>,
    ConfigErrorView,
> {
    let s = lower_text(word);
    if s == "default"@ || s == "none"@ {
        Ok(None)
    } else {
        match size_bytes(s) {
            Some(n) => Ok(Some(n)),
            None => Err(unexpected(line, "bad size value "@, s)),
        }
    }
}

/// The seconds of a `RekeyLimit`.
pub open spec fn rekey_seconds(line: ParsedLineView) -> Result<Option<u32>, ConfigErrorView> {
    if line.args.len() < 2 || lower_text(line.args[1]) == "none"@ {
        Ok(None)
    } else {
        match duration(line.args[1], line) {
            Ok(n) => Ok(Some(n)),
            Err(e) => Err(e),
        }
    }
}

/// The value of `RekeyLimit`.
pub open spec fn rekey_limit_value(line: ParsedLineView) -> Result<RekeyLimit, ConfigErrorView> {
    if line.args.len() == 0 || line.args.len() > 2 {
        Err(line_error(line, "expected `<bytes>[ <time>]`"@))
    } else {
        match rekey_bytes(line.args[0], line) {
            Err(e) => Err(e),
            Ok(max_bytes) => match rekey_seconds(line) {
                Err(e) => Err(e),
                Ok(max_seconds) => Ok(RekeyLimit { max_bytes, max_seconds }),
            },
        }
    }
}

/// Whether a `Subsystem` line is `sftp internal-sftp`, the only one that can be
/// honoured.
pub open spec fn subsystem_value(line: ParsedLineView) -> Result<(), ConfigErrorView> {
    if line.args.len() < 2 {
        Err(line_error(line, "expected `Subsystem <name> <command>`"@))
    } else if lower_text(line.args[0]) == "sftp"@ && lower_text(line.args[1]) == "internal-sftp"@ {
        Ok(())
    } else {
        Err(
            refusal(
                line,
                "Subsystem "@ + debug_quoted(lower_text(line.args[0]))
                    + ": only `sftp internal-sftp` is supported (external-command subsystems are not)"@,
            ),
        )
    }
}

/// The options after a directive on the server's start, if it is one.
#[verifier::opaque]
pub open spec fn with_startup_directive(o: ServerOptionsView, line: ParsedLineView) -> Option<
    Result<ServerOptionsView, ConfigErrorView>,
> {
    let kw = line.keyword;
    if kw == "port"@ {
        Some(
        match port_value(line) {
            Err(e) => Err(e),
            Ok(v) => Ok(ServerOptionsView { port: Some(v), ..o }),
        },
        )
    } else if kw == "listenaddress"@ {
        Some(
        match one_value(line) {
            Err(e) => Err(e),
            Ok(s) => Ok(ServerOptionsView { listen_addresses: o.listen_addresses.push(s), ..o }),
        },
        )
    } else if kw == "hostkey"@ {
        Some(
        match one_value(line) {
            Err(e) => Err(e),
            Ok(s) => Ok(ServerOptionsView { host_key_files: o.host_key_files.push(s), ..o }),
        },
        )
    } else if kw == "addressfamily"@ {
        Some(
        match address_family_value(line) {
            Err(e) => Err(e),
            Ok(v) => Ok(ServerOptionsView { address_family: Some(v), ..o }),
        },
        )
    } else if kw == "pidfile"@ {
        Some(
        match one_value(line) {
            Err(e) => Err(e),
            Ok(s) => Ok(ServerOptionsView { pid_file: unless_none(s), pid_file_set: true, ..o }),
        },
        )
    } else if kw == "loglevel"@ {
        Some(
        match log_level_value(line) {
            Err(e) => Err(e),
            Ok(v) => Ok(ServerOptionsView { log_level: Some(v), ..o }),
        },
        )
    } else if kw == "compression"@ {
        Some(
        match compression_value(line) {
            Err(e) => Err(e),
            Ok(v) => Ok(ServerOptionsView { compression: Some(v), ..o }),
        },
        )
    } else if kw == "rekeylimit"@ {
        Some(
        match rekey_limit_value(line) {
            Err(e) => Err(e),
            Ok(v) => Ok(ServerOptionsView { rekey_limit: Some(v), ..o }),
        },
        )
    } else if kw == "logingracetime"@ {
        Some(
        match duration_value(line) {
            Err(e) => Err(e),
            Ok(v) => Ok(ServerOptionsView { login_grace_time: Some(v), ..o }),
        },
        )
    } else if kw == "maxstartups"@ {
        Some(
        match max_startups_value(line) {
            Err(e) => Err(e),
            Ok(v) => Ok(ServerOptionsView { max_startups: Some(v), ..o }),
        },
        )
    } else if kw == "strictmodes"@ {
        Some(
        match switch_value(line) {
            Err(e) => Err(e),
            Ok(v) => Ok(ServerOptionsView { strict_modes: Some(v), ..o }),
        },
        )
    } else if kw == "subsystem"@ {
        Some(
        match subsystem_value(line) {
            Err(e) => Err(e),
            Ok(_u) => Ok(ServerOptionsView { subsystem_sftp: Some(true), ..o }),
        },
        )
    } else if kw == "permittunnel"@ {
        Some(
        Err(refusal(line, "PermitTunnel: tun/tap device forwarding is not supported"@)),
        )
    } else {
        None
    }
}

/// The options after a directive on who may log in, and how, if it is one.
#[verifier::opaque]
pub open spec fn with_login_directive(o: ServerOptionsView, line: ParsedLineView) -> Option<
    Result<ServerOptionsView, ConfigErrorView>,
> {
    let kw = line.keyword;
    if kw == "authorizedkeysfile"@ {
        Some(
        match one_value(line) {
            Err(e) => Err(e),
            Ok(s) => Ok(ServerOptionsView { authorized_keys_file: Some(s), ..o }),
        },
        )
    } else if kw == "allowusers"@ {
        Some(
        match user_list(line, "expected at least one user name"@) {
            Err(e) => Err(e),
            Ok(ws) => Ok(ServerOptionsView { allow_users: o.allow_users + ws, ..o }),
        },
        )
    } else if kw == "denyusers"@ {
        Some(
        match user_list(line, "expected at least one user pattern"@) {
            Err(e) => Err(e),
            Ok(ws) => Ok(ServerOptionsView { deny_users: o.deny_users + ws, ..o }),
        },
        )
    } else if kw == "allowgroups"@ {
        Some(
        match word_list(line, "expected at least one group pattern"@) {
            Err(e) => Err(e),
            Ok(ws) => Ok(ServerOptionsView { allow_groups: o.allow_groups + ws, ..o }),
        },
        )
    } else if kw == "denygroups"@ {
        Some(
        match word_list(line, "expected at least one group pattern"@) {
            Err(e) => Err(e),
            Ok(ws) => Ok(ServerOptionsView { deny_groups: o.deny_groups + ws, ..o }),
        },
        )
    } else if kw == "permitrootlogin"@ {
        Some(
        match root_login_value(line) {
            Err(e) => Err(e),
            Ok(v) => Ok(ServerOptionsView { permit_root_login: Some(v), ..o }),
        },
        )
    } else if kw == "pubkeyauthentication"@ {
        Some(
        match switch_value(line) {
            Err(e) => Err(e),
            Ok(v) => Ok(ServerOptionsView { pubkey_authentication: Some(v), ..o }),
        },
        )
    } else if kw == "passwordauthentication"@ {
        Some(
        match switch_value(line) {
            Err(e) => Err(e),
            Ok(on) => if on {
                Err(refusal(line, "PasswordAuthentication yes: password authentication is not implemented"@))
            } else {
                Ok(ServerOptionsView { password_authentication: Some(false), ..o })
            },
        },
        )
    } else if kw == "kbdinteractiveauthentication"@ || kw == "challengeresponseauthentication"@ {
        Some(
        match switch_value(line) {
            Err(e) => Err(e),
            Ok(on) => if on {
                Err(refusal(line, "KbdInteractiveAuthentication yes: keyboard-interactive authentication is not implemented"@))
            } else {
                Ok(ServerOptionsView { kbd_interactive_authentication: Some(false), ..o })
            },
        },
        )
    } else if kw == "authenticationmethods"@ {
        Some(
        match methods_value(line) {
            Err(e) => Err(e),
            Ok(ws) => Ok(ServerOptionsView { authentication_methods: Some(ws), ..o }),
        },
        )
    } else if kw == "permitemptypasswords"@ {
        Some(
        match switch_value(line) {
            Err(e) => Err(e),
            Ok(on) => if on {
                Err(refusal(line, "PermitEmptyPasswords yes: password authentication is not implemented"@))
            } else {
                Ok(o)
            },
        },
        )
    } else if kw == "maxauthtries"@ {
        Some(
        match integer_value(line) {
            Err(e) => Err(e),
            Ok(v) => Ok(ServerOptionsView { max_auth_tries: Some(v), ..o }),
        },
        )
    } else if kw == "banner"@ {
        Some(
        match one_value(line) {
            Err(e) => Err(e),
            Ok(s) => Ok(ServerOptionsView { banner: unless_none(s), ..o }),
        },
        )
    } else {
        None
    }
}

/// The options after a directive on algorithms, if it is one.
#[verifier::opaque]
pub open spec fn with_algorithm_directive(o: ServerOptionsView, line: ParsedLineView) -> Option<
    Result<ServerOptionsView, ConfigErrorView>,
> {
    let kw = line.keyword;
    if kw == "ciphers"@ {
        Some(
        match resolution(AlgoCategory::Cipher, line.args, line.line_no, "Ciphers"@) {
            Err(e) => Err(e),
            Ok(names) => Ok(ServerOptionsView { ciphers: Some(names), ..o }),
        },
        )
    } else if kw == "macs"@ {
        Some(
        match resolution(AlgoCategory::Mac, line.args, line.line_no, "MACs"@) {
            Err(e) => Err(e),
            Ok(names) => Ok(ServerOptionsView { macs: Some(names), ..o }),
        },
        )
    } else if kw == "kexalgorithms"@ {
        Some(
        match resolution(AlgoCategory::Kex, line.args, line.line_no, "KexAlgorithms"@) {
            Err(e) => Err(e),
            Ok(names) => Ok(ServerOptionsView { kex_algorithms: Some(names), ..o }),
        },
        )
    } else if kw == "hostkeyalgorithms"@ {
        Some(
        match resolution(AlgoCategory::HostKey, line.args, line.line_no, "HostKeyAlgorithms"@) {
            Err(e) => Err(e),
            Ok(names) => Ok(ServerOptionsView { host_key_algorithms: Some(names), ..o }),
        },
        )
    } else if kw == "casignaturealgorithms"@ {
        Some(
        Err(refusal(line, "CASignatureAlgorithms: certificate authentication is not supported"@)),
        )
    } else {
        None
    }
}

/// The options after a directive on what a session may do, if it is one.
#[verifier::opaque]
pub open spec fn with_session_directive(o: ServerOptionsView, line: ParsedLineView) -> Option<
    Result<ServerOptionsView, ConfigErrorView>,
> {
    let kw = line.keyword;
    if kw == "allowagentforwarding"@ {
        Some(
        match switch_value(line) {
            Err(e) => Err(e),
            Ok(v) => Ok(ServerOptionsView { allow_agent_forwarding: Some(v), ..o }),
        },
        )
    } else if kw == "x11forwarding"@ {
        Some(
        match switch_value(line) {
            Err(e) => Err(e),
            Ok(v) => Ok(ServerOptionsView { x11_forwarding: Some(v), ..o }),
        },
        )
    } else if kw == "acceptenv"@ {
        Some(
        match word_list(line, "expected at least one env pattern"@) {
            Err(e) => Err(e),
            Ok(ws) => Ok(ServerOptionsView { accept_env: o.accept_env + ws, ..o }),
        },
        )
    } else if kw == "sftpenabled"@ {
        Some(
        match switch_value(line) {
            Err(e) => Err(e),
            Ok(v) => Ok(ServerOptionsView { sftp_enabled: Some(v), ..o }),
        },
        )
    } else if kw == "sftpreadonly"@ {
        Some(
        match switch_value(line) {
            Err(e) => Err(e),
            Ok(v) => Ok(ServerOptionsView { sftp_read_only: Some(v), ..o }),
        },
        )
    } else if kw == "sftproot"@ {
        Some(
        match one_value(line) {
            Err(e) => Err(e),
            Ok(s) => Ok(ServerOptionsView { sftp_root: Some(s), ..o }),
        },
        )
    } else if kw == "scpenabled"@ {
        Some(
        match switch_value(line) {
            Err(e) => Err(e),
            Ok(v) => Ok(ServerOptionsView { scp_enabled: Some(v), ..o }),
        },
        )
    } else if kw == "maxsessions"@ {
        Some(
        match integer_value(line) {
            Err(e) => Err(e),
            Ok(v) => Ok(ServerOptionsView { max_sessions: Some(v), ..o }),
        },
        )
    } else if kw == "allowtcpforwarding"@ {
        Some(
        match tcp_forwarding_value(line) {
            Err(e) => Err(e),
            Ok(v) => Ok(ServerOptionsView { allow_tcp_forwarding: Some(v), ..o }),
        },
        )
    } else if kw == "permitopen"@ {
        Some(
        match host_port_list(line) {
            Err(e) => Err(e),
            Ok(v) => Ok(ServerOptionsView { permit_open: Some(v), ..o }),
        },
        )
    } else if kw == "permitlisten"@ {
        Some(
        match host_port_list(line) {
            Err(e) => Err(e),
            Ok(v) => Ok(ServerOptionsView { permit_listen: Some(v), ..o }),
        },
        )
    } else if kw == "gatewayports"@ {
        Some(
        match gateway_ports_value(line) {
            Err(e) => Err(e),
            Ok(v) => Ok(ServerOptionsView { gateway_ports: Some(v), ..o }),
        },
        )
    } else if kw == "forcecommand"@ {
        Some(
        match word_list(line, "expected a command"@) {
            Err(e) => Err(e),
            Ok(ws) => Ok(ServerOptionsView { force_command: Some(join(ws, " "@)), ..o }),
        },
        )
    } else if kw == "chrootdirectory"@ {
        Some(
        match one_value(line) {
            Err(e) => Err(e),
            Ok(s) => Ok(ServerOptionsView { chroot_directory: unless_none(s), ..o }),
        },
        )
    } else if kw == "clientaliveinterval"@ {
        Some(
        match duration_value(line) {
            Err(e) => Err(e),
            Ok(v) => Ok(ServerOptionsView { client_alive_interval: Some(v), ..o }),
        },
        )
    } else if kw == "clientalivecountmax"@ {
        Some(
        match integer_value(line) {
            Err(e) => Err(e),
            Ok(v) => Ok(ServerOptionsView { client_alive_count_max: Some(v), ..o }),
        },
        )
    } else if kw == "printmotd"@ {
        Some(
        match switch_value(line) {
            Err(e) => Err(e),
            Ok(v) => Ok(ServerOptionsView { print_motd: Some(v), ..o }),
        },
        )
    } else {
        None
    }
}

/// The options after one directive.
pub open spec fn with_directive(o: ServerOptionsView, line: ParsedLineView) -> Result<
    ServerOptionsView,
    ConfigErrorView,
> {
    if with_startup_directive(o, line) is Some {
        with_startup_directive(o, line)->0
    } else if with_login_directive(o, line) is Some {
        with_login_directive(o, line)->0
    } else if with_algorithm_directive(o, line) is Some {
        with_algorithm_directive(o, line)->0
    } else if with_session_directive(o, line) is Some {
        with_session_directive(o, line)->0
    } else {
        Err(ConfigErrorView::UnknownKeyword { line: line.line_no, keyword: line.keyword })
    }
}

fn refuse(line: &ParsedLine, msg: &str) -> (e: ConfigError)
    ensures
        e@ == refusal(line@, msg@),
{
    unsupported(line.line_no, msg)
}

fn clone_list(o: &Option<Vec<String>>) -> (r: Option<Vec<String>>)
    ensures
        opt_list(r) == opt_list(*o),
{
    match o {
        Some(v) => Some(clone_strings(v.as_slice())),
        None => None,
    }
}

fn clone_host_ports(o: &Option<Vec<HostPort>>) -> (r: Option<Vec<HostPort>>)
    ensures
        opt_list(r) == opt_list(*o),
{
    match o {
        Some(v) => {
            let mut out: Vec<HostPort> = Vec::new();
            let mut i: usize = 0;
            while i < v.len()
                invariant
                    i <= v.len(),
                    out@.len() == i,
                    forall|k: int| 0 <= k < i ==> #[trigger] out@[k]@ == v@[k]@,
                decreases v.len() - i,
            {
                out.push(HostPort { host: v[i].host.clone(), port: v[i].port });
                i += 1;
            }
            assert(views(out@) =~= views(v@));
            Some(out)
        },
        None => None,
    }
}

fn check_words(line: &ParsedLine, missing: &str) -> (r: Result<(), ConfigError>)
    ensures
        match word_list(line@, missing@) {
            Ok(_) => r is Ok,
            Err(e) => r matches Err(x) && x@ == e,
        },
{
    if line.args.len() == 0 {
        return Err(complain(line, missing.to_owned()));
    }
    Ok(())
}

fn check_users(line: &ParsedLine, missing: &str) -> (r: Result<(), ConfigError>)
    ensures
        match user_list(line@, missing@) {
            Ok(_) => r is Ok,
            Err(e) => r matches Err(x) && x@ == e,
        },
{
    check_words(line, missing)?;
    let mut i: usize = 0;
    assert(line@.args.skip(0) =~= line@.args);
    while i < line.args.len()
        invariant
            i <= line.args.len(),
            line@.args.len() > 0,
            first_malformed(line@.args) == first_malformed(line@.args.skip(i as int)),
        decreases line.args.len() - i,
    {
        assert(line@.args.skip(i as int)[0] == line.args@[i as int]@);
        assert(line@.args.skip(i as int).skip(1) =~= line@.args.skip(i + 1));
        validate_user_at_host(line.args[i].as_str(), line)?;
        i += 1;
    }
    Ok(())
}

/// Refuse a user pattern with an empty half, or with more than one `@`.
fn validate_user_at_host(token: &str, line: &ParsedLine) -> (r: Result<(), ConfigError>)
    ensures
        if malformed_user(token@) {
            r matches Err(e) && e@ == unexpected(line@, "malformed user@host pattern "@, token@)
        } else {
            r is Ok
        },
{
    let cs = chars_of(token);
    let n: usize = cs.len();
    match find(cs.as_slice(), '@') {
        Some(i) => {
            let host = vstd::slice::slice_subrange(cs.as_slice(), i + 1, n);
            assert(host@ =~= token@.skip(i + 1));
            if i == 0 || host.len() == 0 || find(host, '@').is_some() {
                proof {
                    crate::text::lemma_first_index(host@, '@');
                }
                return Err(complain_of(line, "malformed user@host pattern ", token));
            }
            Ok(())
        },
        None => Ok(()),
    }
}

fn parse_max_startups(line: &ParsedLine) -> (r: Result<u32, ConfigError>)
    ensures
        match max_startups_value(line@) {
            Ok(p) => r matches Ok(v) && v == p,
            Err(e) => r matches Err(x) && x@ == e,
        },
{
    let s = one_arg(line)?;
    let cs = chars_of(s.as_str());
    proof {
        crate::text::lemma_first_index(cs@, ':');
    }
    if find(cs.as_slice(), ':').is_some() {
        return Err(
            complain(line, "MaxStartups start:rate:full triple not yet supported".to_owned()),
        );
    }
    parse_u32(line)
}

fn parse_permit_root_login(line: &ParsedLine) -> (r: Result<PermitRootLogin, ConfigError>)
    ensures
        match root_login_value(line@) {
            Ok(p) => r matches Ok(v) && v == p,
            Err(e) => r matches Err(x) && x@ == e,
        },
{
    let word = one_arg_lower(line)?;
    let s = word.as_str();
    if str_eq(s, "yes") || str_eq(s, "true") || str_eq(s, "on") {
        Ok(PermitRootLogin::Yes)
    } else if str_eq(s, "no") || str_eq(s, "false") || str_eq(s, "off") {
        Ok(PermitRootLogin::No)
    } else if str_eq(s, "prohibit-password") || str_eq(s, "without-password") {
        Ok(PermitRootLogin::ProhibitPassword)
    } else if str_eq(s, "forced-commands-only") {
        Err(
            refuse(
                line,
                "PermitRootLogin forced-commands-only is not supported (puressh authorized_keys has no command= restriction); use yes, no, or prohibit-password",
            ),
        )
    } else {
        Err(complain_of(line, "expected yes/no/prohibit-password, got ", s))
    }
}

fn supported_method(alt: &str) -> (r: bool)
    ensures
        r == method_supported(alt@),
{
    if str_eq(alt, "any") {
        return true;
    }
    let factors = split_pieces(chars_of(alt).as_slice(), ',', false);
    if factors.len() != 1 {
        assert(views(factors@).len() != 1);
        return false;
    }
    assert(views(factors@)[0] == factors@[0]@);
    if str_eq(factors[0].as_str(), "publickey") {
        assert(views(factors@) =~= seq!["publickey"@]);
        true
    } else {
        assert(views(factors@) != seq!["publickey"@]) by {
            assert(seq!["publickey"@][0] == "publickey"@);
        }
        false
    }
}

fn parse_methods(line: &ParsedLine) -> (r: Result<Vec<String>, ConfigError>)
    ensures
        match methods_value(line@) {
            Ok(ws) => r matches Ok(v) && views(v@) == ws,
            Err(e) => r matches Err(x) && x@ == e,
        },
{
    check_words(line, "expected at least one method list")?;
    let mut i: usize = 0;
    assert(line@.args.skip(0) =~= line@.args);
    while i < line.args.len()
        invariant
            i <= line.args.len(),
            line@.args.len() > 0,
            first_unsupported(line@.args) == first_unsupported(line@.args.skip(i as int)),
        decreases line.args.len() - i,
    {
        assert(line@.args.skip(i as int)[0] == line.args@[i as int]@);
        assert(line@.args.skip(i as int).skip(1) =~= line@.args.skip(i + 1));
        if !supported_method(line.args[i].as_str()) {
            let msg = concat(
                with_quoted("AuthenticationMethods ", line.args[i].as_str()).as_str(),
                ": only `publickey` (or `any`) is supported — multi-factor chains and non-publickey methods are not",
            );
            return Err(refuse(line, msg.as_str()));
        }
        i += 1;
    }
    Ok(clone_strings(line.args.as_slice()))
}

fn some_unless_none(s: String) -> (r: Option<String>)
    ensures
        opt_view(r) == unless_none(s@),
{
    if str_eq(to_lower(s.as_str()).as_str(), "none") {
        None
    } else {
        Some(s)
    }
}

fn parse_tcp_forwarding(line: &ParsedLine) -> (r: Result<TcpForwarding, ConfigError>)
    ensures
        match tcp_forwarding_value(line@) {
            Ok(p) => r matches Ok(v) && v == p,
            Err(e) => r matches Err(x) && x@ == e,
        },
{
    let word = one_arg_lower(line)?;
    let s = word.as_str();
    if str_eq(s, "yes") || str_eq(s, "all") {
        Ok(TcpForwarding::All)
    } else if str_eq(s, "no") {
        Ok(TcpForwarding::No)
    } else if str_eq(s, "local") {
        Ok(TcpForwarding::Local)
    } else if str_eq(s, "remote") {
        Ok(TcpForwarding::Remote)
    } else {
        Err(complain_of(line, "expected yes/no/all/local/remote, got ", s))
    }
}

fn parse_gateway_ports(line: &ParsedLine) -> (r: Result<GatewayPorts, ConfigError>)
    ensures
        match gateway_ports_value(line@) {
            Ok(p) => r matches Ok(v) && v == p,
            Err(e) => r matches Err(x) && x@ == e,
        },
{
    let word = one_arg_lower(line)?;
    let s = word.as_str();
    if str_eq(s, "no") {
        Ok(GatewayPorts::No)
    } else if str_eq(s, "yes") {
        Ok(GatewayPorts::Yes)
    } else if str_eq(s, "clientspecified") {
        Ok(GatewayPorts::ClientSpecified)
    } else {
        Err(complain_of(line, "expected no/yes/clientspecified, got ", s))
    }
}

fn parse_compression(line: &ParsedLine) -> (r: Result<Compression, ConfigError>)
    ensures
        match compression_value(line@) {
            Ok(p) => r matches Ok(v) && v == p,
            Err(e) => r matches Err(x) && x@ == e,
        },
{
    let word = one_arg_lower(line)?;
    let s = word.as_str();
    if str_eq(s, "no") || str_eq(s, "false") || str_eq(s, "off") {
        Ok(Compression::No)
    } else if str_eq(s, "yes") || str_eq(s, "true") || str_eq(s, "on") {
        Ok(Compression::Yes)
    } else if str_eq(s, "delayed") {
        Ok(Compression::Delayed)
    } else {
        Err(complain_of(line, "expected no/yes/delayed, got ", s))
    }
}

fn parse_address_family(line: &ParsedLine) -> (r: Result<AddressFamily, ConfigError>)
    ensures
        match address_family_value(line@) {
            Ok(p) => r matches Ok(v) && v == p,
            Err(e) => r matches Err(x) && x@ == e,
        },
{
    let word = one_arg_lower(line)?;
    let s = word.as_str();
    if str_eq(s, "any") {
        Ok(AddressFamily::Any)
    } else if str_eq(s, "inet") {
        Ok(AddressFamily::Inet)
    } else if str_eq(s, "inet6") {
        Ok(AddressFamily::Inet6)
    } else {
        Err(complain_of(line, "expected any/inet/inet6, got ", s))
    }
}

/// Split an entry into its host and the text of its port.
fn split_entry(s: &[char]) -> (r: Option<(&[char], &[char])>)
    ensures
        match entry_halves(s@) {
            Some((host, port)) => r matches Some((h, p)) && h@ == host && p@ == port,
            None => r is None,
        },
{
    if s.len() > 0 && s[0] == '[' {
        let rest = vstd::slice::slice_subrange(s, 1, s.len());
        assert(rest@ =~= s@.skip(1));
        match find(rest, ']') {
            Some(i) => {
                if i + 1 < rest.len() && rest[i + 1] == ':' {
                    let host = vstd::slice::slice_subrange(rest, 0, i);
                    let port = vstd::slice::slice_subrange(rest, i + 2, rest.len());
                    assert(host@ =~= rest@.take(i as int));
                    assert(port@ =~= rest@.skip(i + 2));
                    Some((host, port))
                } else {
                    None
                }
            },
            None => None,
        }
    } else {
        match rfind(s, ':') {
            Some(i) => {
                let host = vstd::slice::slice_subrange(s, 0, i);
                let port = vstd::slice::slice_subrange(s, i + 1, s.len());
                assert(host@ =~= s@.take(i as int));
                assert(port@ =~= s@.skip(i + 1));
                proof {
                    crate::text::lemma_first_index(host@, ':');
                }
                if find(host, ':').is_some() {
                    None
                } else {
                    Some((host, port))
                }
            },
            None => None,
        }
    }
}

/// Parse one entry of `PermitOpen` or `PermitListen`.
fn parse_entry(spec: &str) -> (r: Option<HostPort>)
    ensures
        opt_view(r) == entry(spec@),
{
    let cs = chars_of(spec);
    match split_entry(cs.as_slice()) {
        None => None,
        Some((host, port)) => {
            if host.len() == 0 {
                return None;
            }
            if str_eq(string_of(port).as_str(), "*") {
                return Some(HostPort { host: string_of(host), port: None });
            }
            match parse_number(port, 65535) {
                Some(v) => Some(HostPort { host: string_of(host), port: Some(v as u16) }),
                None => None,
            }
        },
    }
}

/// An error among the first entries is the error of all.
proof fn lemma_entries_fail(texts: Seq<Seq<char>>, line: ParsedLineView, n: int)
    requires
        0 <= n <= texts.len(),
        entries(texts.take(n), line) is Err,
    ensures
        entries(texts, line) == entries(texts.take(n), line),
    decreases texts.len() - n,
{
    if n == texts.len() {
        assert(texts.take(n) =~= texts);
    } else {
        assert(texts.take(n + 1).drop_last() =~= texts.take(n));
        lemma_entries_fail(texts, line, n + 1);
    }
}

/// Parse the entries of `PermitOpen` or `PermitListen`.
fn parse_host_port_list(line: &ParsedLine) -> (r: Result<Vec<HostPort>, ConfigError>)
    ensures
        match host_port_list(line@) {
            Ok(es) => r matches Ok(v) && views(v@) == es,
            Err(e) => r matches Err(x) && x@ == e,
        },
{
    let mut out: Vec<HostPort> = Vec::new();
    if line.args.len() == 0 {
        return Err(complain(line, "expected at least one host:port (or any/none)".to_owned()));
    }
    if line.args.len() == 1 {
        let only = to_lower(line.args[0].as_str());
        if str_eq(only.as_str(), "any") {
            out.push(HostPort { host: "*".to_owned(), port: None });
            assert(views(out@) =~= seq![HostPortView { host: "*"@, port: None }]);
            return Ok(out);
        }
        if str_eq(only.as_str(), "none") {
            assert(views(out@) =~= Seq::<HostPortView>::empty());
            return Ok(out);
        }
    }
    let mut i: usize = 0;
    assert(line@.args.take(0) =~= Seq::<Seq<char>>::empty());
    assert(views(out@) =~= Seq::<HostPortView>::empty());
    while i < line.args.len()
        invariant
            i <= line.args.len(),
            host_port_list(line@) == entries(line@.args, line@),
            entries(line@.args.take(i as int), line@) == Ok::<Seq<HostPortView>, ConfigErrorView>(
                views(out@),
            ),
        decreases line.args.len() - i,
    {
        proof {
            let next = line@.args.take(i + 1);
            assert(next.drop_last() =~= line@.args.take(i as int));
            assert(next.last() == line.args@[i as int]@);
        }
        match parse_entry(line.args[i].as_str()) {
            Some(e) => {
                let ghost before = views(out@);
                let ghost ev = e@;
                out.push(e);
                assert(views(out@) =~= before.push(ev));
            },
            None => {
                proof {
                    lemma_entries_fail(line@.args, line@, i + 1);
                }
                return Err(
                    complain_of(line, "malformed host:port entry ", line.args[i].as_str()),
                );
            },
        }
        i += 1;
    }
    assert(line@.args.take(i as int) =~= line@.args);
    Ok(out)
}

fn parse_rekey_limit(line: &ParsedLine) -> (r: Result<RekeyLimit, ConfigError>)
    ensures
        match rekey_limit_value(line@) {
            Ok(p) => r matches Ok(v) && v == p,
            Err(e) => r matches Err(x) && x@ == e,
        },
{
    if line.args.len() == 0 || line.args.len() > 2 {
        return Err(complain(line, "expected `<bytes>[ <time>]`".to_owned()));
    }
    assert(line@.args[0] == line.args@[0]@);
    let word = to_lower(line.args[0].as_str());
    let s = word.as_str();
    let max_bytes: Option<u64> = if str_eq(s, "default") || str_eq(s, "none") {
        None
    } else {
        match parse_size(chars_of(s).as_slice()) {
            Some(n) => Some(n),
            None => {
                return Err(complain_of(line, "bad size value ", s));
            },
        }
    };
    let max_seconds: Option<u32> = if line.args.len() < 2 {
        None
    } else {
        assert(line@.args[1] == line.args@[1]@);
        if str_eq(to_lower(line.args[1].as_str()).as_str(), "none") {
            None
        } else {
            Some(parse_duration_str(line.args[1].as_str(), line)?)
        }
    };
    Ok(RekeyLimit { max_bytes, max_seconds })
}

fn parse_subsystem(line: &ParsedLine) -> (r: Result<(), ConfigError>)
    ensures
        match subsystem_value(line@) {
            Ok(_) => r is Ok,
            Err(e) => r matches Err(x) && x@ == e,
        },
{
    if line.args.len() < 2 {
        return Err(complain(line, "expected `Subsystem <name> <command>`".to_owned()));
    }
    assert(line@.args[0] == line.args@[0]@);
    assert(line@.args[1] == line.args@[1]@);
    let name = to_lower(line.args[0].as_str());
    let command = to_lower(line.args[1].as_str());
    if str_eq(name.as_str(), "sftp") && str_eq(command.as_str(), "internal-sftp") {
        return Ok(());
    }
    let msg = concat(
        with_quoted("Subsystem ", name.as_str()).as_str(),
        ": only `sftp internal-sftp` is supported (external-command subsystems are not)",
    );
    Err(refuse(line, msg.as_str()))
}

/// Apply a directive on the server's start; `false` where it is none.
fn apply_startup_keyword(
    opts: &mut ServerOptions,
    line: &ParsedLine,
) -> (r: Result<bool, ConfigError>)
    ensures
        match with_startup_directive(old(opts)@, line@) {
            None => r == Ok::<bool, ConfigError>(false) && final(opts)@ == old(opts)@,
            Some(Ok(o)) => r == Ok::<bool, ConfigError>(true) && final(opts)@ == o,
            Some(Err(e)) => r matches Err(x) && x@ == e && final(opts)@ == old(opts)@,
        },
{
    reveal(with_startup_directive);
    let kw = line.keyword.as_str();
    if str_eq(kw, "port") {
        opts.port = Some(parse_u16(line)?);
    } else if str_eq(kw, "listenaddress") {
        let word = one_arg(line)?;
        push_word(&mut opts.listen_addresses, word);
    } else if str_eq(kw, "hostkey") {
        let word = one_arg(line)?;
        push_word(&mut opts.host_key_files, word);
    } else if str_eq(kw, "addressfamily") {
        opts.address_family = Some(parse_address_family(line)?);
    } else if str_eq(kw, "pidfile") {
        opts.pid_file = some_unless_none(one_arg(line)?);
        opts.pid_file_set = true;
    } else if str_eq(kw, "loglevel") {
        opts.log_level = Some(parse_log_level(line)?);
    } else if str_eq(kw, "compression") {
        opts.compression = Some(parse_compression(line)?);
    } else if str_eq(kw, "rekeylimit") {
        opts.rekey_limit = Some(parse_rekey_limit(line)?);
    } else if str_eq(kw, "logingracetime") {
        opts.login_grace_time = Some(parse_duration_seconds(line)?);
    } else if str_eq(kw, "maxstartups") {
        opts.max_startups = Some(parse_max_startups(line)?);
    } else if str_eq(kw, "strictmodes") {
        opts.strict_modes = Some(parse_yes_no(line)?);
    } else if str_eq(kw, "subsystem") {
        parse_subsystem(line)?;
        opts.subsystem_sftp = Some(true);
    } else if str_eq(kw, "permittunnel") {
        return Err(refuse(line, "PermitTunnel: tun/tap device forwarding is not supported"));
    } else {
        return Ok(false);
    }
    Ok(true)
}

/// Apply a directive on who may log in, and how; `false` where it is none.
fn apply_login_keyword(
    opts: &mut ServerOptions,
    line: &ParsedLine,
) -> (r: Result<bool, ConfigError>)
    ensures
        match with_login_directive(old(opts)@, line@) {
            None => r == Ok::<bool, ConfigError>(false) && final(opts)@ == old(opts)@,
            Some(Ok(o)) => r == Ok::<bool, ConfigError>(true) && final(opts)@ == o,
            Some(Err(e)) => r matches Err(x) && x@ == e && final(opts)@ == old(opts)@,
        },
{
    reveal(with_login_directive);
    let kw = line.keyword.as_str();
    if str_eq(kw, "authorizedkeysfile") {
        opts.authorized_keys_file = Some(one_arg(line)?);
    } else if str_eq(kw, "allowusers") {
        check_users(line, "expected at least one user name")?;
        append_words(&mut opts.allow_users, line.args.as_slice());
    } else if str_eq(kw, "denyusers") {
        check_users(line, "expected at least one user pattern")?;
        append_words(&mut opts.deny_users, line.args.as_slice());
    } else if str_eq(kw, "allowgroups") {
        check_words(line, "expected at least one group pattern")?;
        append_words(&mut opts.allow_groups, line.args.as_slice());
    } else if str_eq(kw, "denygroups") {
        check_words(line, "expected at least one group pattern")?;
        append_words(&mut opts.deny_groups, line.args.as_slice());
    } else if str_eq(kw, "permitrootlogin") {
        opts.permit_root_login = Some(parse_permit_root_login(line)?);
    } else if str_eq(kw, "pubkeyauthentication") {
        opts.pubkey_authentication = Some(parse_yes_no(line)?);
    } else if str_eq(kw, "passwordauthentication") {
        if parse_yes_no(line)? {
            return Err(
                refuse(line, "PasswordAuthentication yes: password authentication is not implemented"),
            );
        }
        opts.password_authentication = Some(false);
    } else if str_eq(kw, "kbdinteractiveauthentication") || str_eq(kw, "challengeresponseauthentication") {
        if parse_yes_no(line)? {
            return Err(
                refuse(line, "KbdInteractiveAuthentication yes: keyboard-interactive authentication is not implemented"),
            );
        }
        opts.kbd_interactive_authentication = Some(false);
    } else if str_eq(kw, "authenticationmethods") {
        opts.authentication_methods = Some(parse_methods(line)?);
    } else if str_eq(kw, "permitemptypasswords") {
        if parse_yes_no(line)? {
            return Err(
                refuse(line, "PermitEmptyPasswords yes: password authentication is not implemented"),
            );
        }
    } else if str_eq(kw, "maxauthtries") {
        opts.max_auth_tries = Some(parse_u32(line)?);
    } else if str_eq(kw, "banner") {
        opts.banner = some_unless_none(one_arg(line)?);
    } else {
        return Ok(false);
    }
    Ok(true)
}

/// Apply a directive on algorithms; `false` where it is none.
fn apply_algorithm_keyword(
    opts: &mut ServerOptions,
    line: &ParsedLine,
) -> (r: Result<bool, ConfigError>)
    ensures
        match with_algorithm_directive(old(opts)@, line@) {
            None => r == Ok::<bool, ConfigError>(false) && final(opts)@ == old(opts)@,
            Some(Ok(o)) => r == Ok::<bool, ConfigError>(true) && final(opts)@ == o,
            Some(Err(e)) => r matches Err(x) && x@ == e && final(opts)@ == old(opts)@,
        },
{
    reveal(with_algorithm_directive);
    let kw = line.keyword.as_str();
    if str_eq(kw, "ciphers") {
        opts.ciphers = Some(
            resolve_algo_list(
                AlgoCategory::Cipher,
                line.args.as_slice(),
                line.line_no,
                "Ciphers",
            )?,
        );
    } else if str_eq(kw, "macs") {
        opts.macs = Some(
            resolve_algo_list(
                AlgoCategory::Mac,
                line.args.as_slice(),
                line.line_no,
                "MACs",
            )?,
        );
    } else if str_eq(kw, "kexalgorithms") {
        opts.kex_algorithms = Some(
            resolve_algo_list(
                AlgoCategory::Kex,
                line.args.as_slice(),
                line.line_no,
                "KexAlgorithms",
            )?,
        );
    } else if str_eq(kw, "hostkeyalgorithms") {
        opts.host_key_algorithms = Some(
            resolve_algo_list(
                AlgoCategory::HostKey,
                line.args.as_slice(),
                line.line_no,
                "HostKeyAlgorithms",
            )?,
        );
    } else if str_eq(kw, "casignaturealgorithms") {
        return Err(refuse(line, "CASignatureAlgorithms: certificate authentication is not supported"));
    } else {
        return Ok(false);
    }
    Ok(true)
}

/// Apply a directive on what a session may do; `false` where it is none.
fn apply_session_keyword(
    opts: &mut ServerOptions,
    line: &ParsedLine,
) -> (r: Result<bool, ConfigError>)
    ensures
        match with_session_directive(old(opts)@, line@) {
            None => r == Ok::<bool, ConfigError>(false) && final(opts)@ == old(opts)@,
            Some(Ok(o)) => r == Ok::<bool, ConfigError>(true) && final(opts)@ == o,
            Some(Err(e)) => r matches Err(x) && x@ == e && final(opts)@ == old(opts)@,
        },
{
    reveal(with_session_directive);
    let kw = line.keyword.as_str();
    if str_eq(kw, "allowagentforwarding") {
        opts.allow_agent_forwarding = Some(parse_yes_no(line)?);
    } else if str_eq(kw, "x11forwarding") {
        opts.x11_forwarding = Some(parse_yes_no(line)?);
    } else if str_eq(kw, "acceptenv") {
        check_words(line, "expected at least one env pattern")?;
        append_words(&mut opts.accept_env, line.args.as_slice());
    } else if str_eq(kw, "sftpenabled") {
        opts.sftp_enabled = Some(parse_yes_no(line)?);
    } else if str_eq(kw, "sftpreadonly") {
        opts.sftp_read_only = Some(parse_yes_no(line)?);
    } else if str_eq(kw, "sftproot") {
        opts.sftp_root = Some(one_arg(line)?);
    } else if str_eq(kw, "scpenabled") {
        opts.scp_enabled = Some(parse_yes_no(line)?);
    } else if str_eq(kw, "maxsessions") {
        opts.max_sessions = Some(parse_u32(line)?);
    } else if str_eq(kw, "allowtcpforwarding") {
        opts.allow_tcp_forwarding = Some(parse_tcp_forwarding(line)?);
    } else if str_eq(kw, "permitopen") {
        opts.permit_open = Some(parse_host_port_list(line)?);
    } else if str_eq(kw, "permitlisten") {
        opts.permit_listen = Some(parse_host_port_list(line)?);
    } else if str_eq(kw, "gatewayports") {
        opts.gateway_ports = Some(parse_gateway_ports(line)?);
    } else if str_eq(kw, "forcecommand") {
        check_words(line, "expected a command")?;
        opts.force_command = Some(join_strings(line.args.as_slice(), " "));
    } else if str_eq(kw, "chrootdirectory") {
        opts.chroot_directory = some_unless_none(one_arg(line)?);
    } else if str_eq(kw, "clientaliveinterval") {
        opts.client_alive_interval = Some(parse_duration_seconds(line)?);
    } else if str_eq(kw, "clientalivecountmax") {
        opts.client_alive_count_max = Some(parse_u32(line)?);
    } else if str_eq(kw, "printmotd") {
        opts.print_motd = Some(parse_yes_no(line)?);
    } else {
        return Ok(false);
    }
    Ok(true)
}

/// Apply one directive. A directive with an error changes nothing.
fn apply_keyword(opts: &mut ServerOptions, line: &ParsedLine) -> (r: Result<(), ConfigError>)
    ensures
        match with_directive(old(opts)@, line@) {
            Ok(o) => r is Ok && final(opts)@ == o,
            Err(e) => r matches Err(x) && x@ == e && final(opts)@ == old(opts)@,
        },
{
    if apply_startup_keyword(opts, line)? || apply_login_keyword(opts, line)?
        || apply_algorithm_keyword(opts, line)? || apply_session_keyword(opts, line)? {
        return Ok(());
    }
    Err(ConfigError::UnknownKeyword { line: line.line_no, keyword: line.keyword.clone() })
}

fn pick_list(a: Option<Vec<String>>, b: &Option<Vec<String>>) -> (r: Option<Vec<String>>)
    ensures
        opt_list(r) == first_set(opt_list(a), opt_list(*b)),
{
    if a.is_some() {
        a
    } else {
        clone_list(b)
    }
}

fn pick_entries(a: Option<Vec<HostPort>>, b: &Option<Vec<HostPort>>) -> (r: Option<Vec<HostPort>>)
    ensures
        opt_list(r) == first_set(opt_list(a), opt_list(*b)),
{
    if a.is_some() {
        a
    } else {
        clone_host_ports(b)
    }
}

/// Take in another block: an already set scalar is kept, and lists
/// concatenate.
fn merge_server_options(dst: ServerOptions, src: &ServerOptions) -> (r: ServerOptions)
    ensures
        r@ == dst@.with(src@),
{
    ServerOptions {
        port: pick(dst.port, src.port),
        listen_addresses: joined(dst.listen_addresses, &src.listen_addresses),
        host_key_files: joined(dst.host_key_files, &src.host_key_files),
        authorized_keys_file: pick_text(dst.authorized_keys_file, &src.authorized_keys_file),
        allow_users: joined(dst.allow_users, &src.allow_users),
        login_grace_time: pick(dst.login_grace_time, src.login_grace_time),
        max_startups: pick(dst.max_startups, src.max_startups),
        allow_agent_forwarding: pick(dst.allow_agent_forwarding, src.allow_agent_forwarding),
        x11_forwarding: pick(dst.x11_forwarding, src.x11_forwarding),
        accept_env: joined(dst.accept_env, &src.accept_env),
        strict_modes: pick(dst.strict_modes, src.strict_modes),
        log_level: pick(dst.log_level, src.log_level),
        sftp_enabled: pick(dst.sftp_enabled, src.sftp_enabled),
        sftp_read_only: pick(dst.sftp_read_only, src.sftp_read_only),
        sftp_root: pick_text(dst.sftp_root, &src.sftp_root),
        scp_enabled: pick(dst.scp_enabled, src.scp_enabled),
        permit_root_login: pick(dst.permit_root_login, src.permit_root_login),
        ciphers: pick_list(dst.ciphers, &src.ciphers),
        macs: pick_list(dst.macs, &src.macs),
        kex_algorithms: pick_list(dst.kex_algorithms, &src.kex_algorithms),
        host_key_algorithms: pick_list(dst.host_key_algorithms, &src.host_key_algorithms),
        pubkey_authentication: pick(dst.pubkey_authentication, src.pubkey_authentication),
        password_authentication: pick(dst.password_authentication, src.password_authentication),
        kbd_interactive_authentication: pick(
            dst.kbd_interactive_authentication,
            src.kbd_interactive_authentication,
        ),
        authentication_methods: pick_list(dst.authentication_methods, &src.authentication_methods),
        max_auth_tries: pick(dst.max_auth_tries, src.max_auth_tries),
        deny_users: joined(dst.deny_users, &src.deny_users),
        allow_groups: joined(dst.allow_groups, &src.allow_groups),
        deny_groups: joined(dst.deny_groups, &src.deny_groups),
        banner: pick_text(dst.banner, &src.banner),
        max_sessions: pick(dst.max_sessions, src.max_sessions),
        allow_tcp_forwarding: pick(dst.allow_tcp_forwarding, src.allow_tcp_forwarding),
        permit_open: pick_entries(dst.permit_open, &src.permit_open),
        permit_listen: pick_entries(dst.permit_listen, &src.permit_listen),
        gateway_ports: pick(dst.gateway_ports, src.gateway_ports),
        force_command: pick_text(dst.force_command, &src.force_command),
        chroot_directory: pick_text(dst.chroot_directory, &src.chroot_directory),
        client_alive_interval: pick(dst.client_alive_interval, src.client_alive_interval),
        client_alive_count_max: pick(dst.client_alive_count_max, src.client_alive_count_max),
        print_motd: pick(dst.print_motd, src.print_motd),
        compression: pick(dst.compression, src.compression),
        rekey_limit: pick(dst.rekey_limit, src.rekey_limit),
        address_family: pick(dst.address_family, src.address_family),
        pid_file: if !dst.pid_file_set && src.pid_file_set {
            src.pid_file.clone()
        } else {
            dst.pid_file
        },
        pid_file_set: dst.pid_file_set || src.pid_file_set,
        subsystem_sftp: pick(dst.subsystem_sftp, src.subsystem_sftp),
    }
}

/// One `Match` block: its conditions, and the options that apply when every
/// condition holds.
#[derive(Clone, Debug, PartialEq, Eq)]
pub struct ServerMatchBlock {
    /// All conditions must hold for `opts` to apply.
    pub conditions: Vec<MatchCondition>,
    /// Options contributed by this block.
    pub opts: ServerOptions,
}

/// What a [`ServerMatchBlock`] says.
#[verifier::ext_equal]
pub ghost struct ServerMatchBlockView {
    pub conditions: Seq<MatchConditionView>,
    pub opts: ServerOptionsView,
}

impl View for ServerMatchBlock {
    type V = ServerMatchBlockView;

    open spec fn view(&self) -> ServerMatchBlockView {
        ServerMatchBlockView { conditions: views(self.conditions@), opts: self.opts@ }
    }
}

/// A parsed `sshd_config` file: global options and `Match` blocks.
#[derive(Clone, Debug, PartialEq, Eq)]
pub struct SshServerConfig {
    /// Options before the first `Match` line, which apply to every connection.
    pub global: ServerOptions,
    /// `Match` blocks in source order.
    pub match_blocks: Vec<ServerMatchBlock>,
}

/// What an [`SshServerConfig`] says.
#[verifier::ext_equal]
pub ghost struct SshServerConfigView {
    pub global: ServerOptionsView,
    pub match_blocks: Seq<ServerMatchBlockView>,
}

impl View for SshServerConfig {
    type V = SshServerConfigView;

    open spec fn view(&self) -> SshServerConfigView {
        SshServerConfigView { global: self.global@, match_blocks: views(self.match_blocks@) }
    }
}

/// Whether a keyword has a meaning at file scope alone.
pub open spec fn invalid_in_match(kw: Seq<char>) -> bool {
    views(FILE_SCOPE@).contains(kw)
}

/// Keywords that a `Match` block cannot hold.
pub const FILE_SCOPE: [&'static str; 14] = [
    "port",
    "listenaddress",
    "hostkey",
    "addressfamily",
    "pidfile",
    "loglevel",
    "compression",
    "rekeylimit",
    "logingracetime",
    "maxstartups",
    "strictmodes",
    "include",
    "subsystem",
    "permittunnel",
];

impl SshServerConfigView {
    /// A file without lines.
    pub open spec fn empty() -> SshServerConfigView {
        SshServerConfigView { global: ServerOptionsView::unset(), match_blocks: Seq::empty() }
    }

    /// The file with one more line: a `Match` line opens a block, and any other
    /// goes to the block that is open.
    pub open spec fn with_line(self, line: ParsedLineView) -> Result<
        SshServerConfigView,
        ConfigErrorView,
    > {
        if line.keyword == "match"@ {
            match match_line(line.args, line.line_no, MatchSide::Server) {
                Err(e) => Err(e),
                Ok(conditions) => Ok(
                    SshServerConfigView {
                        match_blocks: self.match_blocks.push(
                            ServerMatchBlockView { conditions, opts: ServerOptionsView::unset() },
                        ),
                        ..self
                    },
                ),
            }
        } else if self.match_blocks.len() == 0 {
            match with_directive(self.global, line) {
                Err(e) => Err(e),
                Ok(global) => Ok(SshServerConfigView { global, ..self }),
            }
        } else if invalid_in_match(line.keyword) {
            Err(refusal(line, line.keyword + " is not valid inside a Match block"@))
        } else {
            match with_directive(self.match_blocks.last().opts, line) {
                Err(e) => Err(e),
                Ok(opts) => Ok(
                    SshServerConfigView {
                        match_blocks: self.match_blocks.drop_last().push(
                            ServerMatchBlockView { opts, ..self.match_blocks.last() },
                        ),
                        ..self
                    },
                ),
            }
        }
    }

    /// What the lines of a file say.
    pub open spec fn of_lines(lines: Seq<ParsedLineView>) -> Result<
        SshServerConfigView,
        ConfigErrorView,
    >
        decreases lines.len(),
    {
        if lines.len() == 0 {
            Ok(SshServerConfigView::empty())
        } else {
            match SshServerConfigView::of_lines(lines.drop_last()) {
                Err(e) => Err(e),
                Ok(cfg) => cfg.with_line(lines.last()),
            }
        }
    }

    /// What the text of a file says.
    pub open spec fn of_text(src: Seq<char>) -> Result<SshServerConfigView, ConfigErrorView> {
        match parse_text(src) {
            Err(e) => Err(e),
            Ok(lines) => SshServerConfigView::of_lines(lines),
        }
    }

    /// What applies to a connection, given the answers of commands that were
    /// run.
    pub open spec fn resolved(
        self,
        ctx: MatchContextView,
        policy: ExecPolicy,
        answers: Seq<bool>,
    ) -> Step<ServerOptionsView> {
        blocks_given(self.global, self.match_blocks, ctx, policy, answers)
    }
}

/// Options with every block taken in that applies.
pub open spec fn blocks_given(
    out: ServerOptionsView,
    blocks: Seq<ServerMatchBlockView>,
    ctx: MatchContextView,
    policy: ExecPolicy,
    answers: Seq<bool>,
) -> Step<ServerOptionsView>
    decreases blocks.len(),
{
    if blocks.len() == 0 {
        Step::Done(out)
    } else {
        match block_given(blocks[0].conditions, ctx, policy, answers) {
            (Step::Run(cmd), _) => Step::Run(cmd),
            (Step::Done(applies), used) => blocks_given(
                if applies {
                    out.with(blocks[0].opts)
                } else {
                    out
                },
                blocks.skip(1),
                ctx,
                policy,
                answers.skip(used as int),
            ),
        }
    }
}

impl ExecStep<ServerOptions> {
    /// Whether this is how far the model gets.
    pub open spec fn is(self, model: Step<ServerOptionsView>) -> bool {
        match model {
            Step::Done(o) => self matches ExecStep::Done(x) && x@ == o,
            Step::Run(cmd) => self matches ExecStep::Run(c) && c@ == cmd,
        }
    }
}

/// Refuse a keyword that has a meaning at file scope alone.
fn reject_invalid_in_match(line: &ParsedLine) -> (r: Result<(), ConfigError>)
    ensures
        if invalid_in_match(line@.keyword) {
            r matches Err(e) && e@ == refusal(
                line@,
                line@.keyword + " is not valid inside a Match block"@,
            )
        } else {
            r is Ok
        },
{
    if contains_str(&FILE_SCOPE, line.keyword.as_str()) {
        let msg = concat(line.keyword.as_str(), " is not valid inside a Match block");
        return Err(refuse(line, msg.as_str()));
    }
    Ok(())
}

/// An error among the first lines is the error of all.
proof fn lemma_of_lines_fails(lines: Seq<ParsedLineView>, n: int)
    requires
        0 <= n <= lines.len(),
        SshServerConfigView::of_lines(lines.take(n)) is Err,
    ensures
        SshServerConfigView::of_lines(lines) == SshServerConfigView::of_lines(lines.take(n)),
    decreases lines.len() - n,
{
    if n == lines.len() {
        assert(lines.take(n) =~= lines);
    } else {
        assert(lines.take(n + 1).drop_last() =~= lines.take(n));
        lemma_of_lines_fails(lines, n + 1);
    }
}

impl Default for SshServerConfig {
    fn default() -> (r: Self)
        ensures
            r@ == SshServerConfigView::empty(),
    {
        let r = SshServerConfig { global: ServerOptions::default(), match_blocks: Vec::new() };
        assert(r@ =~= SshServerConfigView::empty());
        r
    }
}

impl SshServerConfig {
    /// Parse the contents of an `sshd_config` file.
    pub fn parse(src: &str) -> (r: Result<Self, ConfigError>)
        ensures
            super::agrees(r, SshServerConfigView::of_text(src@)),
    {
        let lines = tokenize(src)?;
        Self::from_lines(lines)
    }

    /// Take in one line.
    fn take_line(&mut self, line: &ParsedLine) -> (r: Result<(), ConfigError>)
        ensures
            match old(self)@.with_line(line@) {
                Ok(cfg) => r is Ok && final(self)@ == cfg,
                Err(e) => r matches Err(x) && x@ == e,
            },
    {
        if str_eq(line.keyword.as_str(), "match") {
            let conditions = parse_match_line_server(line.args.as_slice(), line.line_no)?;
            let block = ServerMatchBlock { conditions, opts: ServerOptions::default() };
            let ghost view = block@;
            self.match_blocks.push(block);
            assert(views(self.match_blocks@) =~= views(old(self).match_blocks@).push(view));
            return Ok(());
        }
        match self.match_blocks.pop() {
            None => apply_keyword(&mut self.global, line),
            Some(mut block) => {
                assert(views(old(self).match_blocks@).last() == block@);
                assert(views(old(self).match_blocks@).drop_last() =~= views(self.match_blocks@));
                reject_invalid_in_match(line)?;
                apply_keyword(&mut block.opts, line)?;
                let ghost view = block@;
                let ghost before = views(self.match_blocks@);
                self.match_blocks.push(block);
                assert(views(self.match_blocks@) =~= before.push(view));
                Ok(())
            },
        }
    }

    /// Build a configuration from lines that were tokenized already, such as
    /// those of a file whose includes are expanded.
    pub fn from_lines(lines: Vec<ParsedLine>) -> (r: Result<Self, ConfigError>)
        ensures
            super::agrees(r, SshServerConfigView::of_lines(views(lines@))),
    {
        let mut cfg = SshServerConfig::default();
        let mut i: usize = 0;
        let ghost all = views(lines@);
        assert(all.take(0) =~= Seq::<ParsedLineView>::empty());
        while i < lines.len()
            invariant
                i <= lines.len(),
                all == views(lines@),
                SshServerConfigView::of_lines(all.take(i as int)) == Ok::<
                    SshServerConfigView,
                    ConfigErrorView,
                >(cfg@),
            decreases lines.len() - i,
        {
            proof {
                let next = all.take(i + 1);
                assert(next.drop_last() =~= all.take(i as int));
                assert(next.last() == lines@[i as int]@);
                if cfg@.with_line(lines@[i as int]@) is Err {
                    lemma_of_lines_fails(all, i + 1);
                }
            }
            cfg.take_line(&lines[i])?;
            i += 1;
        }
        assert(all.take(i as int) =~= all);
        Ok(cfg)
    }

    /// What applies to a connection, as far as that needs no command to be
    /// run: the global options, with every matching block taken in, in source
    /// order.
    pub fn resolve(&self, ctx: &MatchContext<'_>, policy: ExecPolicy) -> (r: ServerOptions)
        requires
            self@.resolved(ctx@, policy, Seq::empty()) is Done,
        ensures
            self@.resolved(ctx@, policy, Seq::empty()) == Step::Done(r@),
    {
        let none: Vec<bool> = Vec::new();
        match self.resolve_step(ctx, policy, none.as_slice()) {
            ExecStep::Done(o) => o,
            ExecStep::Run(_) => ServerOptions::default(),
        }
    }

    /// What applies to a connection, given the answers of the commands that
    /// were run so far, or the command to run next.
    pub fn resolve_step(
        &self,
        ctx: &MatchContext<'_>,
        policy: ExecPolicy,
        answers: &[bool],
    ) -> (r: ExecStep<ServerOptions>)
        ensures
            r.is(self@.resolved(ctx@, policy, answers@)),
    {
        let mut out = self.global.duplicate();
        let mut used: usize = 0;
        let mut i: usize = 0;
        let ghost blocks = views(self.match_blocks@);
        let ghost model = self@.resolved(ctx@, policy, answers@);
        assert(blocks.skip(0) =~= blocks);
        assert(answers@.skip(0) =~= answers@);
        while i < self.match_blocks.len()
            invariant
                i <= self.match_blocks.len(),
                used <= answers.len(),
                blocks == views(self.match_blocks@),
                model == blocks_given(
                    out@,
                    blocks.skip(i as int),
                    ctx@,
                    policy,
                    answers@.skip(used as int),
                ),
                model == self@.resolved(ctx@, policy, answers@),
            decreases self.match_blocks.len() - i,
        {
            let left = vstd::slice::slice_subrange(answers, used, answers.len());
            assert(left@ =~= answers@.skip(used as int));
            assert(blocks.skip(i as int)[0] == self.match_blocks@[i as int]@);
            assert(blocks.skip(i as int).skip(1) =~= blocks.skip(i + 1));
            let (step, takes) = all_match_step(
                self.match_blocks[i].conditions.as_slice(),
                ctx,
                policy,
                left,
            );
            assert(answers@.skip(used as int).skip(takes as int) =~= answers@.skip(used + takes));
            match step {
                ExecStep::Run(cmd) => {
                    return ExecStep::Run(cmd);
                },
                ExecStep::Done(applies) => {
                    if applies {
                        out = merge_server_options(out, &self.match_blocks[i].opts);
                    }
                },
            }
            used = used + takes;
            i += 1;
        }
        assert(blocks.skip(i as int) =~= Seq::<ServerMatchBlockView>::empty());
        ExecStep::Done(out)
    }
}

impl ServerOptionsView {
    /// Whether other options have every value that is set here, and every list
    /// from here as the front of theirs.
    pub open spec fn kept_by(self, other: ServerOptionsView) -> bool {
        &&& self.port is Some ==> other.port == self.port
        &&& self.listen_addresses.is_prefix_of(other.listen_addresses)
        &&& self.host_key_files.is_prefix_of(other.host_key_files)
        &&& self.authorized_keys_file is Some ==> other.authorized_keys_file
            == self.authorized_keys_file
        &&& self.allow_users.is_prefix_of(other.allow_users)
        &&& self.login_grace_time is Some ==> other.login_grace_time == self.login_grace_time
        &&& self.max_startups is Some ==> other.max_startups == self.max_startups
        &&& self.allow_agent_forwarding is Some ==> other.allow_agent_forwarding
            == self.allow_agent_forwarding
        &&& self.x11_forwarding is Some ==> other.x11_forwarding == self.x11_forwarding
        &&& self.accept_env.is_prefix_of(other.accept_env)
        &&& self.strict_modes is Some ==> other.strict_modes == self.strict_modes
        &&& self.log_level is Some ==> other.log_level == self.log_level
        &&& self.sftp_enabled is Some ==> other.sftp_enabled == self.sftp_enabled
        &&& self.sftp_read_only is Some ==> other.sftp_read_only == self.sftp_read_only
        &&& self.sftp_root is Some ==> other.sftp_root == self.sftp_root
        &&& self.scp_enabled is Some ==> other.scp_enabled == self.scp_enabled
        &&& self.permit_root_login is Some ==> other.permit_root_login == self.permit_root_login
        &&& self.ciphers is Some ==> other.ciphers == self.ciphers
        &&& self.macs is Some ==> other.macs == self.macs
        &&& self.kex_algorithms is Some ==> other.kex_algorithms == self.kex_algorithms
        &&& self.host_key_algorithms is Some ==> other.host_key_algorithms
            == self.host_key_algorithms
        &&& self.pubkey_authentication is Some ==> other.pubkey_authentication
            == self.pubkey_authentication
        &&& self.password_authentication is Some ==> other.password_authentication
            == self.password_authentication
        &&& self.kbd_interactive_authentication is Some ==> other.kbd_interactive_authentication
            == self.kbd_interactive_authentication
        &&& self.authentication_methods is Some ==> other.authentication_methods
            == self.authentication_methods
        &&& self.max_auth_tries is Some ==> other.max_auth_tries == self.max_auth_tries
        &&& self.deny_users.is_prefix_of(other.deny_users)
        &&& self.allow_groups.is_prefix_of(other.allow_groups)
        &&& self.deny_groups.is_prefix_of(other.deny_groups)
        &&& self.banner is Some ==> other.banner == self.banner
        &&& self.max_sessions is Some ==> other.max_sessions == self.max_sessions
        &&& self.allow_tcp_forwarding is Some ==> other.allow_tcp_forwarding
            == self.allow_tcp_forwarding
        &&& self.permit_open is Some ==> other.permit_open == self.permit_open
        &&& self.permit_listen is Some ==> other.permit_listen == self.permit_listen
        &&& self.gateway_ports is Some ==> other.gateway_ports == self.gateway_ports
        &&& self.force_command is Some ==> other.force_command == self.force_command
        &&& self.chroot_directory is Some ==> other.chroot_directory == self.chroot_directory
        &&& self.client_alive_interval is Some ==> other.client_alive_interval
            == self.client_alive_interval
        &&& self.client_alive_count_max is Some ==> other.client_alive_count_max
            == self.client_alive_count_max
        &&& self.print_motd is Some ==> other.print_motd == self.print_motd
        &&& self.compression is Some ==> other.compression == self.compression
        &&& self.rekey_limit is Some ==> other.rekey_limit == self.rekey_limit
        &&& self.address_family is Some ==> other.address_family == self.address_family
        &&& self.pid_file_set ==> other.pid_file == self.pid_file
        &&& self.pid_file_set ==> other.pid_file_set
        &&& self.subsystem_sftp is Some ==> other.subsystem_sftp == self.subsystem_sftp
    }

    /// Whether no option that has a meaning at file scope alone is set.
    pub open spec fn file_scope_unset(self) -> bool {
        &&& self.port is None
        &&& self.listen_addresses.len() == 0
        &&& self.host_key_files.len() == 0
        &&& self.address_family is None
        &&& self.log_level is None
        &&& self.compression is None
        &&& self.rekey_limit is None
        &&& self.login_grace_time is None
        &&& self.max_startups is None
        &&& self.strict_modes is None
        &&& self.subsystem_sftp is None
        &&& !self.pid_file_set
        &&& self.pid_file is None
    }

    /// Whether other options agree on those that have a meaning at file scope
    /// alone.
    pub open spec fn same_file_scope(self, other: ServerOptionsView) -> bool {
        &&& self.port == other.port
        &&& self.listen_addresses == other.listen_addresses
        &&& self.host_key_files == other.host_key_files
        &&& self.address_family == other.address_family
        &&& self.log_level == other.log_level
        &&& self.compression == other.compression
        &&& self.rekey_limit == other.rekey_limit
        &&& self.login_grace_time == other.login_grace_time
        &&& self.max_startups == other.max_startups
        &&& self.strict_modes == other.strict_modes
        &&& self.subsystem_sftp == other.subsystem_sftp
        &&& self.pid_file == other.pid_file
        &&& self.pid_file_set == other.pid_file_set
    }

    /// Whether no way to log in but by public key is turned on.
    pub open spec fn publickey_only(self) -> bool {
        &&& self.password_authentication != Some(true)
        &&& self.kbd_interactive_authentication != Some(true)
        &&& self.authentication_methods matches Some(alts) ==> forall|i: int|
            0 <= i < alts.len() ==> method_supported(#[trigger] alts[i])
    }

    /// Whether every algorithm list that is set is one that can be negotiated:
    /// not empty, and of known names.
    pub open spec fn negotiable(self) -> bool {
        &&& self.ciphers matches Some(names) ==> known(AlgoCategory::Cipher, names)
        &&& self.macs matches Some(names) ==> known(AlgoCategory::Mac, names)
        &&& self.kex_algorithms matches Some(names) ==> known(AlgoCategory::Kex, names)
        &&& self.host_key_algorithms matches Some(names) ==> known(AlgoCategory::HostKey, names)
    }
}

/// Whether a list is not empty and all its names are in a catalogue.
pub open spec fn known(cat: AlgoCategory, names: Seq<Seq<char>>) -> bool {
    &&& names.len() > 0
    &&& forall|n: Seq<char>| #[trigger] names.contains(n) ==> catalogue(cat).contains(n)
}

/// Taking blocks in one after the other is taking in their combination.
pub proof fn lemma_with_is_associative(
    a: ServerOptionsView,
    b: ServerOptionsView,
    c: ServerOptionsView,
)
    ensures
        a.with(b).with(c) == a.with(b.with(c)),
{
    assert(a.with(b).with(c) =~~= a.with(b.with(c)));
}

/// A block without directives changes nothing.
pub proof fn lemma_with_nothing(o: ServerOptionsView)
    ensures
        o.with(ServerOptionsView::unset()) == o,
{
    assert(o.with(ServerOptionsView::unset()) =~~= o);
}

/// The first value of a scalar wins, and lists grow at the end: whatever was
/// there before a block was taken in is kept.
pub proof fn lemma_earlier_wins(a: ServerOptionsView, b: ServerOptionsView)
    ensures
        a.kept_by(a.with(b)),
{
}

/// What is global is kept for every connection, whichever blocks apply.
pub proof fn lemma_global_is_kept(
    out: ServerOptionsView,
    blocks: Seq<ServerMatchBlockView>,
    ctx: MatchContextView,
    policy: ExecPolicy,
    answers: Seq<bool>,
)
    ensures
        blocks_given(out, blocks, ctx, policy, answers) matches Step::Done(r) ==> out.kept_by(r),
    decreases blocks.len(),
{
    if blocks.len() > 0 {
        if let (Step::Done(applies), used) = block_given(
            blocks[0].conditions,
            ctx,
            policy,
            answers,
        ) {
            let next = if applies {
                out.with(blocks[0].opts)
            } else {
                out
            };
            lemma_earlier_wins(out, blocks[0].opts);
            lemma_global_is_kept(next, blocks.skip(1), ctx, policy, answers.skip(used as int));
            if let Step::Done(r) = blocks_given(out, blocks, ctx, policy, answers) {
                lemma_kept_by_is_transitive(out, next, r);
            }
        }
    }
}

proof fn lemma_kept_by_is_transitive(
    a: ServerOptionsView,
    b: ServerOptionsView,
    c: ServerOptionsView,
)
    requires
        a == b || a.kept_by(b),
        b.kept_by(c),
    ensures
        a.kept_by(c),
{
}

/// A directive leaves the options that the server's safety rests on as they
/// were, or sets them to a value that was checked.
spec fn checked(o: ServerOptionsView, r: ServerOptionsView, line: ParsedLineView) -> bool {
    &&& r.password_authentication == o.password_authentication || r.password_authentication == Some(
        false,
    )
    &&& r.kbd_interactive_authentication == o.kbd_interactive_authentication
        || r.kbd_interactive_authentication == Some(false)
    &&& r.authentication_methods == o.authentication_methods || (methods_value(line) matches Ok(ws)
        && r.authentication_methods == Some(ws))
    &&& r.ciphers == o.ciphers || set_from(r.ciphers, AlgoCategory::Cipher, line)
    &&& r.macs == o.macs || set_from(r.macs, AlgoCategory::Mac, line)
    &&& r.kex_algorithms == o.kex_algorithms || set_from(
        r.kex_algorithms,
        AlgoCategory::Kex,
        line,
    )
    &&& r.host_key_algorithms == o.host_key_algorithms || set_from(
        r.host_key_algorithms,
        AlgoCategory::HostKey,
        line,
    )
}

proof fn lemma_startup_is_checked(o: ServerOptionsView, line: ParsedLineView)
    ensures
        with_startup_directive(o, line) matches Some(Ok(r)) ==> checked(o, r, line),
{
    reveal(with_startup_directive);
}

proof fn lemma_login_is_checked(o: ServerOptionsView, line: ParsedLineView)
    ensures
        with_login_directive(o, line) matches Some(Ok(r)) ==> checked(o, r, line),
{
    reveal(with_login_directive);
}

proof fn lemma_algorithm_is_checked(o: ServerOptionsView, line: ParsedLineView)
    ensures
        with_algorithm_directive(o, line) matches Some(Ok(r)) ==> checked(o, r, line),
{
    reveal(with_algorithm_directive);
}

proof fn lemma_session_is_checked(o: ServerOptionsView, line: ParsedLineView)
    ensures
        with_session_directive(o, line) matches Some(Ok(r)) ==> checked(o, r, line),
{
    reveal(with_session_directive);
}

/// Whether a list is what a line resolves to.
spec fn set_from(list: Option<Seq<Seq<char>>>, cat: AlgoCategory, line: ParsedLineView) -> bool {
    let kw = match cat {
        AlgoCategory::Cipher => "Ciphers"@,
        AlgoCategory::Mac => "MACs"@,
        AlgoCategory::Kex => "KexAlgorithms"@,
        _ => "HostKeyAlgorithms"@,
    };
    resolution(cat, line.args, line.line_no, kw) matches Ok(names) && list == Some(names)
}

/// A directive keeps the options to logging in by public key alone, and the
/// algorithm lists negotiable.
proof fn lemma_directive_is_safe(o: ServerOptionsView, line: ParsedLineView)
    requires
        o.publickey_only(),
        o.negotiable(),
    ensures
        with_directive(o, line) matches Ok(r) ==> r.publickey_only() && r.negotiable(),
{
    lemma_startup_is_checked(o, line);
    lemma_login_is_checked(o, line);
    lemma_algorithm_is_checked(o, line);
    lemma_session_is_checked(o, line);
    lemma_resolution_is_known(AlgoCategory::Cipher, line.args, line.line_no, "Ciphers"@);
    lemma_resolution_is_known(AlgoCategory::Mac, line.args, line.line_no, "MACs"@);
    lemma_resolution_is_known(AlgoCategory::Kex, line.args, line.line_no, "KexAlgorithms"@);
    lemma_resolution_is_known(AlgoCategory::HostKey, line.args, line.line_no, "HostKeyAlgorithms"@);
    lemma_first_unsupported(line.args);
}

proof fn lemma_first_unsupported(alts: Seq<Seq<char>>)
    ensures
        first_unsupported(alts) is None ==> forall|i: int|
            0 <= i < alts.len() ==> method_supported(#[trigger] alts[i]),
    decreases alts.len(),
{
    if alts.len() > 0 {
        lemma_first_unsupported(alts.skip(1));
        assert forall|i: int| 1 <= i < alts.len() implies alts[i] == #[trigger] alts.skip(1)[i
            - 1] by {}
        if first_unsupported(alts) is None {
            assert forall|i: int| 0 <= i < alts.len() implies method_supported(
                #[trigger] alts[i],
            ) by {
                if i > 0 {
                    assert(method_supported(alts.skip(1)[i - 1]));
                }
            }
        }
    }
}

/// A directive on the server's start has a keyword of file scope.
proof fn lemma_startup_is_file_scope(o: ServerOptionsView, line: ParsedLineView)
    ensures
        with_startup_directive(o, line) is Some ==> invalid_in_match(line.keyword),
{
    reveal(with_startup_directive);
    let f = views(FILE_SCOPE@);
    assert(f[0] == "port"@ && f[1] == "listenaddress"@ && f[2] == "hostkey"@);
    assert(f[3] == "addressfamily"@ && f[4] == "pidfile"@ && f[5] == "loglevel"@);
    assert(f[6] == "compression"@ && f[7] == "rekeylimit"@ && f[8] == "logingracetime"@);
    assert(f[9] == "maxstartups"@ && f[10] == "strictmodes"@ && f[12] == "subsystem"@);
    assert(f[13] == "permittunnel"@);
}

/// A directive that a `Match` block can hold leaves file-scope options alone.
proof fn lemma_directive_in_match(o: ServerOptionsView, line: ParsedLineView)
    requires
        !invalid_in_match(line.keyword),
    ensures
        with_directive(o, line) matches Ok(r) ==> o.same_file_scope(r),
{
    lemma_startup_is_file_scope(o, line);
    assert(with_login_directive(o, line) matches Some(Ok(r)) ==> o.same_file_scope(r)) by {
        reveal(with_login_directive);
    }
    assert(with_algorithm_directive(o, line) matches Some(Ok(r)) ==> o.same_file_scope(r)) by {
        reveal(with_algorithm_directive);
    }
    assert(with_session_directive(o, line) matches Some(Ok(r)) ==> o.same_file_scope(r)) by {
        reveal(with_session_directive);
    }
}

impl SshServerConfigView {
    /// What holds of every file that was understood: no way to log in but by
    /// public key is turned on, algorithm lists can be negotiated, every block
    /// has a condition, and no block sets an option that has a meaning at file
    /// scope alone.
    pub open spec fn sound(self) -> bool {
        &&& self.global.publickey_only()
        &&& self.global.negotiable()
        &&& forall|i: int|
            #![trigger self.match_blocks[i]]
            0 <= i < self.match_blocks.len() ==> {
                &&& self.match_blocks[i].conditions.len() > 0
                &&& self.match_blocks[i].opts.publickey_only()
                &&& self.match_blocks[i].opts.negotiable()
                &&& self.match_blocks[i].opts.file_scope_unset()
            }
    }
}

/// Every file that is understood is sound.
pub proof fn lemma_parsed_is_sound(lines: Seq<ParsedLineView>)
    ensures
        SshServerConfigView::of_lines(lines) matches Ok(cfg) ==> cfg.sound(),
    decreases lines.len(),
{
    if lines.len() > 0 {
        lemma_parsed_is_sound(lines.drop_last());
        if let Ok(cfg) = SshServerConfigView::of_lines(lines.drop_last()) {
            lemma_line_is_sound(cfg, lines.last());
        }
    }
}

proof fn lemma_line_is_sound(cfg: SshServerConfigView, line: ParsedLineView)
    requires
        cfg.sound(),
    ensures
        cfg.with_line(line) matches Ok(next) ==> next.sound(),
{
    let blocks = cfg.match_blocks;
    if let Ok(next) = cfg.with_line(line) {
        if line.keyword == "match"@ {
            lemma_match_line_is_not_empty(line.args, line.line_no, MatchSide::Server);
        } else if blocks.len() == 0 {
            lemma_directive_is_safe(cfg.global, line);
        } else {
            let last = blocks.last();
            assert(last == blocks[blocks.len() - 1]);
            lemma_directive_is_safe(last.opts, line);
            lemma_directive_in_match(last.opts, line);
        }
    }
}

/// What applies to a connection is as sound as the file: no way to log in but
/// by public key is turned on, lists can be negotiated, and file-scope options
/// are those of the file.
pub proof fn lemma_resolved_is_sound(
    cfg: SshServerConfigView,
    ctx: MatchContextView,
    policy: ExecPolicy,
    answers: Seq<bool>,
)
    requires
        cfg.sound(),
    ensures
        cfg.resolved(ctx, policy, answers) matches Step::Done(r) ==> {
            &&& r.publickey_only()
            &&& r.negotiable()
            &&& cfg.global.same_file_scope(r)
        },
{
    lemma_blocks_are_sound(cfg.global, cfg.match_blocks, ctx, policy, answers);
}

proof fn lemma_blocks_are_sound(
    out: ServerOptionsView,
    blocks: Seq<ServerMatchBlockView>,
    ctx: MatchContextView,
    policy: ExecPolicy,
    answers: Seq<bool>,
)
    requires
        out.publickey_only(),
        out.negotiable(),
        forall|i: int|
            #![trigger blocks[i]]
            0 <= i < blocks.len() ==> {
                &&& blocks[i].opts.publickey_only()
                &&& blocks[i].opts.negotiable()
                &&& blocks[i].opts.file_scope_unset()
            },
    ensures
        blocks_given(out, blocks, ctx, policy, answers) matches Step::Done(r) ==> {
            &&& r.publickey_only()
            &&& r.negotiable()
            &&& out.same_file_scope(r)
        },
    decreases blocks.len(),
{
    if blocks.len() > 0 {
        if let (Step::Done(applies), used) = block_given(
            blocks[0].conditions,
            ctx,
            policy,
            answers,
        ) {
            let next = if applies {
                out.with(blocks[0].opts)
            } else {
                out
            };
            assert(out.same_file_scope(next)) by {
                assert(out.listen_addresses + blocks[0].opts.listen_addresses
                    =~= out.listen_addresses);
                assert(out.host_key_files + blocks[0].opts.host_key_files =~= out.host_key_files);
            }
            assert forall|i: int| 0 <= i < blocks.skip(1).len() implies blocks.skip(1)[i]
                == blocks[i + 1] by {}
            lemma_blocks_are_sound(next, blocks.skip(1), ctx, policy, answers.skip(used as int));
        }
    }
}

} // verus!
