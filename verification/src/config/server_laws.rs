//! What each line of an `sshd_config` file does: which option it sets, to what,
//! and for which connections.

use super::algos::{resolution, AlgoCategory};
use super::client_laws::{writable, written};
use super::match_block::{
    block_given, lemma_block_is_conjunction, lemma_exec_denied, match_line, ExecPolicy,
    MatchConditionView, MatchContextView, MatchSide, Step,
};
use super::parser::ParsedLineView;
use super::server::{
    blocks_given, entries, entry, opt_list, with_algorithm_directive, with_directive,
    with_login_directive, with_session_directive, with_startup_directive, AddressFamily,
    Compression, GatewayPorts, HostPort, PermitRootLogin, RekeyLimit, ServerMatchBlock,
    ServerMatchBlockView, ServerOptions, ServerOptionsView, SshServerConfig, SshServerConfigView,
    TcpForwarding,
};
use super::value::{duration, duration_value, size_bytes};
use super::ConfigErrorView;
use crate::text::{
    decimal, first_index, is_digit, join, last_index, lemma_decimal, lemma_first_index,
    lemma_last_index, lower_text, opt_view, parse_unsigned, upper_text, views, without_plus,
};
use vstd::prelude::*;

verus! {

/// Each option stands for itself, and each list for its entries in order.
pub proof fn lemma_options_stand_for_themselves(o: ServerOptions)
    ensures
        o@.port == o.port,
        o@.listen_addresses == Seq::new(o.listen_addresses@.len(), |i: int| o.listen_addresses@[i]@),
        o@.host_key_files == Seq::new(o.host_key_files@.len(), |i: int| o.host_key_files@[i]@),
        o@.authorized_keys_file == opt_view(o.authorized_keys_file),
        o@.allow_users == Seq::new(o.allow_users@.len(), |i: int| o.allow_users@[i]@),
        o@.login_grace_time == o.login_grace_time,
        o@.max_startups == o.max_startups,
        o@.allow_agent_forwarding == o.allow_agent_forwarding,
        o@.x11_forwarding == o.x11_forwarding,
        o@.accept_env == Seq::new(o.accept_env@.len(), |i: int| o.accept_env@[i]@),
        o@.strict_modes == o.strict_modes,
        o@.log_level == o.log_level,
        o@.sftp_enabled == o.sftp_enabled,
        o@.sftp_read_only == o.sftp_read_only,
        o@.sftp_root == opt_view(o.sftp_root),
        o@.scp_enabled == o.scp_enabled,
        o@.permit_root_login == o.permit_root_login,
        o@.ciphers == opt_list(o.ciphers),
        o@.macs == opt_list(o.macs),
        o@.kex_algorithms == opt_list(o.kex_algorithms),
        o@.host_key_algorithms == opt_list(o.host_key_algorithms),
        o@.pubkey_authentication == o.pubkey_authentication,
        o@.password_authentication == o.password_authentication,
        o@.kbd_interactive_authentication == o.kbd_interactive_authentication,
        o@.authentication_methods == opt_list(o.authentication_methods),
        o@.max_auth_tries == o.max_auth_tries,
        o@.deny_users == Seq::new(o.deny_users@.len(), |i: int| o.deny_users@[i]@),
        o@.allow_groups == Seq::new(o.allow_groups@.len(), |i: int| o.allow_groups@[i]@),
        o@.deny_groups == Seq::new(o.deny_groups@.len(), |i: int| o.deny_groups@[i]@),
        o@.banner == opt_view(o.banner),
        o@.max_sessions == o.max_sessions,
        o@.allow_tcp_forwarding == o.allow_tcp_forwarding,
        o@.permit_open == opt_list(o.permit_open),
        o@.permit_listen == opt_list(o.permit_listen),
        o@.gateway_ports == o.gateway_ports,
        o@.force_command == opt_view(o.force_command),
        o@.chroot_directory == opt_view(o.chroot_directory),
        o@.client_alive_interval == o.client_alive_interval,
        o@.client_alive_count_max == o.client_alive_count_max,
        o@.print_motd == o.print_motd,
        o@.compression == o.compression,
        o@.rekey_limit == o.rekey_limit,
        o@.address_family == o.address_family,
        o@.pid_file == opt_view(o.pid_file),
        o@.pid_file_set == o.pid_file_set,
        o@.subsystem_sftp == o.subsystem_sftp,
{
    assert(o@.listen_addresses =~= Seq::new(o.listen_addresses@.len(), |i: int| o.listen_addresses@[i]@));
    assert(o@.host_key_files =~= Seq::new(o.host_key_files@.len(), |i: int| o.host_key_files@[i]@));
    assert(o@.allow_users =~= Seq::new(o.allow_users@.len(), |i: int| o.allow_users@[i]@));
    assert(o@.accept_env =~= Seq::new(o.accept_env@.len(), |i: int| o.accept_env@[i]@));
    assert(o@.deny_users =~= Seq::new(o.deny_users@.len(), |i: int| o.deny_users@[i]@));
    assert(o@.allow_groups =~= Seq::new(o.allow_groups@.len(), |i: int| o.allow_groups@[i]@));
    assert(o@.deny_groups =~= Seq::new(o.deny_groups@.len(), |i: int| o.deny_groups@[i]@));
}

/// The first value of a scalar wins, and lists concatenate.
pub proof fn lemma_first_value_wins(a: ServerOptionsView, b: ServerOptionsView)
    ensures
        a.with(b).port == (if a.port is Some {
            a.port
        } else {
            b.port
        }),
        a.with(b).listen_addresses == a.listen_addresses + b.listen_addresses,
        a.with(b).host_key_files == a.host_key_files + b.host_key_files,
        a.with(b).authorized_keys_file == (if a.authorized_keys_file is Some {
            a.authorized_keys_file
        } else {
            b.authorized_keys_file
        }),
        a.with(b).allow_users == a.allow_users + b.allow_users,
        a.with(b).login_grace_time == (if a.login_grace_time is Some {
            a.login_grace_time
        } else {
            b.login_grace_time
        }),
        a.with(b).max_startups == (if a.max_startups is Some {
            a.max_startups
        } else {
            b.max_startups
        }),
        a.with(b).allow_agent_forwarding == (if a.allow_agent_forwarding is Some {
            a.allow_agent_forwarding
        } else {
            b.allow_agent_forwarding
        }),
        a.with(b).x11_forwarding == (if a.x11_forwarding is Some {
            a.x11_forwarding
        } else {
            b.x11_forwarding
        }),
        a.with(b).accept_env == a.accept_env + b.accept_env,
        a.with(b).strict_modes == (if a.strict_modes is Some {
            a.strict_modes
        } else {
            b.strict_modes
        }),
        a.with(b).log_level == (if a.log_level is Some {
            a.log_level
        } else {
            b.log_level
        }),
        a.with(b).sftp_enabled == (if a.sftp_enabled is Some {
            a.sftp_enabled
        } else {
            b.sftp_enabled
        }),
        a.with(b).sftp_read_only == (if a.sftp_read_only is Some {
            a.sftp_read_only
        } else {
            b.sftp_read_only
        }),
        a.with(b).sftp_root == (if a.sftp_root is Some {
            a.sftp_root
        } else {
            b.sftp_root
        }),
        a.with(b).scp_enabled == (if a.scp_enabled is Some {
            a.scp_enabled
        } else {
            b.scp_enabled
        }),
        a.with(b).permit_root_login == (if a.permit_root_login is Some {
            a.permit_root_login
        } else {
            b.permit_root_login
        }),
        a.with(b).ciphers == (if a.ciphers is Some {
            a.ciphers
        } else {
            b.ciphers
        }),
        a.with(b).macs == (if a.macs is Some {
            a.macs
        } else {
            b.macs
        }),
        a.with(b).kex_algorithms == (if a.kex_algorithms is Some {
            a.kex_algorithms
        } else {
            b.kex_algorithms
        }),
        a.with(b).host_key_algorithms == (if a.host_key_algorithms is Some {
            a.host_key_algorithms
        } else {
            b.host_key_algorithms
        }),
        a.with(b).pubkey_authentication == (if a.pubkey_authentication is Some {
            a.pubkey_authentication
        } else {
            b.pubkey_authentication
        }),
        a.with(b).password_authentication == (if a.password_authentication is Some {
            a.password_authentication
        } else {
            b.password_authentication
        }),
        a.with(b).kbd_interactive_authentication == (if a.kbd_interactive_authentication is Some {
            a.kbd_interactive_authentication
        } else {
            b.kbd_interactive_authentication
        }),
        a.with(b).authentication_methods == (if a.authentication_methods is Some {
            a.authentication_methods
        } else {
            b.authentication_methods
        }),
        a.with(b).max_auth_tries == (if a.max_auth_tries is Some {
            a.max_auth_tries
        } else {
            b.max_auth_tries
        }),
        a.with(b).deny_users == a.deny_users + b.deny_users,
        a.with(b).allow_groups == a.allow_groups + b.allow_groups,
        a.with(b).deny_groups == a.deny_groups + b.deny_groups,
        a.with(b).banner == (if a.banner is Some {
            a.banner
        } else {
            b.banner
        }),
        a.with(b).max_sessions == (if a.max_sessions is Some {
            a.max_sessions
        } else {
            b.max_sessions
        }),
        a.with(b).allow_tcp_forwarding == (if a.allow_tcp_forwarding is Some {
            a.allow_tcp_forwarding
        } else {
            b.allow_tcp_forwarding
        }),
        a.with(b).permit_open == (if a.permit_open is Some {
            a.permit_open
        } else {
            b.permit_open
        }),
        a.with(b).permit_listen == (if a.permit_listen is Some {
            a.permit_listen
        } else {
            b.permit_listen
        }),
        a.with(b).gateway_ports == (if a.gateway_ports is Some {
            a.gateway_ports
        } else {
            b.gateway_ports
        }),
        a.with(b).force_command == (if a.force_command is Some {
            a.force_command
        } else {
            b.force_command
        }),
        a.with(b).chroot_directory == (if a.chroot_directory is Some {
            a.chroot_directory
        } else {
            b.chroot_directory
        }),
        a.with(b).client_alive_interval == (if a.client_alive_interval is Some {
            a.client_alive_interval
        } else {
            b.client_alive_interval
        }),
        a.with(b).client_alive_count_max == (if a.client_alive_count_max is Some {
            a.client_alive_count_max
        } else {
            b.client_alive_count_max
        }),
        a.with(b).print_motd == (if a.print_motd is Some {
            a.print_motd
        } else {
            b.print_motd
        }),
        a.with(b).compression == (if a.compression is Some {
            a.compression
        } else {
            b.compression
        }),
        a.with(b).rekey_limit == (if a.rekey_limit is Some {
            a.rekey_limit
        } else {
            b.rekey_limit
        }),
        a.with(b).address_family == (if a.address_family is Some {
            a.address_family
        } else {
            b.address_family
        }),
        a.pid_file_set ==> a.with(b).pid_file == a.pid_file,
        !a.pid_file_set && b.pid_file_set ==> a.with(b).pid_file == b.pid_file,
        a.with(b).pid_file_set == (a.pid_file_set || b.pid_file_set),
        a.with(b).subsystem_sftp == (if a.subsystem_sftp is Some {
            a.subsystem_sftp
        } else {
            b.subsystem_sftp
        }),
{
}

/// A directive with one word for its value sets its own option to that word,
/// and no other; `none` stands for no file.
#[verifier::spinoff_prover]
#[verifier::rlimit(40)]
pub proof fn lemma_word_directives(
    o: ServerOptionsView,
    line: ParsedLineView,
    word: Seq<char>,
)
    requires
        line.args == seq![word],
    ensures
        line.keyword == "authorizedkeysfile"@ ==> with_directive(o, line) == Ok::<_, ConfigErrorView>(
            ServerOptionsView { authorized_keys_file: Some(word), ..o },
        ),
        line.keyword == "sftproot"@ ==> with_directive(o, line) == Ok::<_, ConfigErrorView>(
            ServerOptionsView { sftp_root: Some(word), ..o },
        ),
        line.keyword == "listenaddress"@ ==> with_directive(o, line) == Ok::<_, ConfigErrorView>(
            ServerOptionsView { listen_addresses: o.listen_addresses + seq![word], ..o },
        ),
        line.keyword == "hostkey"@ ==> with_directive(o, line) == Ok::<_, ConfigErrorView>(
            ServerOptionsView { host_key_files: o.host_key_files + seq![word], ..o },
        ),
        line.keyword == "banner"@ ==> with_directive(o, line) == Ok::<_, ConfigErrorView>(
            ServerOptionsView { banner: if lower_text(word) == "none"@ { None } else { Some(word) }, ..o },
        ),
        line.keyword == "chrootdirectory"@ ==> with_directive(o, line) == Ok::<_, ConfigErrorView>(
            ServerOptionsView { chroot_directory: if lower_text(word) == "none"@ { None } else { Some(word) }, ..o },
        ),
        line.keyword == "pidfile"@ ==> with_directive(o, line) == Ok::<_, ConfigErrorView>(
            ServerOptionsView { pid_file: if lower_text(word) == "none"@ { None } else { Some(word) }, pid_file_set: true, ..o },
        ),
{
    reveal(with_startup_directive);
    reveal(with_login_directive);
    reveal(with_algorithm_directive);
    reveal(with_session_directive);
    lemma_keyword_shapes();
    assert(o.listen_addresses + seq![word] =~= o.listen_addresses.push(word));
    assert(o.host_key_files + seq![word] =~= o.host_key_files.push(word));
}

/// A directive with the digits of a number sets its own option to it; one on
/// a time takes it for seconds.
#[verifier::spinoff_prover]
#[verifier::rlimit(40)]
pub proof fn lemma_number_directives(
    o: ServerOptionsView,
    line: ParsedLineView,
    n: u32,
)
    requires
        line.args == seq![decimal(n as nat)],
    ensures
        line.keyword == "maxauthtries"@ ==> with_directive(o, line) == Ok::<_, ConfigErrorView>(
            ServerOptionsView { max_auth_tries: Some(n), ..o },
        ),
        line.keyword == "maxsessions"@ ==> with_directive(o, line) == Ok::<_, ConfigErrorView>(
            ServerOptionsView { max_sessions: Some(n), ..o },
        ),
        line.keyword == "clientalivecountmax"@ ==> with_directive(o, line) == Ok::<_, ConfigErrorView>(
            ServerOptionsView { client_alive_count_max: Some(n), ..o },
        ),
        line.keyword == "maxstartups"@ ==> with_directive(o, line) == Ok::<_, ConfigErrorView>(
            ServerOptionsView { max_startups: Some(n), ..o },
        ),
        line.keyword == "logingracetime"@ ==> with_directive(o, line) == Ok::<_, ConfigErrorView>(
            ServerOptionsView { login_grace_time: Some(n), ..o },
        ),
        line.keyword == "clientaliveinterval"@ ==> with_directive(o, line) == Ok::<_, ConfigErrorView>(
            ServerOptionsView { client_alive_interval: Some(n), ..o },
        ),
        n <= 65535 && line.keyword == "port"@ ==> with_directive(o, line) == Ok::<_, ConfigErrorView>(
            ServerOptionsView { port: Some(n as u16), ..o },
        ),
{
    reveal(with_startup_directive);
    reveal(with_login_directive);
    reveal(with_algorithm_directive);
    reveal(with_session_directive);
    lemma_keyword_shapes();
    lemma_digits(n as nat);
    super::value_laws::lemma_bare_number_is_seconds(n as nat);
}

/// A directive on a time sets its own option to the seconds in it.
#[verifier::spinoff_prover]
#[verifier::rlimit(40)]
pub proof fn lemma_time_directives(o: ServerOptionsView, line: ParsedLineView)
    ensures
        line.keyword == "logingracetime"@ ==> match duration_value(line) {
            Ok(n) => with_directive(o, line) == Ok::<_, ConfigErrorView>(
                ServerOptionsView { login_grace_time: Some(n), ..o },
            ),
            Err(e) => with_directive(o, line) == Err::<ServerOptionsView, _>(e),
        },
        line.keyword == "clientaliveinterval"@ ==> match duration_value(line) {
            Ok(n) => with_directive(o, line) == Ok::<_, ConfigErrorView>(
                ServerOptionsView { client_alive_interval: Some(n), ..o },
            ),
            Err(e) => with_directive(o, line) == Err::<ServerOptionsView, _>(e),
        },
{
    reveal(with_startup_directive);
    reveal(with_login_directive);
    reveal(with_algorithm_directive);
    reveal(with_session_directive);
    lemma_keyword_shapes();
}

/// A switch is on for `yes`, `true` and `on`, and off for `no`, `false` and
/// `off`, in any case; each directive has a switch of its own. What would let
/// somebody in without a key cannot be switched on.
#[verifier::spinoff_prover]
#[verifier::rlimit(40)]
pub proof fn lemma_switch_directives(
    o: ServerOptionsView,
    line: ParsedLineView,
    word: Seq<char>,
    on: bool,
)
    requires
        line.args == seq![word],
        on ==> lower_text(word) == "yes"@ || lower_text(word) == "true"@ || lower_text(word)
            == "on"@,
        !on ==> lower_text(word) == "no"@ || lower_text(word) == "false"@ || lower_text(word)
            == "off"@,
    ensures
        line.keyword == "strictmodes"@ ==> with_directive(o, line) == Ok::<_, ConfigErrorView>(
            ServerOptionsView { strict_modes: Some(on), ..o },
        ),
        line.keyword == "pubkeyauthentication"@ ==> with_directive(o, line) == Ok::<_, ConfigErrorView>(
            ServerOptionsView { pubkey_authentication: Some(on), ..o },
        ),
        line.keyword == "allowagentforwarding"@ ==> with_directive(o, line) == Ok::<_, ConfigErrorView>(
            ServerOptionsView { allow_agent_forwarding: Some(on), ..o },
        ),
        line.keyword == "x11forwarding"@ ==> with_directive(o, line) == Ok::<_, ConfigErrorView>(
            ServerOptionsView { x11_forwarding: Some(on), ..o },
        ),
        line.keyword == "sftpenabled"@ ==> with_directive(o, line) == Ok::<_, ConfigErrorView>(
            ServerOptionsView { sftp_enabled: Some(on), ..o },
        ),
        line.keyword == "sftpreadonly"@ ==> with_directive(o, line) == Ok::<_, ConfigErrorView>(
            ServerOptionsView { sftp_read_only: Some(on), ..o },
        ),
        line.keyword == "scpenabled"@ ==> with_directive(o, line) == Ok::<_, ConfigErrorView>(
            ServerOptionsView { scp_enabled: Some(on), ..o },
        ),
        line.keyword == "printmotd"@ ==> with_directive(o, line) == Ok::<_, ConfigErrorView>(
            ServerOptionsView { print_motd: Some(on), ..o },
        ),
        line.keyword == "passwordauthentication"@ && !on ==> with_directive(o, line) == Ok::<_, ConfigErrorView>(
            ServerOptionsView { password_authentication: Some(false), ..o },
        ),
        line.keyword == "passwordauthentication"@ && on ==> with_directive(o, line) is Err,
        line.keyword == "kbdinteractiveauthentication"@ && !on ==> with_directive(o, line) == Ok::<_, ConfigErrorView>(
            ServerOptionsView { kbd_interactive_authentication: Some(false), ..o },
        ),
        line.keyword == "kbdinteractiveauthentication"@ && on ==> with_directive(o, line) is Err,
        line.keyword == "challengeresponseauthentication"@ && !on ==> with_directive(o, line) == Ok::<_, ConfigErrorView>(
            ServerOptionsView { kbd_interactive_authentication: Some(false), ..o },
        ),
        line.keyword == "challengeresponseauthentication"@ && on ==> with_directive(o, line) is Err,
        line.keyword == "permitemptypasswords"@ ==> with_directive(o, line) is Ok == !on,
{
    reveal(with_startup_directive);
    reveal(with_login_directive);
    reveal(with_algorithm_directive);
    reveal(with_session_directive);
    lemma_keyword_shapes();
    lemma_word_shapes();
}

/// A directive with words for its value adds them to its own list, behind what
/// is there, and to no other.
#[verifier::spinoff_prover]
#[verifier::rlimit(40)]
pub proof fn lemma_list_directives(o: ServerOptionsView, line: ParsedLineView)
    requires
        line.args.len() > 0,
    ensures
        line.keyword == "allowgroups"@ ==> with_directive(o, line) == Ok::<_, ConfigErrorView>(
            ServerOptionsView { allow_groups: o.allow_groups + line.args, ..o },
        ),
        line.keyword == "denygroups"@ ==> with_directive(o, line) == Ok::<_, ConfigErrorView>(
            ServerOptionsView { deny_groups: o.deny_groups + line.args, ..o },
        ),
        line.keyword == "acceptenv"@ ==> with_directive(o, line) == Ok::<_, ConfigErrorView>(
            ServerOptionsView { accept_env: o.accept_env + line.args, ..o },
        ),
        line.keyword == "forcecommand"@ ==> with_directive(o, line) == Ok::<_, ConfigErrorView>(
            ServerOptionsView { force_command: Some(join(line.args, " "@)), ..o },
        ),
        line.keyword == "allowusers"@ ==> (with_directive(o, line) matches Ok(r) ==> r == (
            ServerOptionsView { allow_users: o.allow_users + line.args, ..o }
        )),
        line.keyword == "allowusers"@ && (forall|i: int|
            0 <= i < line.args.len() ==> !(#[trigger] line.args[i]).contains('@'))
            ==> with_directive(o, line) is Ok,
        line.keyword == "denyusers"@ ==> (with_directive(o, line) matches Ok(r) ==> r == (
            ServerOptionsView { deny_users: o.deny_users + line.args, ..o }
        )),
        line.keyword == "denyusers"@ && (forall|i: int|
            0 <= i < line.args.len() ==> !(#[trigger] line.args[i]).contains('@'))
            ==> with_directive(o, line) is Ok,
{
    reveal(with_startup_directive);
    reveal(with_login_directive);
    reveal(with_algorithm_directive);
    reveal(with_session_directive);
    lemma_keyword_shapes();
    lemma_names_without_hosts(line.args);
}

/// `AuthenticationMethods` is the list of its words where each of them can be
/// honoured, and is refused otherwise. A tunnel is always refused.
#[verifier::spinoff_prover]
#[verifier::rlimit(40)]
pub proof fn lemma_method_directives(o: ServerOptionsView, line: ParsedLineView)
    ensures
        line.keyword == "authenticationmethods"@ ==> match with_directive(o, line) {
            Ok(r) => r == (ServerOptionsView {
                authentication_methods: Some(line.args),
                ..o
            }),
            Err(_) => super::server::methods_value(line) is Err,
        },
        line.keyword == "permittunnel"@ ==> with_directive(o, line) is Err,
{
    reveal(with_startup_directive);
    reveal(with_login_directive);
    reveal(with_algorithm_directive);
    reveal(with_session_directive);
    lemma_keyword_shapes();
}

/// A line whose keyword is none of those known is an error.
pub proof fn lemma_unknown_directives(o: ServerOptionsView, line: ParsedLineView)
    ensures
        ({
            let kw = line.keyword;
            let known = kw == "port"@ || kw == "listenaddress"@ || kw == "hostkey"@
                || kw == "addressfamily"@ || kw == "pidfile"@ || kw == "loglevel"@
                || kw == "compression"@ || kw == "rekeylimit"@ || kw == "logingracetime"@
                || kw == "maxstartups"@ || kw == "strictmodes"@ || kw == "subsystem"@
                || kw == "permittunnel"@ || kw == "authorizedkeysfile"@ || kw == "allowusers"@
                || kw == "denyusers"@ || kw == "allowgroups"@ || kw == "denygroups"@
                || kw == "permitrootlogin"@ || kw == "pubkeyauthentication"@
                || kw == "passwordauthentication"@ || kw == "kbdinteractiveauthentication"@
                || kw == "challengeresponseauthentication"@ || kw == "authenticationmethods"@
                || kw == "permitemptypasswords"@ || kw == "maxauthtries"@ || kw == "banner"@
                || kw == "ciphers"@ || kw == "macs"@ || kw == "kexalgorithms"@
                || kw == "hostkeyalgorithms"@ || kw == "casignaturealgorithms"@
                || kw == "allowagentforwarding"@ || kw == "x11forwarding"@ || kw == "acceptenv"@
                || kw == "sftpenabled"@ || kw == "sftpreadonly"@ || kw == "sftproot"@
                || kw == "scpenabled"@ || kw == "maxsessions"@ || kw == "allowtcpforwarding"@
                || kw == "permitopen"@ || kw == "permitlisten"@ || kw == "gatewayports"@
                || kw == "forcecommand"@ || kw == "chrootdirectory"@
                || kw == "clientaliveinterval"@ || kw == "clientalivecountmax"@
                || kw == "printmotd"@;
            !known ==> with_directive(o, line) is Err
        }),
{
    reveal(with_startup_directive);
    reveal(with_login_directive);
    reveal(with_algorithm_directive);
    reveal(with_session_directive);
}

/// What the words of `AddressFamily`, `Compression` and `GatewayPorts` stand
/// for, in any case.
#[verifier::spinoff_prover]
#[verifier::rlimit(40)]
pub proof fn lemma_connection_choices(
    o: ServerOptionsView,
    line: ParsedLineView,
    word: Seq<char>,
)
    requires
        line.args == seq![word],
    ensures
        line.keyword == "addressfamily"@ ==> match with_directive(o, line) {
            Ok(r) => {
                let s = lower_text(word);
                &&& r == (ServerOptionsView { address_family: r.address_family, ..o })
                &&& r.address_family == Some(AddressFamily::Any) <==> s == "any"@
                &&& r.address_family == Some(AddressFamily::Inet) <==> s == "inet"@
                &&& r.address_family == Some(AddressFamily::Inet6) <==> s == "inet6"@
                &&& r.address_family is Some
            },
            Err(_) => ({
                let s = lower_text(word);
                s != "any"@ && s != "inet"@ && s != "inet6"@
            }),
        },
        line.keyword == "compression"@ ==> match with_directive(o, line) {
            Ok(r) => {
                let s = lower_text(word);
                &&& r == (ServerOptionsView { compression: r.compression, ..o })
                &&& r.compression == Some(Compression::No) <==> s == "no"@ || s == "false"@ || s == "off"@
                &&& r.compression == Some(Compression::Yes) <==> s == "yes"@ || s == "true"@ || s == "on"@
                &&& r.compression == Some(Compression::Delayed) <==> s == "delayed"@
                &&& r.compression is Some
            },
            Err(_) => ({
                let s = lower_text(word);
                s != "no"@ && s != "false"@ && s != "off"@ && s != "yes"@ && s != "true"@ && s != "on"@ && s != "delayed"@
            }),
        },
        line.keyword == "gatewayports"@ ==> match with_directive(o, line) {
            Ok(r) => {
                let s = lower_text(word);
                &&& r == (ServerOptionsView { gateway_ports: r.gateway_ports, ..o })
                &&& r.gateway_ports == Some(GatewayPorts::No) <==> s == "no"@
                &&& r.gateway_ports == Some(GatewayPorts::Yes) <==> s == "yes"@
                &&& r.gateway_ports == Some(GatewayPorts::ClientSpecified) <==> s == "clientspecified"@
                &&& r.gateway_ports is Some
            },
            Err(_) => ({
                let s = lower_text(word);
                s != "no"@ && s != "yes"@ && s != "clientspecified"@
            }),
        },
{
    reveal(with_startup_directive);
    reveal(with_login_directive);
    reveal(with_algorithm_directive);
    reveal(with_session_directive);
    lemma_keyword_shapes();
    lemma_word_shapes();
}

/// What the words of `AllowTcpForwarding` and `PermitRootLogin` stand for, in
/// any case.
#[verifier::spinoff_prover]
#[verifier::rlimit(40)]
pub proof fn lemma_permission_choices(
    o: ServerOptionsView,
    line: ParsedLineView,
    word: Seq<char>,
)
    requires
        line.args == seq![word],
    ensures
        line.keyword == "allowtcpforwarding"@ ==> match with_directive(o, line) {
            Ok(r) => {
                let s = lower_text(word);
                &&& r == (ServerOptionsView { allow_tcp_forwarding: r.allow_tcp_forwarding, ..o })
                &&& r.allow_tcp_forwarding == Some(TcpForwarding::All) <==> s == "yes"@ || s == "all"@
                &&& r.allow_tcp_forwarding == Some(TcpForwarding::No) <==> s == "no"@
                &&& r.allow_tcp_forwarding == Some(TcpForwarding::Local) <==> s == "local"@
                &&& r.allow_tcp_forwarding == Some(TcpForwarding::Remote) <==> s == "remote"@
                &&& r.allow_tcp_forwarding is Some
            },
            Err(_) => ({
                let s = lower_text(word);
                s != "yes"@ && s != "all"@ && s != "no"@ && s != "local"@ && s != "remote"@
            }),
        },
        line.keyword == "permitrootlogin"@ ==> match with_directive(o, line) {
            Ok(r) => {
                let s = lower_text(word);
                &&& r == (ServerOptionsView { permit_root_login: r.permit_root_login, ..o })
                &&& r.permit_root_login == Some(PermitRootLogin::Yes) <==> s == "yes"@ || s == "true"@ || s == "on"@
                &&& r.permit_root_login == Some(PermitRootLogin::No) <==> s == "no"@ || s == "false"@ || s == "off"@
                &&& r.permit_root_login == Some(PermitRootLogin::ProhibitPassword) <==> s == "prohibit-password"@ || s == "without-password"@
                &&& r.permit_root_login is Some
            },
            Err(_) => ({
                let s = lower_text(word);
                s != "yes"@ && s != "true"@ && s != "on"@ && s != "no"@ && s != "false"@ && s != "off"@ && s != "prohibit-password"@ && s != "without-password"@
            }),
        },
{
    reveal(with_startup_directive);
    reveal(with_login_directive);
    reveal(with_algorithm_directive);
    reveal(with_session_directive);
    lemma_keyword_shapes();
    lemma_word_shapes();
}

/// What the words of `LogLevel` stand for, in any case.
#[verifier::spinoff_prover]
#[verifier::rlimit(40)]
pub proof fn lemma_level_choices(
    o: ServerOptionsView,
    line: ParsedLineView,
    word: Seq<char>,
)
    requires
        line.args == seq![word],
    ensures
        line.keyword == "loglevel"@ ==> match with_directive(o, line) {
            Ok(r) => {
                let s = upper_text(word);
                &&& r == (ServerOptionsView { log_level: r.log_level, ..o })
                &&& r.log_level == Some(0u8) <==> s == "QUIET"@ || s == "FATAL"@ || s == "ERROR"@ || s == "INFO"@
                &&& r.log_level == Some(1u8) <==> s == "VERBOSE"@ || s == "DEBUG"@ || s == "DEBUG1"@
                &&& r.log_level == Some(2u8) <==> s == "DEBUG2"@
                &&& r.log_level == Some(3u8) <==> s == "DEBUG3"@
                &&& r.log_level is Some
            },
            Err(_) => ({
                let s = upper_text(word);
                s != "QUIET"@ && s != "FATAL"@ && s != "ERROR"@ && s != "INFO"@ && s != "VERBOSE"@ && s != "DEBUG"@ && s != "DEBUG1"@ && s != "DEBUG2"@ && s != "DEBUG3"@
            }),
        },
{
    reveal(with_startup_directive);
    reveal(with_login_directive);
    reveal(with_algorithm_directive);
    reveal(with_session_directive);
    lemma_keyword_shapes();
    lemma_level_shapes();
}

/// A directive on algorithms sets its own list to what the names in it resolve
/// to in their own family.
#[verifier::spinoff_prover]
#[verifier::rlimit(40)]
pub proof fn lemma_algorithm_directives(o: ServerOptionsView, line: ParsedLineView)
    ensures
        line.keyword == "ciphers"@ ==> match resolution(
            AlgoCategory::Cipher,
            line.args,
            line.line_no,
            "Ciphers"@,
        ) {
            Ok(names) => with_directive(o, line) == Ok::<_, ConfigErrorView>(
                ServerOptionsView { ciphers: Some(names), ..o },
            ),
            Err(e) => with_directive(o, line) == Err::<ServerOptionsView, _>(e),
        },
        line.keyword == "macs"@ ==> match resolution(
            AlgoCategory::Mac,
            line.args,
            line.line_no,
            "MACs"@,
        ) {
            Ok(names) => with_directive(o, line) == Ok::<_, ConfigErrorView>(
                ServerOptionsView { macs: Some(names), ..o },
            ),
            Err(e) => with_directive(o, line) == Err::<ServerOptionsView, _>(e),
        },
        line.keyword == "kexalgorithms"@ ==> match resolution(
            AlgoCategory::Kex,
            line.args,
            line.line_no,
            "KexAlgorithms"@,
        ) {
            Ok(names) => with_directive(o, line) == Ok::<_, ConfigErrorView>(
                ServerOptionsView { kex_algorithms: Some(names), ..o },
            ),
            Err(e) => with_directive(o, line) == Err::<ServerOptionsView, _>(e),
        },
        line.keyword == "hostkeyalgorithms"@ ==> match resolution(
            AlgoCategory::HostKey,
            line.args,
            line.line_no,
            "HostKeyAlgorithms"@,
        ) {
            Ok(names) => with_directive(o, line) == Ok::<_, ConfigErrorView>(
                ServerOptionsView { host_key_algorithms: Some(names), ..o },
            ),
            Err(e) => with_directive(o, line) == Err::<ServerOptionsView, _>(e),
        },
        line.keyword == "casignaturealgorithms"@ ==> with_directive(o, line) is Err,
        line.keyword == "permittunnel"@ ==> with_directive(o, line) is Err,
{
    reveal(with_startup_directive);
    reveal(with_login_directive);
    reveal(with_algorithm_directive);
    reveal(with_session_directive);
    lemma_keyword_shapes();
}

/// `PermitOpen` and `PermitListen` each set their own list: to nothing for
/// `none`, to what permits every host and port for `any`, and else to the entries
/// of the line.
#[verifier::spinoff_prover]
#[verifier::rlimit(40)]
pub proof fn lemma_permission_lists(
    o: ServerOptionsView,
    line: ParsedLineView,
    host: Seq<char>,
    port: u16,
)
    requires
        line.args.len() > 0,
    ensures
        line.keyword == "permitopen"@ && lower_text(line.args[0]) == "none"@ && line.args.len() == 1
            ==> with_directive(o, line) == Ok::<_, ConfigErrorView>(
            ServerOptionsView { permit_open: Some(Seq::empty()), ..o },
        ),
        line.keyword == "permitopen"@ && lower_text(line.args[0]) == "any"@ && line.args.len() == 1
            ==> (with_directive(o, line) matches Ok(r) && r == (ServerOptionsView {
            permit_open: r.permit_open,
            ..o
        }) && r.permit_open is Some && r.permit_open->0.len() == 1 && r.permit_open->0[0].permits(host, port)),
        line.keyword == "permitopen"@ && line.args.len() > 1 ==> match entries(line.args, line) {
            Ok(list) => with_directive(o, line) == Ok::<_, ConfigErrorView>(
                ServerOptionsView { permit_open: Some(list), ..o },
            ),
            Err(e) => with_directive(o, line) == Err::<ServerOptionsView, _>(e),
        },
        line.keyword == "permitlisten"@ && lower_text(line.args[0]) == "none"@ && line.args.len() == 1
            ==> with_directive(o, line) == Ok::<_, ConfigErrorView>(
            ServerOptionsView { permit_listen: Some(Seq::empty()), ..o },
        ),
        line.keyword == "permitlisten"@ && lower_text(line.args[0]) == "any"@ && line.args.len() == 1
            ==> (with_directive(o, line) matches Ok(r) && r == (ServerOptionsView {
            permit_listen: r.permit_listen,
            ..o
        }) && r.permit_listen is Some && r.permit_listen->0.len() == 1 && r.permit_listen->0[0].permits(host, port)),
        line.keyword == "permitlisten"@ && line.args.len() > 1 ==> match entries(line.args, line) {
            Ok(list) => with_directive(o, line) == Ok::<_, ConfigErrorView>(
                ServerOptionsView { permit_listen: Some(list), ..o },
            ),
            Err(e) => with_directive(o, line) == Err::<ServerOptionsView, _>(e),
        },
{
    reveal(with_startup_directive);
    reveal(with_login_directive);
    reveal(with_algorithm_directive);
    reveal(with_session_directive);
    lemma_keyword_shapes();
    lemma_word_shapes();
}

/// `RekeyLimit` takes bytes first and then a time, and `Subsystem` nothing but
/// the built-in SFTP server.
#[verifier::spinoff_prover]
#[verifier::rlimit(40)]
pub proof fn lemma_limit_directives(o: ServerOptionsView, line: ParsedLineView)
    ensures
        line.keyword == "rekeylimit"@ && line.args.len() == 1 && (size_bytes(
            lower_text(line.args[0]),
        ) matches Some(_)) && lower_text(line.args[0]) != "default"@ && lower_text(line.args[0])
            != "none"@ ==> with_directive(o, line) == Ok::<_, ConfigErrorView>(
            ServerOptionsView {
                rekey_limit: Some(
                    RekeyLimit { max_bytes: size_bytes(lower_text(line.args[0])), max_seconds: None },
                ),
                ..o
            },
        ),
        line.keyword == "rekeylimit"@ && line.args.len() == 2 && lower_text(line.args[0])
            == "default"@ && lower_text(line.args[1]) != "none"@ && duration(
            line.args[1],
            line,
        ) is Ok ==> with_directive(o, line) == Ok::<_, ConfigErrorView>(
            ServerOptionsView {
                rekey_limit: Some(
                    RekeyLimit {
                        max_bytes: None,
                        max_seconds: Some(duration(line.args[1], line)->Ok_0),
                    },
                ),
                ..o
            },
        ),
        line.keyword == "subsystem"@ ==> (with_directive(o, line) matches Ok(r) ==> r == (
            ServerOptionsView { subsystem_sftp: Some(true), ..o }
        ) && lower_text(line.args[0]) == "sftp"@ && lower_text(line.args[1]) == "internal-sftp"@),
{
    reveal(with_startup_directive);
    reveal(with_login_directive);
    reveal(with_algorithm_directive);
    reveal(with_session_directive);
    lemma_keyword_shapes();
    lemma_word_shapes();
}

/// An entry of `PermitOpen` or `PermitListen`: `host:port` permits that host and
/// port alone, `host:*` every port of that host, and `*:port` that port of every
/// host. A host may stand in brackets.
pub proof fn lemma_entries(host: Seq<char>, port: u16, brackets: bool, asked: Seq<char>, n: u16)
    requires
        host.len() > 0,
        !host.contains(':') || brackets,
        writable(host, brackets),
    ensures
        ({
            let one = entry(written(host, port, brackets));
            let any = entry(
                if brackets {
                    seq!['['] + host + seq![']', ':'] + "*"@
                } else {
                    host + seq![':'] + "*"@
                },
            );
            &&& one is Some && any is Some
            &&& one->0.permits(asked, n) <==> (host == "*"@ || host == asked) && n == port
            &&& any->0.permits(asked, n) <==> host == "*"@ || host == asked
        }),
{
    lemma_digits(port as nat);
    lemma_decimal(port as nat);
    lemma_word_shapes();
    let d = decimal(port as nat);
    reveal_strlit("*");
    assert("*"@ =~= seq!['*']);
    assert(is_digit(d[0]));
    lemma_halves(host, d, brackets);
    lemma_halves(host, "*"@, brackets);
    if brackets {
        assert(written(host, port, brackets) =~= seq!['['] + host + seq![']', ':'] + d);
    } else {
        assert(written(host, port, brackets) =~= host + seq![':'] + d);
    }
}

proof fn lemma_halves(host: Seq<char>, port: Seq<char>, brackets: bool)
    requires
        host.len() > 0,
        !host.contains(':') || brackets,
        writable(host, brackets),
        !port.contains(':'),
    ensures
        super::server::entry_halves(
            if brackets {
                seq!['['] + host + seq![']', ':'] + port
            } else {
                host + seq![':'] + port
            },
        ) == Some((host, port)),
{
    let n = host.len() as int;
    if brackets {
        let s = seq!['['] + host + seq![']', ':'] + port;
        let rest = s.skip(1);
        assert(rest =~= host + seq![']', ':'] + port);
        lemma_first_index(rest, ']');
        assert(rest[n] == ']');
        assert(rest.contains(']'));
        assert forall|k: int| 0 <= k < n implies rest[k] != ']' by {
            assert(host.contains(host[k]));
        }
        assert(first_index(rest, ']') == Some(n));
        assert(rest.take(n) =~= host);
        assert(rest.skip(n + 2) =~= port);
    } else {
        let s = host + seq![':'] + port;
        lemma_last_index(s, ':');
        assert(s[n] == ':');
        assert(s.contains(':'));
        assert forall|k: int| n < k < s.len() implies s[k] != ':' by {
            assert(port.contains(port[k - n - 1]));
        }
        assert(last_index(s, ':') == Some(n));
        assert(s.take(n) =~= host);
        assert(s.skip(n + 1) =~= port);
        assert(s[0] == host[0]);
    }
}

/// A `Match` line and the directives after it apply to the connections for which
/// all its criteria hold, after all that stands before it, and to no others.
pub proof fn lemma_match_block(
    before: Seq<ParsedLineView>,
    line: ParsedLineView,
    directive: ParsedLineView,
    ctx: MatchContextView,
)
    requires
        line.keyword == "match"@,
        match_line(line.args, line.line_no, MatchSide::Server) is Ok,
        SshServerConfigView::of_lines(before) is Ok,
        SshServerConfigView::of_lines(before.push(line).push(directive)) is Ok,
        directive.keyword != "match"@,
    ensures
        ({
            let conds = match_line(line.args, line.line_no, MatchSide::Server)->Ok_0;
            let none = Seq::<bool>::empty();
            let old_cfg = SshServerConfigView::of_lines(before)->Ok_0;
            let cfg = SshServerConfigView::of_lines(before.push(line).push(directive))->Ok_0;
            let found = old_cfg.resolved(ctx, ExecPolicy::Deny, none);
            let set = with_directive(ServerOptionsView::unset(), directive);
            &&& found is Done && set is Ok
            &&& cfg.resolved(ctx, ExecPolicy::Deny, none) == Step::Done(
                if forall|i: int| 0 <= i < conds.len() ==> (#[trigger] conds[i]).holds(ctx) {
                    found->Done_0.with(set->Ok_0)
                } else {
                    found->Done_0
                },
            )
        }),
{
    let conds = match_line(line.args, line.line_no, MatchSide::Server)->Ok_0;
    let old_cfg = SshServerConfigView::of_lines(before)->Ok_0;
    let lines = before.push(line);
    assert(lines.drop_last() =~= before);
    assert(lines.push(directive).drop_last() =~= lines);
    let opened = ServerMatchBlockView { conditions: conds, opts: ServerOptionsView::unset() };
    let mid = SshServerConfigView {
        match_blocks: old_cfg.match_blocks.push(opened),
        ..old_cfg
    };
    assert(SshServerConfigView::of_lines(lines) == Ok::<_, ConfigErrorView>(mid));
    assert(mid.match_blocks.drop_last() =~= old_cfg.match_blocks);
    let set = with_directive(ServerOptionsView::unset(), directive);
    assert(mid.with_line(directive) is Ok);
    let last = ServerMatchBlockView { conditions: conds, opts: set->Ok_0 };
    lemma_one_more_block(old_cfg.global, old_cfg.match_blocks, last, ctx);
    super::match_block::lemma_match_line_is_not_empty(line.args, line.line_no, MatchSide::Server);
    lemma_denied_block(conds, ctx);
}

/// With commands denied, a block applies just if all its criteria hold.
proof fn lemma_denied_block(conds: Seq<MatchConditionView>, ctx: MatchContextView)
    ensures
        block_given(conds, ctx, ExecPolicy::Deny, Seq::empty()).0 == Step::Done(
            conds.len() > 0 && forall|i: int|
                0 <= i < conds.len() ==> (#[trigger] conds[i]).holds(ctx),
        ),
{
    if exists|i: int| 0 <= i < conds.len() && #[trigger] conds[i] is Exec {
        let i = choose|i: int| 0 <= i < conds.len() && #[trigger] conds[i] is Exec;
        lemma_exec_denied(conds, ctx, Seq::empty());
        assert(!conds[i].holds(ctx));
    } else {
        lemma_block_is_conjunction(conds, ctx, ExecPolicy::Deny, Seq::empty());
    }
}

/// One more block is looked at after the others.
proof fn lemma_one_more_block(
    out: ServerOptionsView,
    blocks: Seq<ServerMatchBlockView>,
    last: ServerMatchBlockView,
    ctx: MatchContextView,
)
    ensures
        blocks_given(out, blocks, ctx, ExecPolicy::Deny, Seq::empty()) is Done,
        blocks_given(out, blocks.push(last), ctx, ExecPolicy::Deny, Seq::empty()) == Step::Done(
            if block_given(last.conditions, ctx, ExecPolicy::Deny, Seq::empty()).0->Done_0 {
                blocks_given(out, blocks, ctx, ExecPolicy::Deny, Seq::empty())->Done_0.with(
                    last.opts,
                )
            } else {
                blocks_given(out, blocks, ctx, ExecPolicy::Deny, Seq::empty())->Done_0
            },
        ),
    decreases blocks.len(),
{
    let none = Seq::<bool>::empty();
    assert(none.skip(0) =~= none);
    let all = blocks.push(last);
    if blocks.len() == 0 {
        assert(all.skip(1) =~= Seq::<ServerMatchBlockView>::empty());
        lemma_exec_denied(last.conditions, ctx, none);
        reveal_with_fuel(blocks_given, 2);
    } else {
        assert(all.skip(1) =~= blocks.skip(1).push(last));
        lemma_exec_denied(blocks[0].conditions, ctx, none);
        let step = block_given(blocks[0].conditions, ctx, ExecPolicy::Deny, none).0;
        let next = if step->Done_0 {
            out.with(blocks[0].opts)
        } else {
            out
        };
        lemma_one_more_block(next, blocks.skip(1), last, ctx);
    }
}

/// Files, blocks and entries stand for themselves.
pub proof fn lemma_files_stand_for_themselves(
    cfg: SshServerConfig,
    block: ServerMatchBlock,
    e: HostPort,
)
    ensures
        cfg@.global == cfg.global@,
        cfg@.match_blocks == views(cfg.match_blocks@),
        block@.conditions == views(block.conditions@),
        block@.opts == block.opts@,
        e@.host == e.host@,
        e@.port == e.port,
{
}

/// What is set before any `Match` line is global, and nothing else is.
pub proof fn lemma_global_directives(before: Seq<ParsedLineView>, directive: ParsedLineView)
    requires
        SshServerConfigView::of_lines(before) is Ok,
        directive.keyword != "match"@,
    ensures
        ({
            let old_cfg = SshServerConfigView::of_lines(before)->Ok_0;
            let r = SshServerConfigView::of_lines(before.push(directive));
            &&& old_cfg.match_blocks.len() == 0 ==> match with_directive(
                old_cfg.global,
                directive,
            ) {
                Ok(o) => r == Ok::<_, ConfigErrorView>(
                    SshServerConfigView { global: o, match_blocks: Seq::empty() },
                ),
                Err(e) => r == Err::<SshServerConfigView, _>(e),
            }
            &&& old_cfg.match_blocks.len() > 0 ==> (r matches Ok(cfg) ==> cfg.global
                == old_cfg.global && cfg.match_blocks.len() == old_cfg.match_blocks.len())
        }),
{
    assert(before.push(directive).drop_last() =~= before);
    let old_cfg = SshServerConfigView::of_lines(before)->Ok_0;
    if old_cfg.match_blocks.len() == 0 {
        assert(old_cfg.match_blocks =~= Seq::empty());
    }
}

proof fn lemma_names_without_hosts(names: Seq<Seq<char>>)
    ensures
        (forall|i: int| 0 <= i < names.len() ==> !(#[trigger] names[i]).contains('@'))
            ==> super::server::first_malformed(names) is None,
    decreases names.len(),
{
    if names.len() > 0 {
        if forall|i: int| 0 <= i < names.len() ==> !(#[trigger] names[i]).contains('@') {
            lemma_first_index(names[0], '@');
            assert(!names[0].contains('@'));
            assert forall|i: int| 0 <= i < names.skip(1).len() implies !(#[trigger] names.skip(
                1,
            )[i]).contains('@') by {
                assert(names.skip(1)[i] == names[i + 1]);
            }
            lemma_names_without_hosts(names.skip(1));
        }
    }
}

proof fn lemma_digits(n: nat)
    ensures
        forall|max: nat| n <= max ==> #[trigger] parse_unsigned(decimal(n), max) == Some(n),
        !decimal(n).contains(':'),
{
    let d = decimal(n);
    lemma_decimal(n);
    assert(is_digit(d[0]));
    assert(without_plus(d) =~= d);
    if d.contains(':') {
        let k = choose|k: int| 0 <= k < d.len() && d[k] == ':';
        assert(is_digit(d[k]));
    }
}

/// What tells the keywords apart.
proof fn lemma_keyword_shapes()
    ensures
        "port"@.len() == 4,
        "port"@[0] == 'p',
        "listenaddress"@.len() == 13,
        "listenaddress"@[0] == 'l',
        "hostkey"@.len() == 7,
        "hostkey"@[0] == 'h',
        "addressfamily"@.len() == 13,
        "addressfamily"@[0] == 'a',
        "pidfile"@.len() == 7,
        "pidfile"@[0] == 'p',
        "loglevel"@.len() == 8,
        "loglevel"@[0] == 'l',
        "compression"@.len() == 11,
        "compression"@[0] == 'c',
        "rekeylimit"@.len() == 10,
        "rekeylimit"@[0] == 'r',
        "logingracetime"@.len() == 14,
        "maxstartups"@.len() == 11,
        "maxstartups"@[0] == 'm',
        "maxstartups"@[4] == 't',
        "strictmodes"@.len() == 11,
        "strictmodes"@[0] == 's',
        "strictmodes"@[1] == 't',
        "subsystem"@.len() == 9,
        "subsystem"@[0] == 's',
        "permittunnel"@.len() == 12,
        "permittunnel"@[0] == 'p',
        "permittunnel"@[6] == 't',
        "authorizedkeysfile"@.len() == 18,
        "authorizedkeysfile"@[1] == 'u',
        "allowusers"@.len() == 10,
        "allowusers"@[0] == 'a',
        "denyusers"@.len() == 9,
        "denyusers"@[0] == 'd',
        "allowgroups"@.len() == 11,
        "allowgroups"@[0] == 'a',
        "denygroups"@.len() == 10,
        "denygroups"@[0] == 'd',
        "permitrootlogin"@.len() == 15,
        "permitrootlogin"@[0] == 'p',
        "pubkeyauthentication"@.len() == 20,
        "pubkeyauthentication"@[0] == 'p',
        "pubkeyauthentication"@[1] == 'u',
        "passwordauthentication"@.len() == 22,
        "kbdinteractiveauthentication"@.len() == 28,
        "challengeresponseauthentication"@.len() == 31,
        "authenticationmethods"@.len() == 21,
        "authenticationmethods"@[0] == 'a',
        "permitemptypasswords"@.len() == 20,
        "permitemptypasswords"@[0] == 'p',
        "permitemptypasswords"@[1] == 'e',
        "maxauthtries"@.len() == 12,
        "maxauthtries"@[0] == 'm',
        "banner"@.len() == 6,
        "ciphers"@.len() == 7,
        "ciphers"@[0] == 'c',
        "macs"@.len() == 4,
        "macs"@[0] == 'm',
        "kexalgorithms"@.len() == 13,
        "kexalgorithms"@[0] == 'k',
        "hostkeyalgorithms"@.len() == 17,
        "casignaturealgorithms"@.len() == 21,
        "casignaturealgorithms"@[0] == 'c',
        "allowagentforwarding"@.len() == 20,
        "allowagentforwarding"@[0] == 'a',
        "x11forwarding"@.len() == 13,
        "x11forwarding"@[0] == 'x',
        "acceptenv"@.len() == 9,
        "acceptenv"@[0] == 'a',
        "sftpenabled"@.len() == 11,
        "sftpenabled"@[0] == 's',
        "sftpenabled"@[1] == 'f',
        "sftpreadonly"@.len() == 12,
        "sftpreadonly"@[0] == 's',
        "sftproot"@.len() == 8,
        "sftproot"@[0] == 's',
        "scpenabled"@.len() == 10,
        "scpenabled"@[0] == 's',
        "maxsessions"@.len() == 11,
        "maxsessions"@[0] == 'm',
        "maxsessions"@[4] == 'e',
        "allowtcpforwarding"@.len() == 18,
        "allowtcpforwarding"@[1] == 'l',
        "permitopen"@.len() == 10,
        "permitopen"@[0] == 'p',
        "permitlisten"@.len() == 12,
        "permitlisten"@[0] == 'p',
        "permitlisten"@[6] == 'l',
        "gatewayports"@.len() == 12,
        "gatewayports"@[0] == 'g',
        "forcecommand"@.len() == 12,
        "forcecommand"@[0] == 'f',
        "chrootdirectory"@.len() == 15,
        "chrootdirectory"@[0] == 'c',
        "clientaliveinterval"@.len() == 19,
        "clientaliveinterval"@[11] == 'i',
        "clientalivecountmax"@.len() == 19,
        "clientalivecountmax"@[11] == 'c',
        "printmotd"@.len() == 9,
        "printmotd"@[0] == 'p',
{
    reveal_strlit("port");
    reveal_strlit("listenaddress");
    reveal_strlit("hostkey");
    reveal_strlit("addressfamily");
    reveal_strlit("pidfile");
    reveal_strlit("loglevel");
    reveal_strlit("compression");
    reveal_strlit("rekeylimit");
    reveal_strlit("logingracetime");
    reveal_strlit("maxstartups");
    reveal_strlit("strictmodes");
    reveal_strlit("subsystem");
    reveal_strlit("permittunnel");
    reveal_strlit("authorizedkeysfile");
    reveal_strlit("allowusers");
    reveal_strlit("denyusers");
    reveal_strlit("allowgroups");
    reveal_strlit("denygroups");
    reveal_strlit("permitrootlogin");
    reveal_strlit("pubkeyauthentication");
    reveal_strlit("passwordauthentication");
    reveal_strlit("kbdinteractiveauthentication");
    reveal_strlit("challengeresponseauthentication");
    reveal_strlit("authenticationmethods");
    reveal_strlit("permitemptypasswords");
    reveal_strlit("maxauthtries");
    reveal_strlit("banner");
    reveal_strlit("ciphers");
    reveal_strlit("macs");
    reveal_strlit("kexalgorithms");
    reveal_strlit("hostkeyalgorithms");
    reveal_strlit("casignaturealgorithms");
    reveal_strlit("allowagentforwarding");
    reveal_strlit("x11forwarding");
    reveal_strlit("acceptenv");
    reveal_strlit("sftpenabled");
    reveal_strlit("sftpreadonly");
    reveal_strlit("sftproot");
    reveal_strlit("scpenabled");
    reveal_strlit("maxsessions");
    reveal_strlit("allowtcpforwarding");
    reveal_strlit("permitopen");
    reveal_strlit("permitlisten");
    reveal_strlit("gatewayports");
    reveal_strlit("forcecommand");
    reveal_strlit("chrootdirectory");
    reveal_strlit("clientaliveinterval");
    reveal_strlit("clientalivecountmax");
    reveal_strlit("printmotd");
}

/// What tells the words apart.
proof fn lemma_word_shapes()
    ensures
        "yes"@.len() == 3,
        "yes"@[0] == 'y',
        "true"@.len() == 4,
        "true"@[0] == 't',
        "on"@.len() == 2,
        "on"@[0] == 'o',
        "no"@.len() == 2,
        "no"@[0] == 'n',
        "false"@.len() == 5,
        "false"@[0] == 'f',
        "off"@.len() == 3,
        "off"@[0] == 'o',
        "any"@.len() == 3,
        "any"@[0] == 'a',
        "any"@[1] == 'n',
        "inet"@.len() == 4,
        "inet"@[0] == 'i',
        "inet6"@.len() == 5,
        "inet6"@[0] == 'i',
        "delayed"@.len() == 7,
        "delayed"@[2] == 'l',
        "clientspecified"@.len() == 15,
        "all"@.len() == 3,
        "all"@[0] == 'a',
        "all"@[1] == 'l',
        "local"@.len() == 5,
        "local"@[0] == 'l',
        "remote"@.len() == 6,
        "prohibit-password"@.len() == 17,
        "without-password"@.len() == 16,
        "forced-commands-only"@.len() == 20,
        "none"@.len() == 4,
        "none"@[0] == 'n',
        "default"@.len() == 7,
        "default"@[2] == 'f',
        "*"@.len() == 1,
{
    reveal_strlit("yes");
    reveal_strlit("true");
    reveal_strlit("on");
    reveal_strlit("no");
    reveal_strlit("false");
    reveal_strlit("off");
    reveal_strlit("any");
    reveal_strlit("inet");
    reveal_strlit("inet6");
    reveal_strlit("delayed");
    reveal_strlit("clientspecified");
    reveal_strlit("all");
    reveal_strlit("local");
    reveal_strlit("remote");
    reveal_strlit("prohibit-password");
    reveal_strlit("without-password");
    reveal_strlit("forced-commands-only");
    reveal_strlit("none");
    reveal_strlit("default");
    reveal_strlit("*");
}

/// What tells the levels apart.
proof fn lemma_level_shapes()
    ensures
        "QUIET"@.len() == 5,
        "QUIET"@[0] == 'Q',
        "FATAL"@.len() == 5,
        "FATAL"@[0] == 'F',
        "ERROR"@.len() == 5,
        "ERROR"@[0] == 'E',
        "INFO"@.len() == 4,
        "VERBOSE"@.len() == 7,
        "DEBUG"@.len() == 5,
        "DEBUG"@[0] == 'D',
        "DEBUG1"@.len() == 6,
        "DEBUG1"@[5] == '1',
        "DEBUG2"@.len() == 6,
        "DEBUG2"@[5] == '2',
        "DEBUG3"@.len() == 6,
        "DEBUG3"@[5] == '3',
{
    reveal_strlit("QUIET");
    reveal_strlit("FATAL");
    reveal_strlit("ERROR");
    reveal_strlit("INFO");
    reveal_strlit("VERBOSE");
    reveal_strlit("DEBUG");
    reveal_strlit("DEBUG1");
    reveal_strlit("DEBUG2");
    reveal_strlit("DEBUG3");
}

} // verus!
