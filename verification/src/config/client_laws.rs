//! What each line of an `ssh_config` file does: which option it sets, to what,
//! and for which hosts.

use super::client::{
    address_port, blocks_given, blocks_of, bracket_end, global_block, local_forward_value,
    remote_forward_value, with_directive, with_line, BlockView, ClientOptions, ClientOptionsView,
    LocalForwardSpec, LocalForwardSpecView, RemoteForwardSpec, RemoteForwardSpecView, RequestTty,
    SshClientConfigView, StrictMode,
};
use super::glob::{glob_matches, list_matches, HostPatternView};
use super::match_block::{
    block_given, lemma_block_is_conjunction, lemma_exec_denied, lemma_match_line_is_not_empty,
    match_line, ExecPolicy, MatchConditionView, MatchContextView, MatchSide, Step,
};
use super::parser::ParsedLineView;
use super::ConfigErrorView;
use crate::text::{
    decimal, lemma_decimal, lemma_last_index, lower_text, opt_view, parse_unsigned, upper_text,
};
use vstd::prelude::*;

verus! {

/// Each option stands for itself, and each list for its entries in order.
pub proof fn lemma_options_stand_for_themselves(o: ClientOptions)
    ensures
        o@.host_name == opt_view(o.host_name),
        o@.port == o.port,
        o@.user == opt_view(o.user),
        o@.identity_files == Seq::new(o.identity_files@.len(), |i: int| o.identity_files@[i]@),
        o@.identities_only == o.identities_only,
        o@.strict_host_key == o.strict_host_key,
        o@.user_known_hosts == opt_view(o.user_known_hosts),
        o@.hash_known_hosts == o.hash_known_hosts,
        o@.local_forwards == Seq::new(o.local_forwards@.len(), |i: int| o.local_forwards@[i]@),
        o@.remote_forwards == Seq::new(o.remote_forwards@.len(), |i: int| o.remote_forwards@[i]@),
        o@.forward_agent == o.forward_agent,
        o@.forward_x11 == o.forward_x11,
        o@.forward_x11_trusted == o.forward_x11_trusted,
        o@.request_tty == o.request_tty,
        o@.log_level == o.log_level,
{
    assert(o@.identity_files =~= Seq::new(
        o.identity_files@.len(),
        |i: int| o.identity_files@[i]@,
    ));
    assert(o@.local_forwards =~= Seq::new(
        o.local_forwards@.len(),
        |i: int| o.local_forwards@[i]@,
    ));
    assert(o@.remote_forwards =~= Seq::new(
        o.remote_forwards@.len(),
        |i: int| o.remote_forwards@[i]@,
    ));
}

/// A directive with one word for its value sets its own option to that word,
/// and no other; `IdentityFile` adds to the end of its list.
pub proof fn lemma_word_directives(o: ClientOptionsView, line: ParsedLineView, word: Seq<char>)
    requires
        line.args == seq![word],
    ensures
        line.keyword == "hostname"@ ==> with_directive(o, line) == Ok::<_, ConfigErrorView>(
            ClientOptionsView { host_name: Some(word), ..o },
        ),
        line.keyword == "user"@ ==> with_directive(o, line) == Ok::<_, ConfigErrorView>(
            ClientOptionsView { user: Some(word), ..o },
        ),
        line.keyword == "userknownhostsfile"@ ==> with_directive(o, line) == Ok::<
            _,
            ConfigErrorView,
        >(ClientOptionsView { user_known_hosts: Some(word), ..o }),
        line.keyword == "identityfile"@ ==> with_directive(o, line) == Ok::<_, ConfigErrorView>(
            ClientOptionsView { identity_files: o.identity_files + seq![word], ..o },
        ),
{
    lemma_keywords();
    assert(o.identity_files + seq![word] =~= o.identity_files.push(word));
}

/// `Port` with the digits of a port sets the port to it.
pub proof fn lemma_port_directive(o: ClientOptionsView, line: ParsedLineView, port: u16)
    requires
        line.keyword == "port"@,
        line.args == seq![decimal(port as nat)],
    ensures
        with_directive(o, line) == Ok::<_, ConfigErrorView>(
            ClientOptionsView { port: Some(port), ..o },
        ),
{
    lemma_keywords();
    lemma_port_digits(port);
}

/// A switch is on for `yes`, `true` and `on`, and off for `no`, `false` and
/// `off`, in any case; each directive has a switch of its own.
pub proof fn lemma_switch_directives(
    o: ClientOptionsView,
    line: ParsedLineView,
    word: Seq<char>,
    on: bool,
)
    requires
        line.args == seq![word],
        on ==> lower_text(word) == "yes"@ || lower_text(word) == "true"@ || lower_text(word)
            == "on"@,
        !on ==> lower_text(word) == "no"@ || lower_text(word) == "false"@ || lower_text(word)
            == "off"@,
    ensures
        line.keyword == "identitiesonly"@ ==> with_directive(o, line) == Ok::<_, ConfigErrorView>(
            ClientOptionsView { identities_only: Some(on), ..o },
        ),
        line.keyword == "hashknownhosts"@ ==> with_directive(o, line) == Ok::<_, ConfigErrorView>(
            ClientOptionsView { hash_known_hosts: Some(on), ..o },
        ),
        line.keyword == "forwardagent"@ ==> with_directive(o, line) == Ok::<_, ConfigErrorView>(
            ClientOptionsView { forward_agent: Some(on), ..o },
        ),
        line.keyword == "forwardx11"@ ==> with_directive(o, line) == Ok::<_, ConfigErrorView>(
            ClientOptionsView { forward_x11: Some(on), ..o },
        ),
        line.keyword == "forwardx11trusted"@ ==> with_directive(o, line) == Ok::<
            _,
            ConfigErrorView,
        >(ClientOptionsView { forward_x11_trusted: Some(on), ..o }),
{
    lemma_keywords();
    lemma_words();
}

/// What the words of `StrictHostKeyChecking`, `RequestTTY` and `LogLevel` stand
/// for, in any case.
pub proof fn lemma_choice_directives(o: ClientOptionsView, line: ParsedLineView, word: Seq<char>)
    requires
        line.args == seq![word],
    ensures
        line.keyword == "stricthostkeychecking"@ ==> match with_directive(o, line) {
            Ok(r) => {
                &&& r == (ClientOptionsView { strict_host_key: r.strict_host_key, ..o })
                &&& r.strict_host_key == Some(StrictMode::Yes) <==> lower_text(word) == "yes"@
                &&& r.strict_host_key == Some(StrictMode::No) <==> lower_text(word) == "no"@
                    || lower_text(word) == "off"@
                &&& r.strict_host_key == Some(StrictMode::AcceptNew) <==> lower_text(word)
                    == "accept-new"@
                &&& r.strict_host_key == Some(StrictMode::Ask) <==> lower_text(word) == "ask"@
                &&& r.strict_host_key is Some
            },
            Err(_) => lower_text(word) != "yes"@ && lower_text(word) != "no"@ && lower_text(word)
                != "off"@ && lower_text(word) != "accept-new"@ && lower_text(word) != "ask"@,
        },
        line.keyword == "requesttty"@ ==> match with_directive(o, line) {
            Ok(r) => {
                &&& r == (ClientOptionsView { request_tty: r.request_tty, ..o })
                &&& r.request_tty == Some(RequestTty::No) <==> lower_text(word) == "no"@
                &&& r.request_tty == Some(RequestTty::Yes) <==> lower_text(word) == "yes"@
                &&& r.request_tty == Some(RequestTty::Force) <==> lower_text(word) == "force"@
                &&& r.request_tty == Some(RequestTty::Auto) <==> lower_text(word) == "auto"@
                &&& r.request_tty is Some
            },
            Err(_) => lower_text(word) != "no"@ && lower_text(word) != "yes"@ && lower_text(word)
                != "force"@ && lower_text(word) != "auto"@,
        },
        line.keyword == "loglevel"@ ==> match with_directive(o, line) {
            Ok(r) => {
                let s = upper_text(word);
                &&& r == (ClientOptionsView { log_level: r.log_level, ..o })
                &&& r.log_level == Some(0u8) <==> s == "QUIET"@ || s == "FATAL"@ || s == "ERROR"@
                    || s == "INFO"@
                &&& r.log_level == Some(1u8) <==> s == "VERBOSE"@ || s == "DEBUG"@ || s
                    == "DEBUG1"@
                &&& r.log_level == Some(2u8) <==> s == "DEBUG2"@
                &&& r.log_level == Some(3u8) <==> s == "DEBUG3"@
                &&& r.log_level is Some
            },
            Err(_) => ({
                let s = upper_text(word);
                s != "QUIET"@ && s != "INFO"@ && s != "VERBOSE"@ && s != "DEBUG"@ && s
                    != "DEBUG2"@ && s != "DEBUG3"@
            }),
        },
{
    lemma_keywords();
    lemma_words();
    lemma_levels();
}

/// An address and a port as they are written: `address:port`, or
/// `[address]:port`.
pub open spec fn written(address: Seq<char>, port: u16, brackets: bool) -> Seq<char> {
    if brackets {
        seq!['['] + address + seq![']', ':'] + decimal(port as nat)
    } else {
        address + seq![':'] + decimal(port as nat)
    }
}

/// Whether an address can be written like that and be told again: in brackets
/// one without a closing bracket, and without brackets one that does not begin
/// with one.
pub open spec fn writable(address: Seq<char>, brackets: bool) -> bool {
    if brackets {
        !address.contains(']')
    } else {
        address.len() == 0 || address[0] != '['
    }
}

/// `LocalForward p h:q` listens on port `p` here and goes to port `q` of host
/// `h`, and `RemoteForward p h:q` listens on port `p` there and goes to port `q`
/// of host `h` from here. With an address before `p`, that is where it listens.
/// Either side may have its address in brackets.
pub proof fn lemma_forward_directives(
    o: ClientOptionsView,
    line: ParsedLineView,
    bind: Option<Seq<char>>,
    bind_brackets: bool,
    p: u16,
    host: Seq<char>,
    host_brackets: bool,
    q: u16,
)
    requires
        line.args.len() == 2,
        line.args[0] == match bind {
            None => decimal(p as nat),
            Some(address) => written(address, p, bind_brackets),
        },
        bind matches Some(address) ==> writable(address, bind_brackets),
        line.args[1] == written(host, q, host_brackets),
        writable(host, host_brackets),
    ensures
        line.keyword == "localforward"@ ==> with_directive(o, line) == Ok::<_, ConfigErrorView>(
            ClientOptionsView {
                local_forwards: o.local_forwards + seq![
                    LocalForwardSpecView {
                        bind_addr: bind,
                        listen_port: p,
                        remote_host: host,
                        remote_port: q,
                    },
                ],
                ..o
            },
        ),
        line.keyword == "remoteforward"@ ==> with_directive(o, line) == Ok::<_, ConfigErrorView>(
            ClientOptionsView {
                remote_forwards: o.remote_forwards + seq![
                    RemoteForwardSpecView {
                        bind_addr: bind,
                        remote_port: p,
                        local_host: host,
                        local_port: q,
                    },
                ],
                ..o
            },
        ),
{
    lemma_keywords();
    lemma_port_digits(p);
    lemma_decimal(p as nat);
    match bind {
        None => {
            let d = decimal(p as nat);
            lemma_last_index(d, ':');
            assert(!d.contains(':')) by {
                if d.contains(':') {
                    let k = choose|k: int| 0 <= k < d.len() && d[k] == ':';
                    assert(crate::text::is_digit(d[k]));
                }
            }
            assert(crate::text::is_digit(d[0]));
        },
        Some(address) => {
            lemma_written(
                address,
                p,
                bind_brackets,
                "malformed bracketed bind:port "@,
                line,
            );
        },
    }
    lemma_written(host, q, host_brackets, "malformed bracketed host:port "@, line);
    let local = LocalForwardSpecView {
        bind_addr: bind,
        listen_port: p,
        remote_host: host,
        remote_port: q,
    };
    let remote = RemoteForwardSpecView {
        bind_addr: bind,
        remote_port: p,
        local_host: host,
        local_port: q,
    };
    assert(local_forward_value(line) == Ok::<_, ConfigErrorView>(local));
    assert(remote_forward_value(line) == Ok::<_, ConfigErrorView>(remote));
    assert(o.local_forwards + seq![local] =~= o.local_forwards.push(local));
    assert(o.remote_forwards + seq![remote] =~= o.remote_forwards.push(remote));
}

/// The entries of the forwarding lists stand for themselves.
pub proof fn lemma_forwards_stand_for_themselves(l: LocalForwardSpec, r: RemoteForwardSpec)
    ensures
        l@.bind_addr == opt_view(l.bind_addr),
        l@.listen_port == l.listen_port,
        l@.remote_host == l.remote_host@,
        l@.remote_port == l.remote_port,
        r@.bind_addr == opt_view(r.bind_addr),
        r@.remote_port == r.remote_port,
        r@.local_host == r.local_host@,
        r@.local_port == r.local_port,
{
}

/// What is written is read again.
proof fn lemma_written(
    address: Seq<char>,
    port: u16,
    brackets: bool,
    malformed: Seq<char>,
    line: ParsedLineView,
)
    requires
        writable(address, brackets),
    ensures
        address_port(written(address, port, brackets), malformed, line) == Ok::<_, ConfigErrorView>(
            Some((address, port)),
        ),
{
    let s = written(address, port, brackets);
    let d = decimal(port as nat);
    let n = address.len() as int;
    lemma_port_digits(port);
    lemma_decimal(port as nat);
    if brackets {
        let rest = s.skip(1);
        assert(rest =~= address + seq![']', ':'] + d);
        lemma_bracket_end(address, d);
        assert(rest.skip(n + 2) =~= d);
        assert(rest.take(n) =~= address);
    } else {
        assert(s[n] == ':');
        lemma_last_index(s, ':');
        assert forall|k: int| n < k < s.len() implies s[k] != ':' by {
            assert(s[k] == d[k - n - 1]);
            assert(crate::text::is_digit(d[k - n - 1]));
        }
        assert(s.skip(n + 1) =~= d);
        assert(s.take(n) =~= address);
        if n == 0 {
            assert(s[0] == ':');
        } else {
            assert(s[0] == address[0]);
        }
    }
}

proof fn lemma_bracket_end(address: Seq<char>, tail: Seq<char>)
    requires
        !address.contains(']'),
    ensures
        bracket_end(address + seq![']', ':'] + tail) == Some(address.len() as int),
    decreases address.len(),
{
    let s = address + seq![']', ':'] + tail;
    if address.len() > 0 {
        assert(address.contains(address[0]));
        let rest = address.skip(1);
        assert forall|c: char| rest.contains(c) implies address.contains(c) by {
            let k = choose|k: int| 0 <= k < rest.len() && rest[k] == c;
            assert(address[k + 1] == c);
        }
        lemma_bracket_end(rest, tail);
        assert(s.skip(1) =~= rest + seq![']', ':'] + tail);
    }
}

proof fn lemma_port_digits(port: u16)
    ensures
        parse_unsigned(decimal(port as nat), 65535) == Some(port as nat),
{
    let d = decimal(port as nat);
    lemma_decimal(port as nat);
    assert(crate::text::is_digit(d[0]));
    assert(crate::text::without_plus(d) =~= d);
}

/// The first value of a scalar wins, and lists concatenate.
pub proof fn lemma_first_value_wins(a: ClientOptionsView, b: ClientOptionsView)
    ensures
        a.with(b).host_name == (if a.host_name is Some { a.host_name } else { b.host_name }),
        a.with(b).port == (if a.port is Some { a.port } else { b.port }),
        a.with(b).user == (if a.user is Some { a.user } else { b.user }),
        a.with(b).identities_only == (if a.identities_only is Some {
            a.identities_only
        } else {
            b.identities_only
        }),
        a.with(b).strict_host_key == (if a.strict_host_key is Some {
            a.strict_host_key
        } else {
            b.strict_host_key
        }),
        a.with(b).user_known_hosts == (if a.user_known_hosts is Some {
            a.user_known_hosts
        } else {
            b.user_known_hosts
        }),
        a.with(b).hash_known_hosts == (if a.hash_known_hosts is Some {
            a.hash_known_hosts
        } else {
            b.hash_known_hosts
        }),
        a.with(b).forward_agent == (if a.forward_agent is Some {
            a.forward_agent
        } else {
            b.forward_agent
        }),
        a.with(b).forward_x11 == (if a.forward_x11 is Some {
            a.forward_x11
        } else {
            b.forward_x11
        }),
        a.with(b).forward_x11_trusted == (if a.forward_x11_trusted is Some {
            a.forward_x11_trusted
        } else {
            b.forward_x11_trusted
        }),
        a.with(b).request_tty == (if a.request_tty is Some {
            a.request_tty
        } else {
            b.request_tty
        }),
        a.with(b).log_level == (if a.log_level is Some { a.log_level } else { b.log_level }),
        a.with(b).identity_files == a.identity_files + b.identity_files,
        a.with(b).local_forwards == a.local_forwards + b.local_forwards,
        a.with(b).remote_forwards == a.remote_forwards + b.remote_forwards,
{
}

/// Whether the tokens of a `Host` line admit a host: one of them matches that
/// does not begin with `!`, and none matches that does, without it.
pub open spec fn tokens_admit(tokens: Seq<Seq<char>>, host: Seq<char>) -> bool {
    &&& exists|i: int|
        0 <= i < tokens.len() && !((#[trigger] tokens[i]).len() > 0 && tokens[i][0] == '!')
            && glob_matches(tokens[i], host)
    &&& forall|i: int|
        0 <= i < tokens.len() && (#[trigger] tokens[i]).len() > 0 && tokens[i][0] == '!'
            ==> !glob_matches(tokens[i].skip(1), host)
}

/// A list of patterns matches a host just if its tokens admit it.
pub proof fn lemma_tokens_admit(tokens: Seq<Seq<char>>, host: Seq<char>)
    ensures
        list_matches(tokens.map_values(|t: Seq<char>| HostPatternView::parse(t)), host)
            == tokens_admit(tokens, host),
{
    let patterns = tokens.map_values(|t: Seq<char>| HostPatternView::parse(t));
    assert forall|i: int| 0 <= i < tokens.len() implies (#[trigger] patterns[i]).admits(host) == (
    !(tokens[i].len() > 0 && tokens[i][0] == '!') && glob_matches(tokens[i], host)) by {
        if tokens[i] == "*"@ {
            lemma_star_token(host);
        }
    }
    assert forall|i: int| 0 <= i < tokens.len() implies (#[trigger] patterns[i]).excludes(host) == (
    tokens[i].len() > 0 && tokens[i][0] == '!' && glob_matches(tokens[i].skip(1), host)) by {}
    if tokens_admit(tokens, host) {
        let i = choose|i: int|
            0 <= i < tokens.len() && !((#[trigger] tokens[i]).len() > 0 && tokens[i][0] == '!')
                && glob_matches(tokens[i], host);
        assert(patterns[i].admits(host));
    }
    if list_matches(patterns, host) {
        let i = choose|i: int| 0 <= i < patterns.len() && (#[trigger] patterns[i]).admits(host);
        assert(glob_matches(tokens[i], host));
        assert forall|j: int|
            0 <= j < tokens.len() && (#[trigger] tokens[j]).len() > 0 && tokens[j][0]
                == '!' implies !glob_matches(tokens[j].skip(1), host) by {
            assert(!patterns[j].excludes(host));
        }
    }
}

proof fn lemma_star_token(host: Seq<char>)
    ensures
        glob_matches("*"@, host),
        "*"@.len() == 1,
        "*"@[0] == '*',
{
    reveal_strlit("*");
    assert("*"@ =~= seq!['*']);
    super::glob::lemma_star_matches_everything(vstd::utf8::encode_utf8(host));
    vstd::utf8::is_ascii_chars_encode_utf8(seq!['*']);
    assert(vstd::utf8::encode_utf8(seq!['*']) =~= seq![42u8]);
}

/// The options that lines set, one after the other, where none of them opens a
/// block.
pub open spec fn directives(lines: Seq<ParsedLineView>) -> Result<ClientOptionsView, ConfigErrorView>
    decreases lines.len(),
{
    if lines.len() == 0 {
        Ok(ClientOptionsView::unset())
    } else {
        match directives(lines.drop_last()) {
            Err(e) => Err(e),
            Ok(o) => with_directive(o, lines.last()),
        }
    }
}

/// Whether a line sets an option, rather than opens a block or names a file.
pub open spec fn sets_option(line: ParsedLineView) -> bool {
    line.keyword != "host"@ && line.keyword != "match"@ && line.keyword != "include"@
}

/// A `Host` line and the directives after it apply to the hosts that its tokens
/// admit, after all that stands before it, and to no other host.
pub proof fn lemma_host_block(
    before: Seq<ParsedLineView>,
    line: ParsedLineView,
    body: Seq<ParsedLineView>,
    ctx: MatchContextView,
)
    requires
        line.keyword == "host"@,
        line.args.len() > 0,
        forall|i: int| 0 <= i < body.len() ==> sets_option(#[trigger] body[i]),
        SshClientConfigView::of_lines(before) is Ok,
        directives(body) is Ok,
    ensures
        ({
            let old_cfg = SshClientConfigView::of_lines(before)->Ok_0;
            let r = SshClientConfigView::of_lines(before.push(line) + body);
            &&& r is Ok
            &&& old_cfg.found(ctx, Seq::empty()) is Done
            &&& r->Ok_0.found(ctx, Seq::empty()) == Step::Done(
                if tokens_admit(line.args, ctx.host) {
                    old_cfg.found(ctx, Seq::empty())->Done_0.with(directives(body)->Ok_0)
                } else {
                    old_cfg.found(ctx, Seq::empty())->Done_0
                },
            )
        }),
{
    let patterns = line.args.map_values(|t: Seq<char>| HostPatternView::parse(t));
    lemma_next_block(
        before,
        line,
        BlockView::Host { patterns, opts: ClientOptionsView::unset() },
        body,
        ctx,
    );
    lemma_tokens_admit(line.args, ctx.host);
}

/// A `Match` line and the directives after it apply to the targets for which all
/// its criteria hold, after all that stands before it, and to no other.
pub proof fn lemma_match_block(
    before: Seq<ParsedLineView>,
    line: ParsedLineView,
    body: Seq<ParsedLineView>,
    ctx: MatchContextView,
)
    requires
        line.keyword == "match"@,
        match_line(line.args, line.line_no, MatchSide::Client) is Ok,
        forall|i: int| 0 <= i < body.len() ==> sets_option(#[trigger] body[i]),
        SshClientConfigView::of_lines(before) is Ok,
        directives(body) is Ok,
    ensures
        ({
            let conds = match_line(line.args, line.line_no, MatchSide::Client)->Ok_0;
            let old_cfg = SshClientConfigView::of_lines(before)->Ok_0;
            let r = SshClientConfigView::of_lines(before.push(line) + body);
            &&& r is Ok
            &&& old_cfg.found(ctx, Seq::empty()) is Done
            &&& r->Ok_0.found(ctx, Seq::empty()) == Step::Done(
                if forall|i: int| 0 <= i < conds.len() ==> (#[trigger] conds[i]).holds(ctx) {
                    old_cfg.found(ctx, Seq::empty())->Done_0.with(directives(body)->Ok_0)
                } else {
                    old_cfg.found(ctx, Seq::empty())->Done_0
                },
            )
        }),
{
    let conditions = match_line(line.args, line.line_no, MatchSide::Client)->Ok_0;
    reveal_strlit("host");
    reveal_strlit("match");
    assert("host"@.len() != "match"@.len());
    lemma_next_block(
        before,
        line,
        BlockView::Match { conditions, opts: ClientOptionsView::unset() },
        body,
        ctx,
    );
    lemma_match_line_is_not_empty(line.args, line.line_no, MatchSide::Client);
    lemma_denied_block(conditions, ctx);
}

/// Directives before any `Host` or `Match` line apply to every host.
pub proof fn lemma_lines_before_any_block(body: Seq<ParsedLineView>, ctx: MatchContextView)
    requires
        forall|i: int| 0 <= i < body.len() ==> sets_option(#[trigger] body[i]),
        directives(body) is Ok,
    ensures
        SshClientConfigView::of_lines(body) is Ok,
        SshClientConfigView::of_lines(body)->Ok_0.found(ctx, Seq::empty()) == Step::Done(
            ClientOptionsView::unset().with(directives(body)->Ok_0),
        ),
{
    let none = Seq::<ParsedLineView>::empty();
    let first = global_block();
    assert(seq![first] =~= Seq::<BlockView>::empty().push(first));
    lemma_block_body(none, Seq::empty(), first, body);
    assert(none + body =~= body);
    let last = first.with_opts(directives(body)->Ok_0);
    lemma_one_more_block(ClientOptionsView::unset(), Seq::empty(), last, ctx);
    let patterns = seq![HostPatternView::Any];
    assert(patterns[0].admits(ctx.host));
    assert(list_matches(patterns, ctx.host));
}

/// A block that `line` opens, and that `body` belongs to.
proof fn lemma_next_block(
    before: Seq<ParsedLineView>,
    line: ParsedLineView,
    opened: BlockView,
    body: Seq<ParsedLineView>,
    ctx: MatchContextView,
)
    requires
        SshClientConfigView::of_lines(before) is Ok,
        with_line(blocks_of(before)->Ok_0, line) == Ok::<_, ConfigErrorView>(
            blocks_of(before)->Ok_0.push(opened),
        ),
        opened.opts() == ClientOptionsView::unset(),
        forall|i: int| 0 <= i < body.len() ==> sets_option(#[trigger] body[i]),
        directives(body) is Ok,
    ensures
        ({
            let old_cfg = SshClientConfigView::of_lines(before)->Ok_0;
            let r = SshClientConfigView::of_lines(before.push(line) + body);
            &&& r is Ok
            &&& old_cfg.found(ctx, Seq::empty()) is Done
            &&& opened.given(ctx, ExecPolicy::Deny, Seq::empty()).0 is Done
            &&& r->Ok_0.found(ctx, Seq::empty()) == Step::Done(
                if opened.given(ctx, ExecPolicy::Deny, Seq::empty()).0->Done_0 {
                    old_cfg.found(ctx, Seq::empty())->Done_0.with(directives(body)->Ok_0)
                } else {
                    old_cfg.found(ctx, Seq::empty())->Done_0
                },
            )
        }),
{
    let blocks = blocks_of(before)->Ok_0;
    assert(before.push(line).drop_last() =~= before);
    assert(blocks_of(before.push(line)) == Ok::<_, ConfigErrorView>(blocks.push(opened)));
    lemma_block_body(before.push(line), blocks, opened, body);
    super::client::lemma_denied_lookup_is_done(
        SshClientConfigView { blocks, commands: false },
        ctx,
        Seq::empty(),
    );
    lemma_one_more_block(
        ClientOptionsView::unset(),
        blocks,
        opened.with_opts(directives(body)->Ok_0),
        ctx,
    );
}

/// With commands denied, a block applies just if all its criteria hold.
proof fn lemma_denied_block(conds: Seq<MatchConditionView>, ctx: MatchContextView)
    ensures
        block_given(conds, ctx, ExecPolicy::Deny, Seq::empty()).0 == Step::Done(
            conds.len() > 0 && forall|i: int|
                0 <= i < conds.len() ==> (#[trigger] conds[i]).holds(ctx),
        ),
{
    if exists|i: int| 0 <= i < conds.len() && #[trigger] conds[i] is Exec {
        let i = choose|i: int| 0 <= i < conds.len() && #[trigger] conds[i] is Exec;
        lemma_exec_denied(conds, ctx, Seq::empty());
        assert(!conds[i].holds(ctx));
    } else {
        lemma_block_is_conjunction(conds, ctx, ExecPolicy::Deny, Seq::empty());
    }
}

/// Directives after the line that opened a block go into the block.
proof fn lemma_block_body(
    head: Seq<ParsedLineView>,
    blocks: Seq<BlockView>,
    opened: BlockView,
    body: Seq<ParsedLineView>,
)
    requires
        blocks_of(head) == Ok::<_, ConfigErrorView>(blocks.push(opened)),
        opened.opts() == ClientOptionsView::unset(),
        forall|i: int| 0 <= i < body.len() ==> sets_option(#[trigger] body[i]),
        directives(body) is Ok,
    ensures
        blocks_of(head + body) == Ok::<_, ConfigErrorView>(
            blocks.push(opened.with_opts(directives(body)->Ok_0)),
        ),
    decreases body.len(),
{
    if body.len() == 0 {
        assert(head + body =~= head);
        assert(opened.with_opts(opened.opts()) == opened);
    } else {
        let front = body.drop_last();
        let line = body.last();
        assert forall|i: int| 0 <= i < front.len() implies sets_option(#[trigger] front[i]) by {
            assert(front[i] == body[i]);
        }
        lemma_block_body(head, blocks, opened, front);
        assert((head + body).drop_last() =~= head + front);
        assert((head + body).last() == line);
        assert(sets_option(body[body.len() - 1]));
        let now = blocks.push(opened.with_opts(directives(front)->Ok_0));
        assert(now.drop_last() =~= blocks);
        assert(with_line(now, line) is Ok);
    }
}

/// One more block is looked at after the others.
proof fn lemma_one_more_block(
    out: ClientOptionsView,
    blocks: Seq<BlockView>,
    last: BlockView,
    ctx: MatchContextView,
)
    ensures
        last.given(ctx, ExecPolicy::Deny, Seq::empty()).0 is Done,
        blocks_given(out, blocks, ctx, ExecPolicy::Deny, Seq::empty()) is Done,
        blocks_given(out, blocks.push(last), ctx, ExecPolicy::Deny, Seq::empty()) == Step::Done(
            if last.given(ctx, ExecPolicy::Deny, Seq::empty()).0->Done_0 {
                blocks_given(
                    out,
                    blocks,
                    ctx,
                    ExecPolicy::Deny,
                    Seq::empty(),
                )->Done_0.with(last.opts())
            } else {
                blocks_given(out, blocks, ctx, ExecPolicy::Deny, Seq::empty())->Done_0
            },
        ),
    decreases blocks.len(),
{
    let none = Seq::<bool>::empty();
    assert(none.skip(0) =~= none);
    let all = blocks.push(last);
    if let BlockView::Match { conditions, .. } = last {
        lemma_exec_denied(conditions, ctx, none);
    }
    if blocks.len() == 0 {
        assert(all.skip(1) =~= Seq::<BlockView>::empty());
        reveal_with_fuel(blocks_given, 2);
    } else {
        assert(all.skip(1) =~= blocks.skip(1).push(last));
        if let BlockView::Match { conditions, .. } = blocks[0] {
            lemma_exec_denied(conditions, ctx, none);
        }
        let (step, used) = blocks[0].given(ctx, ExecPolicy::Deny, none);
        let next = if step->Done_0 {
            out.with(blocks[0].opts())
        } else {
            out
        };
        lemma_one_more_block(next, blocks.skip(1), last, ctx);
    }
}

/// The keywords are different.
proof fn lemma_keywords()
    ensures
        "hostname"@ != "port"@,
        "hostname"@ != "user"@,
        "hostname"@ != "identityfile"@,
        "hostname"@ != "identitiesonly"@,
        "hostname"@ != "stricthostkeychecking"@,
        "hostname"@ != "userknownhostsfile"@,
        "hostname"@ != "hashknownhosts"@,
        "hostname"@ != "localforward"@,
        "hostname"@ != "remoteforward"@,
        "hostname"@ != "forwardagent"@,
        "hostname"@ != "forwardx11"@,
        "hostname"@ != "forwardx11trusted"@,
        "hostname"@ != "requesttty"@,
        "hostname"@ != "loglevel"@,
        "port"@ != "user"@,
        "port"@ != "identityfile"@,
        "port"@ != "identitiesonly"@,
        "port"@ != "stricthostkeychecking"@,
        "port"@ != "userknownhostsfile"@,
        "port"@ != "hashknownhosts"@,
        "port"@ != "localforward"@,
        "port"@ != "remoteforward"@,
        "port"@ != "forwardagent"@,
        "port"@ != "forwardx11"@,
        "port"@ != "forwardx11trusted"@,
        "port"@ != "requesttty"@,
        "port"@ != "loglevel"@,
        "user"@ != "identityfile"@,
        "user"@ != "identitiesonly"@,
        "user"@ != "stricthostkeychecking"@,
        "user"@ != "userknownhostsfile"@,
        "user"@ != "hashknownhosts"@,
        "user"@ != "localforward"@,
        "user"@ != "remoteforward"@,
        "user"@ != "forwardagent"@,
        "user"@ != "forwardx11"@,
        "user"@ != "forwardx11trusted"@,
        "user"@ != "requesttty"@,
        "user"@ != "loglevel"@,
        "identityfile"@ != "identitiesonly"@,
        "identityfile"@ != "stricthostkeychecking"@,
        "identityfile"@ != "userknownhostsfile"@,
        "identityfile"@ != "hashknownhosts"@,
        "identityfile"@ != "localforward"@,
        "identityfile"@ != "remoteforward"@,
        "identityfile"@ != "forwardagent"@,
        "identityfile"@ != "forwardx11"@,
        "identityfile"@ != "forwardx11trusted"@,
        "identityfile"@ != "requesttty"@,
        "identityfile"@ != "loglevel"@,
        "identitiesonly"@ != "stricthostkeychecking"@,
        "identitiesonly"@ != "userknownhostsfile"@,
        "identitiesonly"@ != "hashknownhosts"@,
        "identitiesonly"@ != "localforward"@,
        "identitiesonly"@ != "remoteforward"@,
        "identitiesonly"@ != "forwardagent"@,
        "identitiesonly"@ != "forwardx11"@,
        "identitiesonly"@ != "forwardx11trusted"@,
        "identitiesonly"@ != "requesttty"@,
        "identitiesonly"@ != "loglevel"@,
        "stricthostkeychecking"@ != "userknownhostsfile"@,
        "stricthostkeychecking"@ != "hashknownhosts"@,
        "stricthostkeychecking"@ != "localforward"@,
        "stricthostkeychecking"@ != "remoteforward"@,
        "stricthostkeychecking"@ != "forwardagent"@,
        "stricthostkeychecking"@ != "forwardx11"@,
        "stricthostkeychecking"@ != "forwardx11trusted"@,
        "stricthostkeychecking"@ != "requesttty"@,
        "stricthostkeychecking"@ != "loglevel"@,
        "userknownhostsfile"@ != "hashknownhosts"@,
        "userknownhostsfile"@ != "localforward"@,
        "userknownhostsfile"@ != "remoteforward"@,
        "userknownhostsfile"@ != "forwardagent"@,
        "userknownhostsfile"@ != "forwardx11"@,
        "userknownhostsfile"@ != "forwardx11trusted"@,
        "userknownhostsfile"@ != "requesttty"@,
        "userknownhostsfile"@ != "loglevel"@,
        "hashknownhosts"@ != "localforward"@,
        "hashknownhosts"@ != "remoteforward"@,
        "hashknownhosts"@ != "forwardagent"@,
        "hashknownhosts"@ != "forwardx11"@,
        "hashknownhosts"@ != "forwardx11trusted"@,
        "hashknownhosts"@ != "requesttty"@,
        "hashknownhosts"@ != "loglevel"@,
        "localforward"@ != "remoteforward"@,
        "localforward"@ != "forwardagent"@,
        "localforward"@ != "forwardx11"@,
        "localforward"@ != "forwardx11trusted"@,
        "localforward"@ != "requesttty"@,
        "localforward"@ != "loglevel"@,
        "remoteforward"@ != "forwardagent"@,
        "remoteforward"@ != "forwardx11"@,
        "remoteforward"@ != "forwardx11trusted"@,
        "remoteforward"@ != "requesttty"@,
        "remoteforward"@ != "loglevel"@,
        "forwardagent"@ != "forwardx11"@,
        "forwardagent"@ != "forwardx11trusted"@,
        "forwardagent"@ != "requesttty"@,
        "forwardagent"@ != "loglevel"@,
        "forwardx11"@ != "forwardx11trusted"@,
        "forwardx11"@ != "requesttty"@,
        "forwardx11"@ != "loglevel"@,
        "forwardx11trusted"@ != "requesttty"@,
        "forwardx11trusted"@ != "loglevel"@,
        "requesttty"@ != "loglevel"@,
{
    reveal_strlit("hostname");
    reveal_strlit("port");
    reveal_strlit("user");
    reveal_strlit("identityfile");
    reveal_strlit("identitiesonly");
    reveal_strlit("stricthostkeychecking");
    reveal_strlit("userknownhostsfile");
    reveal_strlit("hashknownhosts");
    reveal_strlit("localforward");
    reveal_strlit("remoteforward");
    reveal_strlit("forwardagent");
    reveal_strlit("forwardx11");
    reveal_strlit("forwardx11trusted");
    reveal_strlit("requesttty");
    reveal_strlit("loglevel");
    assert("hostname"@.len() == 8);
    assert("port"@.len() == 4);
    assert("user"@.len() == 4);
    assert("identityfile"@.len() == 12);
    assert("identitiesonly"@.len() == 14);
    assert("stricthostkeychecking"@.len() == 21);
    assert("userknownhostsfile"@.len() == 18);
    assert("hashknownhosts"@.len() == 14);
    assert("localforward"@.len() == 12);
    assert("remoteforward"@.len() == 13);
    assert("forwardagent"@.len() == 12);
    assert("forwardx11"@.len() == 10);
    assert("forwardx11trusted"@.len() == 17);
    assert("requesttty"@.len() == 10);
    assert("loglevel"@.len() == 8);
    assert("hostname"@[0] == 'h' && "loglevel"@[0] == 'l');
    assert("port"@[0] == 'p' && "user"@[0] == 'u');
    assert("identityfile"@[0] == 'i' && "localforward"@[0] == 'l');
    assert("identityfile"@[0] == 'i' && "forwardagent"@[0] == 'f');
    assert("identitiesonly"@[0] == 'i' && "hashknownhosts"@[0] == 'h');
    assert("localforward"@[0] == 'l' && "forwardagent"@[0] == 'f');
    assert("forwardx11"@[0] == 'f' && "requesttty"@[0] == 'r');
}

/// The words are different.
proof fn lemma_words()
    ensures
        "yes"@ != "true"@,
        "yes"@ != "on"@,
        "yes"@ != "no"@,
        "yes"@ != "false"@,
        "yes"@ != "off"@,
        "yes"@ != "accept-new"@,
        "yes"@ != "ask"@,
        "yes"@ != "force"@,
        "yes"@ != "auto"@,
        "true"@ != "on"@,
        "true"@ != "no"@,
        "true"@ != "false"@,
        "true"@ != "off"@,
        "true"@ != "accept-new"@,
        "true"@ != "ask"@,
        "true"@ != "force"@,
        "true"@ != "auto"@,
        "on"@ != "no"@,
        "on"@ != "false"@,
        "on"@ != "off"@,
        "on"@ != "accept-new"@,
        "on"@ != "ask"@,
        "on"@ != "force"@,
        "on"@ != "auto"@,
        "no"@ != "false"@,
        "no"@ != "off"@,
        "no"@ != "accept-new"@,
        "no"@ != "ask"@,
        "no"@ != "force"@,
        "no"@ != "auto"@,
        "false"@ != "off"@,
        "false"@ != "accept-new"@,
        "false"@ != "ask"@,
        "false"@ != "force"@,
        "false"@ != "auto"@,
        "off"@ != "accept-new"@,
        "off"@ != "ask"@,
        "off"@ != "force"@,
        "off"@ != "auto"@,
        "accept-new"@ != "ask"@,
        "accept-new"@ != "force"@,
        "accept-new"@ != "auto"@,
        "ask"@ != "force"@,
        "ask"@ != "auto"@,
        "force"@ != "auto"@,
{
    reveal_strlit("yes");
    reveal_strlit("true");
    reveal_strlit("on");
    reveal_strlit("no");
    reveal_strlit("false");
    reveal_strlit("off");
    reveal_strlit("accept-new");
    reveal_strlit("ask");
    reveal_strlit("force");
    reveal_strlit("auto");
    assert("yes"@.len() == 3);
    assert("true"@.len() == 4);
    assert("on"@.len() == 2);
    assert("no"@.len() == 2);
    assert("false"@.len() == 5);
    assert("off"@.len() == 3);
    assert("accept-new"@.len() == 10);
    assert("ask"@.len() == 3);
    assert("force"@.len() == 5);
    assert("auto"@.len() == 4);
    assert("yes"@[0] == 'y' && "off"@[0] == 'o');
    assert("yes"@[0] == 'y' && "ask"@[0] == 'a');
    assert("true"@[0] == 't' && "auto"@[0] == 'a');
    assert("on"@[0] == 'o' && "no"@[0] == 'n');
    assert("false"@[1] == 'a' && "force"@[1] == 'o');
    assert("off"@[0] == 'o' && "ask"@[0] == 'a');
}

/// The levels are different.
proof fn lemma_levels()
    ensures
        "QUIET"@ != "FATAL"@,
        "QUIET"@ != "ERROR"@,
        "QUIET"@ != "INFO"@,
        "QUIET"@ != "VERBOSE"@,
        "QUIET"@ != "DEBUG"@,
        "QUIET"@ != "DEBUG1"@,
        "QUIET"@ != "DEBUG2"@,
        "QUIET"@ != "DEBUG3"@,
        "FATAL"@ != "ERROR"@,
        "FATAL"@ != "INFO"@,
        "FATAL"@ != "VERBOSE"@,
        "FATAL"@ != "DEBUG"@,
        "FATAL"@ != "DEBUG1"@,
        "FATAL"@ != "DEBUG2"@,
        "FATAL"@ != "DEBUG3"@,
        "ERROR"@ != "INFO"@,
        "ERROR"@ != "VERBOSE"@,
        "ERROR"@ != "DEBUG"@,
        "ERROR"@ != "DEBUG1"@,
        "ERROR"@ != "DEBUG2"@,
        "ERROR"@ != "DEBUG3"@,
        "INFO"@ != "VERBOSE"@,
        "INFO"@ != "DEBUG"@,
        "INFO"@ != "DEBUG1"@,
        "INFO"@ != "DEBUG2"@,
        "INFO"@ != "DEBUG3"@,
        "VERBOSE"@ != "DEBUG"@,
        "VERBOSE"@ != "DEBUG1"@,
        "VERBOSE"@ != "DEBUG2"@,
        "VERBOSE"@ != "DEBUG3"@,
        "DEBUG"@ != "DEBUG1"@,
        "DEBUG"@ != "DEBUG2"@,
        "DEBUG"@ != "DEBUG3"@,
        "DEBUG1"@ != "DEBUG2"@,
        "DEBUG1"@ != "DEBUG3"@,
        "DEBUG2"@ != "DEBUG3"@,
{
    reveal_strlit("QUIET");
    reveal_strlit("FATAL");
    reveal_strlit("ERROR");
    reveal_strlit("INFO");
    reveal_strlit("VERBOSE");
    reveal_strlit("DEBUG");
    reveal_strlit("DEBUG1");
    reveal_strlit("DEBUG2");
    reveal_strlit("DEBUG3");
    assert("QUIET"@.len() == 5);
    assert("FATAL"@.len() == 5);
    assert("ERROR"@.len() == 5);
    assert("INFO"@.len() == 4);
    assert("VERBOSE"@.len() == 7);
    assert("DEBUG"@.len() == 5);
    assert("DEBUG1"@.len() == 6);
    assert("DEBUG2"@.len() == 6);
    assert("DEBUG3"@.len() == 6);
    assert("QUIET"@[0] == 'Q' && "FATAL"@[0] == 'F');
    assert("QUIET"@[0] == 'Q' && "ERROR"@[0] == 'E');
    assert("QUIET"@[0] == 'Q' && "DEBUG"@[0] == 'D');
    assert("FATAL"@[0] == 'F' && "ERROR"@[0] == 'E');
    assert("FATAL"@[0] == 'F' && "DEBUG"@[0] == 'D');
    assert("ERROR"@[0] == 'E' && "DEBUG"@[0] == 'D');
    assert("DEBUG1"@[5] == '1' && "DEBUG2"@[5] == '2');
    assert("DEBUG1"@[5] == '1' && "DEBUG3"@[5] == '3');
    assert("DEBUG2"@[5] == '2' && "DEBUG3"@[5] == '3');
}

} // verus!
