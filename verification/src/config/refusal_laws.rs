//! What a configuration may not say: for every kind of value, which texts stand
//! for one and which are refused.

use super::address::{ip_value, ipv6_text};
use super::algos::{
    any_glob_matches, catalogue, directive, in_order, lemma_first_unknown, resolution, AlgoCategory,
};
use super::client::{
    with_directive, with_line, BlockView, ClientOptionsView, SshClientConfig, SshClientConfigView,
};
use super::glob::glob_matches;
use super::host_port::{host_port, host_port_pattern, is_host_port};
use super::match_block::{
    addresses_match, criterion, is_match_line, lemma_full_prefix_is_the_address, port_list,
    AddressPatternView, MatchCondition, MatchConditionView, MatchSide,
};
use super::parser::ParsedLineView;
use super::server::{SshServerConfig, SshServerConfigView};
use super::value::{integer_value, port_value, switch_value};
use super::{agrees, ConfigError, ConfigErrorView};
use crate::text::{
    all_digits, digits_value, first_index, is_digit, is_space, last_index, lemma_first_index,
    lemma_last_index, lower_text, parse_unsigned, trim, trim_end, trim_start,
};
use vstd::prelude::*;

verus! {

/// Whether a text is a number: digits, of which there is at least one, behind a
/// plus sign or not.
pub open spec fn is_number(s: Seq<char>) -> bool {
    let digits = if s.len() > 0 && s[0] == '+' {
        s.skip(1)
    } else {
        s
    };
    digits.len() > 0 && only_digits(digits)
}

/// Whether every character of a text is between `0` and `9`.
pub open spec fn only_digits(s: Seq<char>) -> bool {
    forall|i: int| 0 <= i < s.len() ==> '0' <= #[trigger] s[i] <= '9'
}

/// A number is what its digits say, ten times as much for each place, and no text
/// but a number is one.
pub proof fn lemma_numbers(s: Seq<char>, c: char, max: nat)
    requires
        s.len() > 0 ==> s[0] != '+',
        '0' <= c <= '9',
    ensures
        digits_value(Seq::<char>::empty()) == 0,
        digits_value(s.push(c)) == 10 * digits_value(s) + (c as int - '0' as int),
        parse_unsigned(s, max) is Some <==> is_number(s) && digits_value(s) <= max,
        parse_unsigned(s, max) is Some ==> parse_unsigned(s, max)->0 == digits_value(s),
        parse_unsigned(seq!['+'] + s, max) is Some <==> is_number(s) && digits_value(s) <= max,
        parse_unsigned(seq!['+'] + s, max) is Some ==> parse_unsigned(seq!['+'] + s, max)->0
            == digits_value(s),
{
    assert(s.push(c).drop_last() =~= s);
    assert((seq!['+'] + s).skip(1) =~= s);
    assert((seq!['+'] + s)[0] == '+');
    assert(is_number(s) == (s.len() > 0 && all_digits(s))) by {
        if only_digits(s) {
            assert forall|i: int| 0 <= i < s.len() implies is_digit(#[trigger] s[i]) by {
                assert('0' <= s[i] <= '9');
            }
        }
        if all_digits(s) {
            assert forall|i: int| 0 <= i < s.len() implies '0' <= #[trigger] s[i] <= '9' by {
                assert(is_digit(s[i]));
            }
        }
    }
}

/// White space around a text does not belong to it, and nothing else is taken
/// away.
pub proof fn lemma_trimming(before: Seq<char>, text: Seq<char>, behind: Seq<char>)
    requires
        forall|i: int| 0 <= i < before.len() ==> is_space(#[trigger] before[i]),
        forall|i: int| 0 <= i < behind.len() ==> is_space(#[trigger] behind[i]),
        text.len() > 0,
        !is_space(text[0]),
        !is_space(text.last()),
    ensures
        trim(before + text + behind) == text,
        is_space(' ') && is_space('\t') && is_space('\n') && is_space('\r'),
        forall|c: char| '!' <= c <= '~' ==> !#[trigger] is_space(c),
{
    lemma_trim_start(before, text + behind);
    assert(before + (text + behind) =~= before + text + behind);
    lemma_trim_end(text, behind);
}

proof fn lemma_trim_start(before: Seq<char>, text: Seq<char>)
    requires
        forall|i: int| 0 <= i < before.len() ==> is_space(#[trigger] before[i]),
        text.len() > 0,
        !is_space(text[0]),
    ensures
        trim_start(before + text) == text,
    decreases before.len(),
{
    let s = before + text;
    if before.len() == 0 {
        assert(s =~= text);
    } else {
        assert(s[0] == before[0]);
        assert(s.skip(1) =~= before.skip(1) + text);
        lemma_trim_start(before.skip(1), text);
    }
}

proof fn lemma_trim_end(text: Seq<char>, behind: Seq<char>)
    requires
        forall|i: int| 0 <= i < behind.len() ==> is_space(#[trigger] behind[i]),
        text.len() > 0,
        !is_space(text.last()),
    ensures
        trim_end(text + behind) == text,
    decreases behind.len(),
{
    let s = text + behind;
    if behind.len() == 0 {
        assert(s =~= text);
    } else {
        assert(s.last() == behind.last());
        assert(s.drop_last() =~= text + behind.drop_last());
        lemma_trim_end(text, behind.drop_last());
    }
}

/// A port is a number up to 65535, an integer one of 32 bits, a switch one of six
/// words in any case; each stands alone on its line.
pub proof fn lemma_values_are_checked(line: ParsedLineView)
    ensures
        line.args.len() != 1 ==> port_value(line) is Err && integer_value(line) is Err
            && switch_value(line) is Err,
        line.args.len() == 1 ==> {
            let word = line.args[0];
            let small = lower_text(word);
            &&& port_value(line) is Ok <==> parse_unsigned(word, 65_535) is Some
            &&& port_value(line) is Ok ==> port_value(line)->Ok_0 == parse_unsigned(
                word,
                65_535,
            )->0
            &&& integer_value(line) is Ok <==> parse_unsigned(word, 0xffff_ffff) is Some
            &&& integer_value(line) is Ok ==> integer_value(line)->Ok_0 == parse_unsigned(
                word,
                0xffff_ffff,
            )->0
            &&& switch_value(line) is Ok <==> small == "yes"@ || small == "true"@ || small == "on"@
                || small == "no"@ || small == "false"@ || small == "off"@
        },
{
}

/// A line of `ssh_config` whose keyword is none of those known is an error, as is
/// a `Host` or `Match` line without anything on it, and an `Include` that has not
/// been replaced.
pub proof fn lemma_unknown_lines_are_refused(
    o: ClientOptionsView,
    blocks: Seq<BlockView>,
    line: ParsedLineView,
)
    requires
        blocks.len() > 0,
    ensures
        ({
            let kw = line.keyword;
            let known = kw == "hostname"@ || kw == "port"@ || kw == "user"@ || kw == "identityfile"@
                || kw == "identitiesonly"@ || kw == "stricthostkeychecking"@ || kw
                == "userknownhostsfile"@ || kw == "hashknownhosts"@ || kw == "localforward"@ || kw
                == "remoteforward"@ || kw == "forwardagent"@ || kw == "forwardx11"@ || kw
                == "forwardx11trusted"@ || kw == "requesttty"@ || kw == "loglevel"@;
            &&& !known ==> with_directive(o, line) is Err
            &&& !known && kw != "host"@ && kw != "match"@ ==> with_line(blocks, line) is Err
            &&& kw == "host"@ && line.args.len() == 0 ==> with_line(blocks, line) is Err
            &&& kw == "match"@ && line.args.len() == 0 ==> with_line(blocks, line) is Err
            &&& kw == "include"@ ==> with_line(blocks, line) is Err
        }),
{
    reveal_strlit("host");
    reveal_strlit("match");
    reveal_strlit("include");
    assert("host"@.len() == 4 && "match"@.len() == 5 && "include"@.len() == 7);
}

/// A host and port that are not written as one should are refused: nothing at
/// all, a bracket that is not closed or that has something else than a port
/// behind it, one around anything but an IPv6 address, a port without a host, and
/// a port that is none.
pub proof fn lemma_hosts_that_are_refused(
    host: Seq<char>,
    rest: Seq<char>,
    default_port: u16,
)
    ensures
        !ipv6_text(Seq::<char>::empty()) ==> host_port(Seq::<char>::empty(), default_port) is Err,
        !host.contains(']') ==> host_port(seq!['['] + host, default_port) is Err,
        !host.contains(']') ==> host_port_pattern(seq!['['] + host, default_port) is Err,
        !host.contains(']') && !ipv6_text(host) ==> host_port(
            seq!['['] + host + seq![']'] + rest,
            default_port,
        ) is Err,
        !host.contains(']') && rest.len() > 0 && rest[0] != ':' ==> host_port_pattern(
            seq!['['] + host + seq![']'] + rest,
            default_port,
        ) is Err,
        !host.contains(']') && rest.len() > 0 && rest[0] == ':' && parse_unsigned(
            rest.skip(1),
            65_535,
        ) is None ==> host_port_pattern(seq!['['] + host + seq![']'] + rest, default_port) is Err,
        !host.contains(']') ==> host_port_pattern(seq!['['] + host + seq![']'], default_port)
            == Ok::<(Seq<char>, u16), ConfigErrorView>((host, default_port)),
        ipv6_text(host) && !host.contains(']') ==> host_port(
            seq!['['] + host + seq![']'],
            default_port,
        ) == Ok::<(Seq<char>, u16), ConfigErrorView>((host, default_port)),
        host.len() > 0 && host[0] != '[' ==> host_port_pattern(host, default_port) == Ok::<
            (Seq<char>, u16),
            ConfigErrorView,
        >((host, default_port)),
        !rest.contains(':') && !ipv6_text(seq![':'] + rest) ==> host_port(
            seq![':'] + rest,
            default_port,
        ) is Err,
        host.len() > 0 && host[0] != '[' && !rest.contains(':') && !ipv6_text(
            host + seq![':'] + rest,
        ) && parse_unsigned(rest, 65_535) is None ==> host_port(
            host + seq![':'] + rest,
            default_port,
        ) is Err,
{
    lemma_unclosed(host);
    lemma_closed(host, rest);
    lemma_closed(host, Seq::empty());
    let closed = seq!['['] + host + seq![']'] + Seq::<char>::empty();
    assert(closed =~= seq!['['] + host + seq![']']);
    lemma_last_colon(Seq::empty(), rest);
    assert(Seq::<char>::empty() + seq![':'] + rest =~= seq![':'] + rest);
    lemma_last_colon(host, rest);
    assert((seq!['['] + host)[0] == '[');
    assert((seq!['['] + host + seq![']'] + rest)[0] == '[');
    if host.len() > 0 {
        assert((host + seq![':'] + rest)[0] == host[0]);
    }
    assert((seq![':'] + rest)[0] == ':');
}

proof fn lemma_unclosed(host: Seq<char>)
    ensures
        !host.contains(']') ==> first_index((seq!['['] + host).skip(1), ']') is None,
{
    assert((seq!['['] + host).skip(1) =~= host);
    lemma_first_index(host, ']');
    if let Some(i) = first_index(host, ']') {
        assert(host.contains(host[i]));
    }
}

proof fn lemma_closed(host: Seq<char>, rest: Seq<char>)
    ensures
        !host.contains(']') ==> ({
            let inner = (seq!['['] + host + seq![']'] + rest).skip(1);
            &&& first_index(inner, ']') == Some(host.len() as int)
            &&& inner.take(host.len() as int) == host
            &&& inner.skip(host.len() as int + 1) == rest
        }),
{
    let inner = (seq!['['] + host + seq![']'] + rest).skip(1);
    assert(inner =~= host + seq![']'] + rest);
    lemma_first_index(inner, ']');
    assert(inner[host.len() as int] == ']');
    assert(inner.contains(']'));
    if !host.contains(']') {
        let i = first_index(inner, ']')->0;
        if i < host.len() {
            assert(inner[i] == host[i]);
        }
        assert(inner.take(host.len() as int) =~= host);
        assert(inner.skip(host.len() as int + 1) =~= rest);
    }
}

proof fn lemma_last_colon(host: Seq<char>, rest: Seq<char>)
    ensures
        !rest.contains(':') ==> ({
            let s = host + seq![':'] + rest;
            &&& last_index(s, ':') == Some(host.len() as int)
            &&& s.skip(host.len() as int + 1) == rest
        }),
{
    let s = host + seq![':'] + rest;
    lemma_last_index(s, ':');
    assert(s[host.len() as int] == ':');
    assert(s.contains(':'));
    if !rest.contains(':') {
        let i = last_index(s, ':')->0;
        if i > host.len() {
            assert(s[i] == rest[i - host.len() - 1]);
        }
        assert(s.skip(host.len() as int + 1) =~= rest);
    }
}

/// A list of algorithms is refused where it names none, where it names one that
/// is not known, unless to take it away, and where nothing is left of it. What is
/// left after taking some away is in the order in which it was.
pub proof fn lemma_algorithms_that_are_refused(
    cat: AlgoCategory,
    args: Seq<Seq<char>>,
    line: usize,
    keyword: Seq<char>,
)
    ensures
        ({
            let (sign, names) = directive(args);
            let r = resolution(cat, args, line, keyword);
            &&& names.len() == 0 ==> r is Err
            &&& sign != Some('-') && names.len() > 0 ==> (r is Err <==> exists|n: Seq<char>|
                #[trigger] names.contains(n) && !catalogue(cat).contains(n))
            &&& sign == Some('-') && names.len() > 0 ==> (r is Err <==> forall|n: Seq<char>|
                #[trigger] catalogue(cat).contains(n) ==> any_glob_matches(names, n))
            &&& sign == Some('-') && r is Ok ==> forall|i: int, j: int|
                0 <= i < j < r->Ok_0.len() ==> in_order(
                    catalogue(cat),
                    #[trigger] r->Ok_0[i],
                    #[trigger] r->Ok_0[j],
                )
        }),
{
    let (sign, names) = directive(args);
    let all = catalogue(cat);
    lemma_first_unknown(names, all);
    let keep = |n: Seq<char>| !any_glob_matches(names, n);
    let kept = all.filter(keep);
    lemma_filter_in_order(all, keep);
    if names.len() > 0 {
        super::algos::lemma_extended(all, names);
        super::algos::lemma_extended(names, all);
        super::algos::lemma_extended(Seq::empty(), names);
        assert(names.contains(names[0]));
        let chosen = super::algos::selection(sign, names, all);
        if sign != Some('-') && first_known(names, all) {
            assert(all.contains(names[0]));
            assert(chosen.contains(names[0]));
        }
    }
    if sign == Some('-') && names.len() > 0 {
        if kept.len() > 0 {
            all.lemma_filter_pred(keep, 0);
            assert(kept.contains(kept[0]));
            all.lemma_filter_contains_rev(keep, kept[0]);
        }
        if exists|n: Seq<char>| #[trigger] all.contains(n) && !any_glob_matches(names, n) {
            let n = choose|n: Seq<char>| #[trigger] all.contains(n) && !any_glob_matches(names, n);
            let i = choose|i: int| 0 <= i < all.len() && all[i] == n;
            assert(keep(all[i]));
            all.lemma_filter_contains(keep, i);
        }
    }
}

spec fn first_known(names: Seq<Seq<char>>, known: Seq<Seq<char>>) -> bool {
    forall|n: Seq<char>| #[trigger] names.contains(n) ==> known.contains(n)
}

proof fn lemma_filter_in_order(all: Seq<Seq<char>>, keep: spec_fn(Seq<char>) -> bool)
    ensures
        forall|i: int, j: int|
            0 <= i < j < all.filter(keep).len() ==> in_order(
                all,
                #[trigger] all.filter(keep)[i],
                #[trigger] all.filter(keep)[j],
            ),
    decreases all.len(),
{
    reveal(Seq::filter);
    if all.len() > 0 {
        let front = all.drop_last();
        lemma_filter_in_order(front, keep);
        let before = front.filter(keep);
        let kept = all.filter(keep);
        assert forall|i: int, j: int| 0 <= i < j < kept.len() implies in_order(
            all,
            #[trigger] kept[i],
            #[trigger] kept[j],
        ) by {
            if j < before.len() {
                assert(in_order(front, before[i], before[j]));
                let (a, b) = choose|a: int, b: int|
                    0 <= a < b < front.len() && (#[trigger] front[a]) == before[i] && (
                    #[trigger] front[b]) == before[j];
                assert(all[a] == kept[i] && all[b] == kept[j]);
            } else {
                assert(before.contains(before[i]));
                front.lemma_filter_contains_rev(keep, before[i]);
                let a = choose|a: int| 0 <= a < front.len() && front[a] == before[i];
                assert(all[a] == kept[i] && all[all.len() - 1] == kept[j]);
            }
        }
    }
}

/// Which criteria `Match` has on which side: those about the target only for
/// clients, those about the connection only for servers, and each with its
/// argument; `all`, `canonical` and `final` stand alone.
pub proof fn lemma_criteria_of_each_side(args: Seq<Seq<char>>, line: usize)
    requires
        args.len() > 0,
    ensures
        ({
            let kw = lower_text(args[0]);
            let at_client = criterion(args, line, MatchSide::Client);
            let at_server = criterion(args, line, MatchSide::Server);
            let alone = kw == "all"@ || kw == "canonical"@ || kw == "final"@;
            let both = kw == "user"@ || kw == "exec"@;
            let client = kw == "host"@ || kw == "originalhost"@ || kw == "localuser"@;
            let server = kw == "group"@ || kw == "address"@ || kw == "localaddress"@;
            &&& alone ==> at_client is Ok && at_server is Ok && at_client->Ok_0.1 == 1
                && at_server->Ok_0.1 == 1
            &&& both ==> (at_client is Ok <==> args.len() >= 2) && (at_server is Ok <==> args.len()
                >= 2)
            &&& client ==> (at_client is Ok <==> args.len() >= 2) && at_server is Err
            &&& server ==> at_client is Err && (at_server is Ok <==> args.len() >= 2)
            &&& kw == "localport"@ ==> at_client is Err
            &&& !alone && !both && !client && !server && kw != "localport"@ ==> at_client is Err
                && at_server is Err
            &&& (client || kw == "user"@) && at_client is Ok ==> at_client->Ok_0.1 == 2
            &&& server && at_server is Ok ==> at_server->Ok_0.1 == 2
        }),
{
    reveal_strlit("all");
    reveal_strlit("canonical");
    reveal_strlit("final");
    reveal_strlit("user");
    reveal_strlit("exec");
    reveal_strlit("host");
    reveal_strlit("originalhost");
    reveal_strlit("localuser");
    reveal_strlit("group");
    reveal_strlit("address");
    reveal_strlit("localaddress");
    reveal_strlit("localport");
    reveal_strlit("rdomain");
    reveal_strlit("connection");
    assert("all"@.len() == 3 && "canonical"@.len() == 9 && "final"@.len() == 5);
    assert("user"@.len() == 4 && "exec"@.len() == 4 && "host"@.len() == 4);
    assert("user"@[0] == 'u' && "exec"@[0] == 'e' && "host"@[0] == 'h');
    assert("originalhost"@.len() == 12 && "localuser"@.len() == 9 && "group"@.len() == 5);
    assert("address"@.len() == 7 && "localaddress"@.len() == 12 && "localport"@.len() == 9);
    assert("rdomain"@.len() == 7 && "connection"@.len() == 10);
    assert("canonical"@[0] == 'c' && "localuser"@[0] == 'l' && "localport"@[0] == 'l');
    assert("localuser"@[5] == 'u' && "localport"@[5] == 'p');
    assert("final"@[0] == 'f' && "group"@[0] == 'g');
    assert("originalhost"@[0] == 'o' && "localaddress"@[0] == 'l');
    assert("address"@[0] == 'a' && "rdomain"@[0] == 'r');
}

/// A list of addresses holds for an address that one of its entries names, unless
/// one that begins with `!` names it too.
pub proof fn lemma_address_lists(patterns: Seq<AddressPatternView>, addr: Seq<char>)
    ensures
        addresses_match(patterns, addr) <==> (exists|i: int|
            0 <= i < patterns.len() && !(#[trigger] patterns[i]).negated && patterns[i].hits(addr))
            && (forall|i: int|
            0 <= i < patterns.len() && (#[trigger] patterns[i]).negated ==> !patterns[i].hits(
                addr,
            )),
{
}

/// An entry that is an address holds for that address alone, and one that is
/// neither an address nor a range is a pattern for the text of the address.
pub proof fn lemma_plain_addresses(text: Seq<char>, addr: Seq<char>)
    requires
        !text.contains('/'),
        text.len() > 0 && text[0] != '!',
    ensures
        !AddressPatternView::parse(text).negated,
        ip_value(text) is Some ==> (AddressPatternView::parse(text).hits(addr) <==> ip_value(addr)
            == ip_value(text)),
        ip_value(text) is None ==> (AddressPatternView::parse(text).hits(addr) <==> glob_matches(
            text,
            addr,
        )),
{
    lemma_first_index(text, '/');
    if let Some(i) = first_index(text, '/') {
        assert(text.contains(text[i]));
    }
    if let Some(base) = ip_value(text) {
        if let Some(a) = ip_value(addr) {
            lemma_full_prefix_is_the_address(base, a);
        }
    }
}

/// A list of ports is every one of its entries, in order, and is refused where one
/// of them is no port.
pub proof fn lemma_port_lists(texts: Seq<Seq<char>>, line: usize)
    ensures
        port_list(texts, line) is Ok <==> forall|i: int|
            0 <= i < texts.len() ==> parse_unsigned(#[trigger] texts[i], 65_535) is Some,
        port_list(texts, line) is Ok ==> port_list(texts, line)->Ok_0.len() == texts.len()
            && forall|i: int|
            0 <= i < texts.len() ==> #[trigger] port_list(texts, line)->Ok_0[i] == parse_unsigned(
                texts[i],
                65_535,
            )->0,
    decreases texts.len(),
{
    if texts.len() > 0 {
        let front = texts.drop_last();
        lemma_port_lists(front, line);
        if forall|i: int| 0 <= i < texts.len() ==> parse_unsigned(#[trigger] texts[i], 65_535) is Some
        {
            assert forall|i: int| 0 <= i < front.len() implies parse_unsigned(
                #[trigger] front[i],
                65_535,
            ) is Some by {
                assert(front[i] == texts[i]);
            }
            assert(parse_unsigned(texts[texts.len() - 1], 65_535) is Some);
        }
        if port_list(texts, line) is Ok {
            assert forall|i: int| 0 <= i < texts.len() implies parse_unsigned(
                #[trigger] texts[i],
                65_535,
            ) is Some by {
                if i < front.len() {
                    assert(front[i] == texts[i]);
                }
            }
            let ports = port_list(texts, line)->Ok_0;
            assert forall|i: int| 0 <= i < texts.len() implies #[trigger] ports[i]
                == parse_unsigned(texts[i], 65_535)->0 by {
                if i < front.len() {
                    assert(front[i] == texts[i]);
                    assert(port_list(front, line)->Ok_0[i] == ports[i]);
                }
            }
        }
    }
}

/// A result says what was read, or what the complaint is.
pub proof fn lemma_results_agree(
    r: Result<(String, u16), ConfigError>,
    model: Result<(Seq<char>, u16), ConfigErrorView>,
    c: Result<SshClientConfig, ConfigError>,
    said: Result<SshClientConfigView, ConfigErrorView>,
    d: Result<SshServerConfig, ConfigError>,
    told: Result<SshServerConfigView, ConfigErrorView>,
    m: Result<Vec<MatchCondition>, ConfigError>,
    meant: Result<Seq<MatchConditionView>, ConfigErrorView>,
)
    ensures
        is_host_port(r, model) ==> {
            &&& r is Ok <==> model is Ok
            &&& r is Ok ==> r->Ok_0.0@ == model->Ok_0.0 && r->Ok_0.1 == model->Ok_0.1
            &&& r is Err ==> r->Err_0@ == model->Err_0
        },
        agrees(c, said) ==> {
            &&& c is Ok <==> said is Ok
            &&& c is Ok ==> c->Ok_0@ == said->Ok_0
            &&& c is Err ==> c->Err_0@ == said->Err_0
        },
        agrees(d, told) ==> {
            &&& d is Ok <==> told is Ok
            &&& d is Ok ==> d->Ok_0@ == told->Ok_0
            &&& d is Err ==> d->Err_0@ == told->Err_0
        },
        is_match_line(m, meant) ==> {
            &&& m is Ok <==> meant is Ok
            &&& m is Ok ==> m->Ok_0@.len() == meant->Ok_0.len() && forall|i: int|
                0 <= i < meant->Ok_0.len() ==> (#[trigger] m->Ok_0@[i])@ == meant->Ok_0[i]
            &&& m is Err ==> m->Err_0@ == meant->Err_0
        },
{
    if is_match_line(m, meant) && m is Ok {
        assert forall|i: int| 0 <= i < meant->Ok_0.len() implies (#[trigger] m->Ok_0@[i])@
            == meant->Ok_0[i] by {
            assert(crate::text::views(m->Ok_0@)[i] == m->Ok_0@[i]@);
        }
    }
}

} // verus!
