//! What an `sshd_config` file may not say.

use super::match_block::{match_line, MatchSide};
use super::parser::ParsedLineView;
use super::server::{
    entries, entry, first_malformed, first_unsupported, host_port_list, invalid_in_match,
    malformed_user, max_startups_value, method_supported, methods_value, rekey_limit_value,
    subsystem_value, user_list, word_list, FILE_SCOPE, SshServerConfigView,
};
use super::ConfigErrorView;
use crate::text::{first_index, lemma_first_index, lower_text, pieces, views};
use vstd::prelude::*;

verus! {

/// A `Match` block may set anything but what has a meaning for the server as a
/// whole: where it listens, its keys, its logs, how it takes connections in, and
/// how it encrypts them.
pub proof fn lemma_file_scope(cfg: SshServerConfigView, line: ParsedLineView)
    ensures
        ({
            let kw = line.keyword;
            let whole = kw == "port"@ || kw == "listenaddress"@ || kw == "hostkey"@ || kw
                == "addressfamily"@ || kw == "pidfile"@ || kw == "loglevel"@ || kw == "compression"@
                || kw == "rekeylimit"@ || kw == "logingracetime"@ || kw == "maxstartups"@ || kw
                == "strictmodes"@ || kw == "include"@ || kw == "subsystem"@ || kw == "permittunnel"@;
            &&& invalid_in_match(kw) <==> whole
            &&& whole && kw != "match"@ && cfg.match_blocks.len() > 0 ==> cfg.with_line(line) is Err
        }),
        line.keyword == "match"@ && match_line(
            line.args,
            line.line_no,
            MatchSide::Server,
        ) is Err ==> cfg.with_line(line) is Err,
        line.keyword == "match"@ && line.args.len() == 0 ==> cfg.with_line(line) is Err,
{
    let names = views(FILE_SCOPE@);
    assert(names =~= seq![
        "port"@,
        "listenaddress"@,
        "hostkey"@,
        "addressfamily"@,
        "pidfile"@,
        "loglevel"@,
        "compression"@,
        "rekeylimit"@,
        "logingracetime"@,
        "maxstartups"@,
        "strictmodes"@,
        "include"@,
        "subsystem"@,
        "permittunnel"@,
    ]);
    assert(names.contains(names[0]) && names.contains(names[1]) && names.contains(names[2])
        && names.contains(names[3]) && names.contains(names[4]) && names.contains(names[5])
        && names.contains(names[6]) && names.contains(names[7]) && names.contains(names[8])
        && names.contains(names[9]) && names.contains(names[10]) && names.contains(names[11])
        && names.contains(names[12]) && names.contains(names[13]));
}

/// A user is a name, or a name and a host with one `@` between them, neither of
/// which is empty.
pub proof fn lemma_user_patterns(user: Seq<char>, host: Seq<char>)
    requires
        !user.contains('@'),
    ensures
        !malformed_user(user),
        malformed_user(user + seq!['@'] + host) <==> user.len() == 0 || host.len() == 0
            || host.contains('@'),
{
    lemma_first_index(user, '@');
    if let Some(i) = first_index(user, '@') {
        assert(user.contains(user[i]));
    }
    let s = user + seq!['@'] + host;
    lemma_first_index(s, '@');
    assert(s[user.len() as int] == '@');
    assert(s.contains('@'));
    let i = first_index(s, '@')->0;
    if i < user.len() {
        assert(s[i] == user[i]);
    }
    assert(s.skip(i + 1) =~= host);
}

/// A list of users is taken as it is where each of its words is one, and a list of
/// words where there is any.
pub proof fn lemma_lists_of_users(line: ParsedLineView, missing: Seq<char>)
    ensures
        word_list(line, missing) is Ok <==> line.args.len() > 0,
        word_list(line, missing) is Ok ==> word_list(line, missing)->Ok_0 == line.args,
        user_list(line, missing) is Ok <==> line.args.len() > 0 && forall|i: int|
            0 <= i < line.args.len() ==> !malformed_user(#[trigger] line.args[i]),
        user_list(line, missing) is Ok ==> user_list(line, missing)->Ok_0 == line.args,
{
    lemma_malformed(line.args);
}

proof fn lemma_malformed(tokens: Seq<Seq<char>>)
    ensures
        first_malformed(tokens) is None <==> forall|i: int|
            0 <= i < tokens.len() ==> !malformed_user(#[trigger] tokens[i]),
    decreases tokens.len(),
{
    if tokens.len() > 0 {
        let rest = tokens.skip(1);
        lemma_malformed(rest);
        if first_malformed(tokens) is None {
            assert forall|i: int| 0 <= i < tokens.len() implies !malformed_user(
                #[trigger] tokens[i],
            ) by {
                if i > 0 {
                    assert(rest[i - 1] == tokens[i]);
                }
            }
        }
        if forall|i: int| 0 <= i < tokens.len() ==> !malformed_user(#[trigger] tokens[i]) {
            assert forall|i: int| 0 <= i < rest.len() implies !malformed_user(#[trigger] rest[i]) by {
                assert(rest[i] == tokens[i + 1]);
            }
        }
    }
}

/// The only method that can be asked for is a public key, or whatever there is.
pub proof fn lemma_authentication_methods(line: ParsedLineView)
    ensures
        forall|alt: Seq<char>| #[trigger]
            method_supported(alt) <==> alt == "any"@ || pieces(alt, ',', false)
                == seq!["publickey"@],
        methods_value(line) is Ok <==> line.args.len() > 0 && forall|i: int|
            0 <= i < line.args.len() ==> method_supported(#[trigger] line.args[i]),
        methods_value(line) is Ok ==> methods_value(line)->Ok_0 == line.args,
{
    lemma_supported(line.args);
}

proof fn lemma_supported(alts: Seq<Seq<char>>)
    ensures
        first_unsupported(alts) is None <==> forall|i: int|
            0 <= i < alts.len() ==> method_supported(#[trigger] alts[i]),
    decreases alts.len(),
{
    if alts.len() > 0 {
        let rest = alts.skip(1);
        lemma_supported(rest);
        if first_unsupported(alts) is None {
            assert forall|i: int| 0 <= i < alts.len() implies method_supported(
                #[trigger] alts[i],
            ) by {
                if i > 0 {
                    assert(rest[i - 1] == alts[i]);
                }
            }
        }
        if forall|i: int| 0 <= i < alts.len() ==> method_supported(#[trigger] alts[i]) {
            assert forall|i: int| 0 <= i < rest.len() implies method_supported(#[trigger] rest[i]) by {
                assert(rest[i] == alts[i + 1]);
            }
        }
    }
}

/// A list of hosts and ports is each of its entries, in order, and is refused
/// where one of them is none, or where there is none at all.
pub proof fn lemma_lists_of_entries(texts: Seq<Seq<char>>, line: ParsedLineView)
    ensures
        line.args.len() == 0 ==> host_port_list(line) is Err,
        line.args.len() > 1 ==> host_port_list(line) == entries(line.args, line),
        entries(texts, line) is Ok <==> forall|i: int|
            0 <= i < texts.len() ==> entry(#[trigger] texts[i]) is Some,
        entries(texts, line) is Ok ==> entries(texts, line)->Ok_0.len() == texts.len() && forall|
            i: int,
        |
            0 <= i < texts.len() ==> #[trigger] entries(texts, line)->Ok_0[i] == entry(texts[i])->0,
    decreases texts.len(),
{
    if texts.len() > 0 {
        let front = texts.drop_last();
        lemma_lists_of_entries(front, line);
        if forall|i: int| 0 <= i < texts.len() ==> entry(#[trigger] texts[i]) is Some {
            assert forall|i: int| 0 <= i < front.len() implies entry(#[trigger] front[i]) is Some by {
                assert(front[i] == texts[i]);
            }
            assert(entry(texts[texts.len() - 1]) is Some);
        }
        if entries(texts, line) is Ok {
            let all = entries(texts, line)->Ok_0;
            assert forall|i: int| 0 <= i < texts.len() implies entry(#[trigger] texts[i]) is Some by {
                if i < front.len() {
                    assert(front[i] == texts[i]);
                }
            }
            assert forall|i: int| 0 <= i < texts.len() implies #[trigger] all[i] == entry(
                texts[i],
            )->0 by {
                if i < front.len() {
                    assert(front[i] == texts[i]);
                    assert(entries(front, line)->Ok_0[i] == all[i]);
                }
            }
        }
    }
}

/// `MaxStartups` is one number, not three; `RekeyLimit` has one or two words; and
/// `Subsystem` is the SFTP server that is built in.
pub proof fn lemma_limits_that_are_refused(line: ParsedLineView)
    ensures
        line.args.len() == 1 && line.args[0].contains(':') ==> max_startups_value(line) is Err,
        line.args.len() != 1 ==> max_startups_value(line) is Err,
        line.args.len() == 0 || line.args.len() > 2 ==> rekey_limit_value(line) is Err,
        subsystem_value(line) is Ok <==> line.args.len() >= 2 && lower_text(line.args[0])
            == "sftp"@ && lower_text(line.args[1]) == "internal-sftp"@,
{
}

} // verus!
