//! What the criteria of `Match` lines mean, and the lists in them.

use super::address::{ip_value, Ip};
use super::client_laws::{lemma_tokens_admit, tokens_admit};
use super::match_block::{
    addresses_match, criteria, criterion, match_line, width, AddressPatternView,
    MatchConditionView, MatchContext, MatchContextView, MatchSide,
};
use super::ConfigErrorView;
use crate::text::{
    decimal, first_index, join, lemma_decimal, lemma_filter_cons, lemma_first_index, lower_text,
    opt_view, parse_unsigned, pieces, split, trim, without_plus,
};
use vstd::arithmetic::power2::{lemma_pow2_pos, pow2};
use vstd::prelude::*;

verus! {

/// A list is its parts between the separators, in order, without the empty
/// ones.
pub proof fn lemma_list_parts(part: Seq<char>, rest: Seq<char>, c: char, trimming: bool)
    requires
        !part.contains(c),
    ensures
        ({
            let text = if trimming {
                trim(part)
            } else {
                part
            };
            let first = if text.len() > 0 {
                seq![text]
            } else {
                Seq::empty()
            };
            &&& pieces(part, c, trimming) == first
            &&& pieces(part + seq![c] + rest, c, trimming) == first + pieces(rest, c, trimming)
        }),
{
    let f = |t: Seq<char>|
        if trimming {
            trim(t)
        } else {
            t
        };
    let keep = |t: Seq<char>| t.len() > 0;
    let none = Seq::<Seq<char>>::empty();
    lemma_first_index(part, c);
    let n = part.len() as int;
    let s = part + seq![c] + rest;
    lemma_first_index(s, c);
    assert(s[n] == c);
    assert(s.contains(c));
    assert forall|k: int| 0 <= k < n implies s[k] != c by {
        assert(part.contains(part[k]));
    }
    assert(first_index(s, c) == Some(n));
    assert(s.take(n) =~= part);
    assert(s.skip(n + 1) =~= rest);
    assert(split(s, c) == seq![part] + split(rest, c));
    assert(split(part, c) == seq![part]);
    assert(split(s, c).map_values(f) =~= seq![f(part)] + split(rest, c).map_values(f));
    lemma_filter_cons(f(part), split(rest, c).map_values(f), keep);
    assert(split(part, c).map_values(f) =~= seq![f(part)] + none);
    lemma_filter_cons(f(part), none, keep);
    assert(none.filter(keep) =~= none) by {
        reveal(Seq::filter);
    }
    let first = if f(part).len() > 0 {
        seq![f(part)]
    } else {
        none
    };
    assert(first + none =~= first);
    assert(none + split(rest, c).map_values(f).filter(keep) =~= split(rest, c).map_values(
        f,
    ).filter(keep));
}

/// What is known of a connection stands for itself.
pub proof fn lemma_context_stands_for_itself(ctx: MatchContext<'_>)
    ensures
        ctx@.host == ctx.host@,
        ctx@.original_host == opt_view(ctx.original_host),
        ctx@.user == opt_view(ctx.user),
        ctx@.local_user == opt_view(ctx.local_user),
        ctx@.address == opt_view(ctx.address),
        ctx@.local_address == opt_view(ctx.local_address),
        ctx@.local_port == ctx.local_port,
        ctx@.groups is Some <==> ctx.groups is Some,
{
}

/// What a criterion with a list of patterns holds of: the host that is connected
/// to, the host that was asked for, the user there, the user here, or one of the
/// groups, whatever else is known.
pub proof fn lemma_pattern_criteria(
    word: Seq<char>,
    list: Seq<char>,
    rest: Seq<Seq<char>>,
    line: usize,
    side: MatchSide,
    ctx: MatchContextView,
)
    requires
        match_line(seq![word, list] + rest, line, side) is Ok,
    ensures
        ({
            let conds = match_line(seq![word, list] + rest, line, side)->Ok_0;
            let tokens = pieces(list, ',', false);
            let kw = lower_text(word);
            let named = kw == "host"@ || kw == "originalhost"@ || kw == "user"@ || kw
                == "localuser"@ || kw == "group"@;
            &&& named ==> conds.len() > 0 && criteria(rest, line, side) == Ok::<_, ConfigErrorView>(
                conds.skip(1),
            )
            &&& kw == "host"@ ==> (conds[0].holds(ctx) <==> tokens_admit(tokens, ctx.host))
            &&& kw == "originalhost"@ ==> (conds[0].holds(ctx) <==> tokens_admit(
                tokens,
                if ctx.original_host is Some {
                    ctx.original_host->0
                } else {
                    ctx.host
                },
            ))
            &&& kw == "user"@ ==> (conds[0].holds(ctx) <==> ctx.user is Some && tokens_admit(
                tokens,
                ctx.user->0,
            ))
            &&& kw == "localuser"@ ==> (conds[0].holds(ctx) <==> ctx.local_user is Some
                && tokens_admit(tokens, ctx.local_user->0))
            &&& kw == "group"@ ==> (conds[0].holds(ctx) <==> ctx.groups is Some && exists|i: int|
                0 <= i < ctx.groups->0.len() && tokens_admit(tokens, #[trigger] ctx.groups->0[i]))
        }),
{
    let args = seq![word, list] + rest;
    let tokens = pieces(list, ',', false);
    let kw = lower_text(word);
    lemma_criterion_words();
    assert(args.skip(2) =~= rest);
    assert(args.skip(1) =~= seq![list] + rest);
    lemma_tokens_admit(tokens, ctx.host);
    lemma_tokens_admit(tokens, ctx.asked_for());
    lemma_tokens_admit(tokens, ctx.user->0);
    lemma_tokens_admit(tokens, ctx.local_user->0);
    assert forall|i: int| 0 <= i < ctx.groups->0.len() implies super::glob::list_matches(
        super::match_block::pattern_list(list),
        #[trigger] ctx.groups->0[i],
    ) == tokens_admit(tokens, ctx.groups->0[i]) by {
        lemma_tokens_admit(tokens, ctx.groups->0[i]);
    }
    if kw == "host"@ || kw == "originalhost"@ || kw == "user"@ || kw == "localuser"@ || kw
        == "group"@ {
        let conds = match_line(args, line, side)->Ok_0;
        let more = criteria(rest, line, side);
        assert(more is Ok);
        assert(conds.skip(1) =~= more->Ok_0);
    }
}

/// What the other criteria hold of: the address of the peer, the address and the
/// port that it was accepted on, everything, or nothing.
pub proof fn lemma_other_criteria(
    word: Seq<char>,
    list: Seq<char>,
    line: usize,
    side: MatchSide,
    ctx: MatchContextView,
    port: u16,
)
    ensures
        ({
            let kw = lower_text(word);
            let two = match_line(seq![word, list], line, side);
            let one = match_line(seq![word], line, side);
            let patterns = super::match_block::address_list(list);
            &&& two is Ok && kw == "address"@ ==> (two->Ok_0[0].holds(ctx) <==> ctx.address is Some
                && addresses_match(patterns, ctx.address->0))
            &&& two is Ok && kw == "localaddress"@ ==> (two->Ok_0[0].holds(ctx)
                <==> ctx.local_address is Some && addresses_match(
                patterns,
                ctx.local_address->0,
            ))
            &&& side == MatchSide::Server && kw == "localport"@ && list == decimal(port as nat)
                ==> two is Ok && (two->Ok_0[0].holds(ctx) <==> ctx.local_port == Some(port))
            &&& kw == "all"@ ==> one is Ok && one->Ok_0.len() == 1 && one->Ok_0[0].holds(ctx)
            &&& kw == "canonical"@ || kw == "final"@ ==> one is Ok && one->Ok_0.len() == 1
                && !one->Ok_0[0].holds(ctx)
            &&& kw == "exec"@ ==> two is Ok && two->Ok_0 == seq![MatchConditionView::Exec(list)]
        }),
{
    lemma_criterion_words();
    let two = seq![word, list];
    let one = seq![word];
    let none = Seq::<Seq<char>>::empty();
    assert(two.skip(2) =~= none);
    assert(one.skip(1) =~= none);
    assert(two.skip(1) =~= seq![list]);
    assert(criteria(none, line, side) == Ok::<_, ConfigErrorView>(
        Seq::<MatchConditionView>::empty(),
    ));
    assert(join(seq![list], " "@) == list);
    reveal_with_fuel(criteria, 2);
    if list == decimal(port as nat) {
        lemma_decimal(port as nat);
        let d = decimal(port as nat);
        assert(crate::text::is_digit(d[0]));
        assert(without_plus(d) =~= d);
        assert(!d.contains(',')) by {
            if d.contains(',') {
                let k = choose|k: int| 0 <= k < d.len() && d[k] == ',';
                assert(crate::text::is_digit(d[k]));
            }
        }
        lemma_list_parts(d, Seq::empty(), ',', false);
        assert(pieces(d, ',', false) =~= seq![d]);
        assert(seq![d].drop_last() =~= none);
        reveal_with_fuel(super::match_block::port_list, 2);
        let ports = Seq::<u16>::empty().push(port);
        assert(super::match_block::port_list(seq![d], line) == Ok::<_, ConfigErrorView>(ports));
        assert(ports[0] == port);
        assert forall|p: u16| ports.contains(p) <==> p == port by {
            if p == port {
                assert(ports.contains(ports[0]));
            }
        }
    }
    if criterion(two, line, side) is Ok {
        let cond = criterion(two, line, side)->Ok_0.0;
        assert(seq![cond] + Seq::<MatchConditionView>::empty() =~= seq![cond]);
    }
    if criterion(one, line, side) is Ok {
        let cond = criterion(one, line, side)->Ok_0.0;
        assert(seq![cond] + Seq::<MatchConditionView>::empty() =~= seq![cond]);
    }
}

/// A range of addresses `base/prefix` holds those that lie in the block of its
/// size that `base` lies in, and no others; a `!` turns the entry around.
pub proof fn lemma_address_ranges(text: Seq<char>, prefix: u8, addr: Seq<char>)
    requires
        ip_value(text) is Some,
        !text.contains('/'),
        text.len() > 0 && text[0] != '!',
        prefix <= width(ip_value(text)->0),
    ensures
        ({
            let written = text + seq!['/'] + decimal(prefix as nat);
            let plain = AddressPatternView::parse(written);
            let turned = AddressPatternView::parse(seq!['!'] + written);
            let holds = match (ip_value(text), ip_value(addr)) {
                (Some(Ip::V4(b)), Some(Ip::V4(a))) => {
                    let size = pow2((32 - prefix) as nat);
                    b as nat - b as nat % size <= a < b as nat - b as nat % size + size
                },
                (Some(Ip::V6(b)), Some(Ip::V6(a))) => {
                    let size = pow2((128 - prefix) as nat);
                    b as nat - b as nat % size <= a < b as nat - b as nat % size + size
                },
                _ => false,
            };
            &&& !plain.negated && turned.negated
            &&& plain.hits(addr) <==> holds
            &&& turned.hits(addr) <==> holds
        }),
{
    let d = decimal(prefix as nat);
    let written = text + seq!['/'] + d;
    let n = text.len() as int;
    lemma_decimal(prefix as nat);
    assert(crate::text::is_digit(d[0]));
    assert(without_plus(d) =~= d);
    lemma_first_index(written, '/');
    assert(written[n] == '/');
    assert(written.contains('/'));
    assert forall|k: int| 0 <= k < n implies written[k] != '/' by {
        assert(text.contains(text[k]));
    }
    assert(first_index(written, '/') == Some(n));
    assert(written.take(n) =~= text);
    assert(written.skip(n + 1) =~= d);
    assert(written[0] == text[0]);
    assert((seq!['!'] + written).skip(1) =~= written);
    assert(parse_unsigned(d, 255) == Some(prefix as nat));
    match (ip_value(text), ip_value(addr)) {
        (Some(Ip::V4(b)), Some(Ip::V4(a))) => {
            lemma_same_block(b as nat, a as nat, pow2((32 - prefix) as nat), (32 - prefix) as nat);
        },
        (Some(Ip::V6(b)), Some(Ip::V6(a))) => {
            lemma_same_block(
                b as nat,
                a as nat,
                pow2((128 - prefix) as nat),
                (128 - prefix) as nat,
            );
        },
        _ => {},
    }
}

proof fn lemma_same_block(b: nat, a: nat, size: nat, e: nat)
    requires
        size == pow2(e),
    ensures
        b / size == a / size <==> b - b % size <= a < b - b % size + size,
{
    lemma_pow2_pos(e);
    vstd::arithmetic::div_mod::lemma_fundamental_div_mod(b as int, size as int);
    vstd::arithmetic::div_mod::lemma_fundamental_div_mod(a as int, size as int);
    let q = (b / size) as int;
    let p = (a / size) as int;
    let r = (a % size) as int;
    let s = size as int;
    assert(0 <= r < s);
    assert(a == s * p + r);
    assert(b - b % size == s * q);
    if p == q {
    } else if p < q {
        assert(s * p + s <= s * q) by (nonlinear_arith)
            requires
                p + 1 <= q,
                s > 0,
        ;
    } else {
        assert(s * q + s <= s * p) by (nonlinear_arith)
            requires
                q + 1 <= p,
                s > 0,
        ;
    }
}

proof fn lemma_criterion_words()
    ensures
        "all"@.len() == 3,
        "canonical"@.len() == 9,
        "canonical"@[0] == 'c',
        "final"@.len() == 5,
        "final"@[0] == 'f',
        "host"@.len() == 4,
        "host"@[0] == 'h',
        "originalhost"@.len() == 12,
        "originalhost"@[0] == 'o',
        "localuser"@.len() == 9,
        "localuser"@[0] == 'l',
        "localuser"@[5] == 'u',
        "rdomain"@.len() == 7,
        "rdomain"@[0] == 'r',
        "connection"@.len() == 10,
        "user"@.len() == 4,
        "user"@[0] == 'u',
        "group"@.len() == 5,
        "group"@[0] == 'g',
        "address"@.len() == 7,
        "address"@[0] == 'a',
        "localaddress"@.len() == 12,
        "localaddress"@[0] == 'l',
        "localport"@.len() == 9,
        "localport"@[0] == 'l',
        "localport"@[5] == 'p',
        "exec"@.len() == 4,
        "exec"@[0] == 'e',
{
    reveal_strlit("all");
    reveal_strlit("canonical");
    reveal_strlit("final");
    reveal_strlit("host");
    reveal_strlit("originalhost");
    reveal_strlit("localuser");
    reveal_strlit("rdomain");
    reveal_strlit("connection");
    reveal_strlit("user");
    reveal_strlit("group");
    reveal_strlit("address");
    reveal_strlit("localaddress");
    reveal_strlit("localport");
    reveal_strlit("exec");
}

} // verus!
