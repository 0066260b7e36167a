//! Conditions of `Match` blocks.
//!
//! A `Match` line is a sequence of criteria, and the block applies iff every
//! criterion holds. Criteria that take a pattern list (`host`,
//! `originalhost`, `user`, `localuser`, `group`) use the same patterns as
//! `Host` lines, separated by commas.
//!
//! `exec` criteria hold iff a shell command exits with status 0. They are
//! denied unless the caller opts in. Nothing here runs a command: evaluation
//! takes the answers to the commands that were run so far, and says which
//! command to run next.
//!
//! `canonical` and `final` are understood, but never hold, since host names are
//! not canonicalised.

use super::address::{ip_value, parse_ip, Ip};
use super::glob::{
    glob_match, glob_matches, host_matches, list_matches, HostPattern, HostPatternView,
};
use super::{bad_value, unsupported, with_quoted, ConfigError, ConfigErrorView};
use crate::text::{
    chars_of, concat, debug_quoted, find, first_index, join, join_strings, lower_text, opt_view,
    parse_number, parse_unsigned, pieces, split_pieces, str_eq, string_of, to_lower, views,
};
use vstd::arithmetic::power2::pow2;
use vstd::prelude::*;

verus! {

/// One entry in a `Match address` or `Match localaddress` list.
///
/// An entry is a CIDR range (`192.0.2.0/24`), a bare address, or else a glob
/// over the address's text, each optionally negated with a leading `!`.
#[derive(Debug, Clone, PartialEq, Eq)]
pub struct AddressPattern {
    /// Whether a match on `kind` excludes the address (`!`-prefixed).
    pub negated: bool,
    /// The matchable body.
    pub kind: AddressKind,
}

/// The body of an [`AddressPattern`].
#[derive(Debug, Clone, PartialEq, Eq)]
pub enum AddressKind {
    /// A range of addresses.
    Cidr {
        /// Network base address.
        base: Ip,
        /// Prefix length in bits.
        prefix: u8,
    },
    /// A textual glob applied to the address's string form.
    Glob(String),
}

/// What an [`AddressPattern`] says.
#[verifier::ext_equal]
pub ghost struct AddressPatternView {
    pub negated: bool,
    pub kind: AddressKindView,
}

/// What an [`AddressKind`] says.
#[verifier::ext_equal]
pub ghost enum AddressKindView {
    Cidr { base: Ip, prefix: u8 },
    Glob(Seq<char>),
}

impl View for AddressKind {
    type V = AddressKindView;

    open spec fn view(&self) -> AddressKindView {
        match self {
            AddressKind::Cidr { base, prefix } => AddressKindView::Cidr {
                base: *base,
                prefix: *prefix,
            },
            AddressKind::Glob(g) => AddressKindView::Glob(g@),
        }
    }
}

impl View for AddressPattern {
    type V = AddressPatternView;

    open spec fn view(&self) -> AddressPatternView {
        AddressPatternView { negated: self.negated, kind: self.kind@ }
    }
}

/// How many bits an address of this family has.
pub open spec fn width(ip: Ip) -> nat {
    match ip {
        Ip::V4(_) => 32,
        Ip::V6(_) => 128,
    }
}

/// The number that the first `prefix` of `width` bits form.
pub open spec fn network(value: nat, width: nat, prefix: nat) -> nat {
    value / pow2((width - prefix) as nat)
}

/// Whether an address lies in a network: it is of the same family, and its
/// first `prefix` bits are those of `base`.
pub open spec fn in_network(base: Ip, prefix: u8, addr: Ip) -> bool {
    &&& prefix <= width(base)
    &&& match (base, addr) {
        (Ip::V4(b), Ip::V4(a)) => network(b as nat, 32, prefix as nat) == network(
            a as nat,
            32,
            prefix as nat,
        ),
        (Ip::V6(b), Ip::V6(a)) => network(b as nat, 128, prefix as nat) == network(
            a as nat,
            128,
            prefix as nat,
        ),
        _ => false,
    }
}

impl AddressKindView {
    /// What an entry without its `!` stands for. What is neither a range nor
    /// an address is a glob.
    pub open spec fn parse(body: Seq<char>) -> AddressKindView {
        match first_index(body, '/') {
            Some(i) => match (ip_value(body.take(i)), parse_unsigned(body.skip(i + 1), 255)) {
                (Some(base), Some(prefix)) => if prefix <= width(base) {
                    AddressKindView::Cidr { base, prefix: prefix as u8 }
                } else {
                    AddressKindView::Glob(body)
                },
                _ => AddressKindView::Glob(body),
            },
            None => match ip_value(body) {
                Some(base) => AddressKindView::Cidr { base, prefix: width(base) as u8 },
                None => AddressKindView::Glob(body),
            },
        }
    }
}

impl AddressPatternView {
    /// What an entry stands for.
    pub open spec fn parse(token: Seq<char>) -> AddressPatternView {
        if token.len() > 0 && token[0] == '!' {
            AddressPatternView { negated: true, kind: AddressKindView::parse(token.skip(1)) }
        } else {
            AddressPatternView { negated: false, kind: AddressKindView::parse(token) }
        }
    }

    /// Whether the entry's body matches an address.
    pub open spec fn hits(self, addr: Seq<char>) -> bool {
        match self.kind {
            AddressKindView::Cidr { base, prefix } => ip_value(addr) matches Some(a) && in_network(
                base,
                prefix,
                a,
            ),
            AddressKindView::Glob(g) => glob_matches(g, addr),
        }
    }
}

/// The entries of a comma-separated address list.
pub open spec fn address_list(s: Seq<char>) -> Seq<AddressPatternView> {
    pieces(s, ',', false).map_values(|t: Seq<char>| AddressPatternView::parse(t))
}

/// Some positive entry matches, and no negative one does.
pub open spec fn addresses_match(patterns: Seq<AddressPatternView>, addr: Seq<char>) -> bool {
    &&& exists|i: int|
        0 <= i < patterns.len() && !(#[trigger] patterns[i]).negated && patterns[i].hits(addr)
    &&& forall|i: int|
        0 <= i < patterns.len() && (#[trigger] patterns[i]).negated ==> !patterns[i].hits(addr)
}

/// One criterion on a `Match` line. A block applies iff all of its criteria
/// hold.
#[derive(Debug, Clone, PartialEq, Eq)]
pub enum MatchCondition {
    /// `host`: the connection target matches.
    Host(Vec<HostPattern>),
    /// `originalhost`: the host name that was asked for matches.
    OriginalHost(Vec<HostPattern>),
    /// `user`: the remote user name matches.
    User(Vec<HostPattern>),
    /// `localuser`: the local user name matches.
    LocalUser(Vec<HostPattern>),
    /// `group`, server-side: one of the user's groups matches.
    Group(Vec<HostPattern>),
    /// `address`, server-side: the peer's address matches.
    Address(Vec<AddressPattern>),
    /// `localaddress`, server-side: the address of the accepting socket
    /// matches.
    LocalAddress(Vec<AddressPattern>),
    /// `localport`, server-side: the listening port is one of these.
    LocalPort(Vec<u16>),
    /// `exec`: the command exits with status 0.
    Exec(String),
    /// `all`: always holds.
    All,
    /// `canonical`: never holds, since host names are not canonicalised.
    Canonical,
    /// `final`: never holds, for the same reason.
    Final,
}

/// What a [`MatchCondition`] says.
#[verifier::ext_equal]
pub ghost enum MatchConditionView {
    Host(Seq<HostPatternView>),
    OriginalHost(Seq<HostPatternView>),
    User(Seq<HostPatternView>),
    LocalUser(Seq<HostPatternView>),
    Group(Seq<HostPatternView>),
    Address(Seq<AddressPatternView>),
    LocalAddress(Seq<AddressPatternView>),
    LocalPort(Seq<u16>),
    Exec(Seq<char>),
    All,
    Canonical,
    Final,
}

impl View for MatchCondition {
    type V = MatchConditionView;

    open spec fn view(&self) -> MatchConditionView {
        match self {
            MatchCondition::Host(p) => MatchConditionView::Host(views(p@)),
            MatchCondition::OriginalHost(p) => MatchConditionView::OriginalHost(views(p@)),
            MatchCondition::User(p) => MatchConditionView::User(views(p@)),
            MatchCondition::LocalUser(p) => MatchConditionView::LocalUser(views(p@)),
            MatchCondition::Group(p) => MatchConditionView::Group(views(p@)),
            MatchCondition::Address(p) => MatchConditionView::Address(views(p@)),
            MatchCondition::LocalAddress(p) => MatchConditionView::LocalAddress(views(p@)),
            MatchCondition::LocalPort(p) => MatchConditionView::LocalPort(p@),
            MatchCondition::Exec(c) => MatchConditionView::Exec(c@),
            MatchCondition::All => MatchConditionView::All,
            MatchCondition::Canonical => MatchConditionView::Canonical,
            MatchCondition::Final => MatchConditionView::Final,
        }
    }
}

/// What is known of a connection when `Match` criteria are evaluated. A
/// criterion that depends on something unknown does not hold.
#[derive(Debug, Clone)]
pub struct MatchContext<'a> {
    /// Effective connection target.
    pub host: &'a str,
    /// The target that was asked for; `host` if `None`.
    pub original_host: Option<&'a str>,
    /// Remote user name, if known.
    pub user: Option<&'a str>,
    /// Local user name, if known.
    pub local_user: Option<&'a str>,
    /// Server-side: the peer's address, if known.
    pub address: Option<&'a str>,
    /// Server-side: the accepting address, if known.
    pub local_address: Option<&'a str>,
    /// Server-side: the listening port, if known.
    pub local_port: Option<u16>,
    /// Server-side: the names of the user's groups, if known.
    pub groups: Option<&'a [String]>,
}

/// What a [`MatchContext`] says.
#[verifier::ext_equal]
pub ghost struct MatchContextView {
    pub host: Seq<char>,
    pub original_host: Option<Seq<char>>,
    pub user: Option<Seq<char>>,
    pub local_user: Option<Seq<char>>,
    pub address: Option<Seq<char>>,
    pub local_address: Option<Seq<char>>,
    pub local_port: Option<u16>,
    pub groups: Option<Seq<Seq<char>>>,
}

impl<'a> View for MatchContext<'a> {
    type V = MatchContextView;

    open spec fn view(&self) -> MatchContextView {
        MatchContextView {
            host: self.host@,
            original_host: opt_view(self.original_host),
            user: opt_view(self.user),
            local_user: opt_view(self.local_user),
            address: opt_view(self.address),
            local_address: opt_view(self.local_address),
            local_port: self.local_port,
            groups: match self.groups {
                Some(g) => Some(views(g@)),
                None => None,
            },
        }
    }
}

impl MatchContextView {
    /// The host that was asked for.
    pub open spec fn asked_for(self) -> Seq<char> {
        match self.original_host {
            Some(h) => h,
            None => self.host,
        }
    }
}

impl<'a> Default for MatchContext<'a> {
    fn default() -> (r: Self)
        ensures
            r.host@ == ""@,
            r.original_host is None,
            r.user is None,
            r.local_user is None,
            r.address is None,
            r.local_address is None,
            r.local_port is None,
            r.groups is None,
    {
        MatchContext {
            host: "",
            original_host: None,
            user: None,
            local_user: None,
            address: None,
            local_address: None,
            local_port: None,
            groups: None,
        }
    }
}

impl<'a> MatchContext<'a> {
    /// The host that was asked for: `original_host`, or `host` where no
    /// rewriting has occurred.
    pub fn original_host_or_host(&self) -> (r: &str)
        ensures
            r@ == self@.asked_for(),
    {
        match self.original_host {
            Some(h) => h,
            None => self.host,
        }
    }
}

/// Which of the two configuration files a `Match` line stands in.
#[derive(Debug, Clone, Copy, PartialEq, Eq, Structural)]
pub enum MatchSide {
    /// `ssh_config`.
    Client,
    /// `sshd_config`.
    Server,
}

/// A complaint about a `Match` line.
pub open spec fn match_error(line: usize, msg: Seq<char>) -> ConfigErrorView {
    ConfigErrorView::BadValue { line, keyword: "match"@, msg }
}

/// The patterns of a comma-separated list.
pub open spec fn pattern_list(s: Seq<char>) -> Seq<HostPatternView> {
    pieces(s, ',', false).map_values(|t: Seq<char>| HostPatternView::parse(t))
}

/// The ports that a list of texts names, or the complaint about the first that
/// is none.
pub open spec fn port_list(texts: Seq<Seq<char>>, line: usize) -> Result<
    Seq<u16>,
    ConfigErrorView,
>
    decreases texts.len(),
{
    if texts.len() == 0 {
        Ok(Seq::empty())
    } else {
        match port_list(texts.drop_last(), line) {
            Err(e) => Err(e),
            Ok(ports) => match parse_unsigned(texts.last(), 65535) {
                Some(p) => Ok(ports.push(p as u16)),
                None => Err(
                    match_error(line, "Match localport: bad port "@ + debug_quoted(texts.last())),
                ),
            },
        }
    }
}

/// The first criterion on a `Match` line, and how many words it takes.
pub open spec fn criterion(args: Seq<Seq<char>>, line: usize, side: MatchSide) -> Result<
    (MatchConditionView, int),
    ConfigErrorView,
> {
    let kw = lower_text(args[0]);
    let server = side == MatchSide::Server;
    let no_argument = match_error(line, "Match "@ + kw + " requires an argument"@);
    if kw == "all"@ {
        Ok((MatchConditionView::All, 1))
    } else if kw == "canonical"@ {
        Ok((MatchConditionView::Canonical, 1))
    } else if kw == "final"@ {
        Ok((MatchConditionView::Final, 1))
    } else if server && (kw == "host"@ || kw == "originalhost"@ || kw == "localuser"@) {
        Err(
            ConfigErrorView::Unsupported {
                line,
                msg: "Match "@ + kw + " is not valid in sshd_config"@,
            },
        )
    } else if kw == "rdomain"@ || kw == "connection"@ {
        Err(ConfigErrorView::Unsupported { line, msg: "Match "@ + kw + " is not supported"@ })
    } else if kw == "host"@ || kw == "originalhost"@ || kw == "user"@ || kw == "localuser"@ || (
    server && kw == "group"@) {
        if args.len() < 2 {
            Err(no_argument)
        } else {
            let patterns = pattern_list(args[1]);
            if kw == "host"@ {
                Ok((MatchConditionView::Host(patterns), 2))
            } else if kw == "originalhost"@ {
                Ok((MatchConditionView::OriginalHost(patterns), 2))
            } else if kw == "user"@ {
                Ok((MatchConditionView::User(patterns), 2))
            } else if kw == "localuser"@ {
                Ok((MatchConditionView::LocalUser(patterns), 2))
            } else {
                Ok((MatchConditionView::Group(patterns), 2))
            }
        }
    } else if server && (kw == "address"@ || kw == "localaddress"@) {
        if args.len() < 2 {
            Err(no_argument)
        } else if kw == "address"@ {
            Ok((MatchConditionView::Address(address_list(args[1])), 2))
        } else {
            Ok((MatchConditionView::LocalAddress(address_list(args[1])), 2))
        }
    } else if server && kw == "localport"@ {
        if args.len() < 2 {
            Err(no_argument)
        } else {
            match port_list(pieces(args[1], ',', false), line) {
                Err(e) => Err(e),
                Ok(ports) => if ports.len() == 0 {
                    Err(match_error(line, "Match localport requires at least one port"@))
                } else {
                    Ok((MatchConditionView::LocalPort(ports), 2))
                },
            }
        }
    } else if kw == "exec"@ {
        if args.len() < 2 {
            Err(match_error(line, "Match exec requires a command argument"@))
        } else {
            Ok((MatchConditionView::Exec(join(args.skip(1), " "@)), args.len() as int))
        }
    } else {
        Err(match_error(line, "unknown Match criterion: "@ + debug_quoted(kw)))
    }
}

/// The criteria on a `Match` line.
pub open spec fn criteria(args: Seq<Seq<char>>, line: usize, side: MatchSide) -> Result<
    Seq<MatchConditionView>,
    ConfigErrorView,
>
    decreases args.len(),
{
    if args.len() == 0 {
        Ok(Seq::empty())
    } else {
        match criterion(args, line, side) {
            Err(e) => Err(e),
            Ok((cond, n)) => if 0 < n <= args.len() {
                preceded_by(seq![cond], criteria(args.skip(n), line, side))
            } else {
                Ok(Seq::empty())
            },
        }
    }
}

/// Criteria that follow others, unless they hold an error.
pub open spec fn preceded_by(
    head: Seq<MatchConditionView>,
    rest: Result<Seq<MatchConditionView>, ConfigErrorView>,
) -> Result<Seq<MatchConditionView>, ConfigErrorView> {
    match rest {
        Ok(conds) => Ok(head + conds),
        Err(e) => Err(e),
    }
}

/// What a `Match` line says: its criteria, at least one.
pub open spec fn match_line(args: Seq<Seq<char>>, line: usize, side: MatchSide) -> Result<
    Seq<MatchConditionView>,
    ConfigErrorView,
> {
    if args.len() == 0 {
        Err(match_error(line, "Match requires at least one criterion"@))
    } else {
        criteria(args, line, side)
    }
}

/// Whether a result is the list, or the error, of the model.
pub open spec fn is_match_line(
    r: Result<Vec<MatchCondition>, ConfigError>,
    model: Result<Seq<MatchConditionView>, ConfigErrorView>,
) -> bool {
    match model {
        Ok(conds) => r matches Ok(v) && views(v@) == conds,
        Err(e) => r matches Err(x) && x@ == e,
    }
}

impl AddressPattern {
    /// Parse one entry of an address list. An entry that is neither a range
    /// nor an address becomes a glob.
    pub fn parse(token: &str) -> (r: Self)
        ensures
            r@ == AddressPatternView::parse(token@),
    {
        let cs = chars_of(token);
        if cs.len() > 0 && cs[0] == '!' {
            let body = vstd::slice::slice_subrange(cs.as_slice(), 1, cs.len());
            assert(body@ =~= token@.skip(1));
            AddressPattern { negated: true, kind: parse_address_kind(string_of(body).as_str()) }
        } else {
            AddressPattern { negated: false, kind: parse_address_kind(token) }
        }
    }
}

fn parse_address_kind(body: &str) -> (r: AddressKind)
    ensures
        r@ == AddressKindView::parse(body@),
{
    let cs = chars_of(body);
    match find(cs.as_slice(), '/') {
        Some(i) => {
            let addr = vstd::slice::slice_subrange(cs.as_slice(), 0, i);
            let bits = vstd::slice::slice_subrange(cs.as_slice(), i + 1, cs.len());
            assert(addr@ =~= body@.take(i as int));
            assert(bits@ =~= body@.skip(i + 1));
            match (parse_ip(string_of(addr).as_str()), parse_number(bits, 255)) {
                (Some(base), Some(prefix)) => {
                    if prefix <= max_prefix(base) as u64 {
                        return AddressKind::Cidr { base, prefix: prefix as u8 };
                    }
                },
                _ => {},
            }
            AddressKind::Glob(body.to_owned())
        },
        None => match parse_ip(body) {
            Some(base) => AddressKind::Cidr { base, prefix: max_prefix(base) },
            None => AddressKind::Glob(body.to_owned()),
        },
    }
}

fn max_prefix(ip: Ip) -> (r: u8)
    ensures
        r == width(ip),
{
    match ip {
        Ip::V4(_) => 32,
        Ip::V6(_) => 128,
    }
}

/// Parse a comma-separated address list.
pub fn parse_address_list(s: &str) -> (r: Vec<AddressPattern>)
    ensures
        views(r@) == address_list(s@),
{
    let texts = split_pieces(chars_of(s).as_slice(), ',', false);
    let mut out: Vec<AddressPattern> = Vec::new();
    let mut i: usize = 0;
    while i < texts.len()
        invariant
            i <= texts.len(),
            out@.len() == i,
            forall|k: int|
                0 <= k < i ==> #[trigger] out@[k]@ == AddressPatternView::parse(texts@[k]@),
        decreases texts.len() - i,
    {
        out.push(AddressPattern::parse(texts[i].as_str()));
        i += 1;
    }
    assert(views(out@) =~= views(texts@).map_values(|t: Seq<char>| AddressPatternView::parse(t)));
    out
}

/// Whether an address lies in a network.
fn cidr_contains(base: Ip, prefix: u8, addr: Ip) -> (r: bool)
    ensures
        r == in_network(base, prefix, addr),
{
    match (base, addr) {
        (Ip::V4(b), Ip::V4(a)) => {
            if prefix > 32 {
                return false;
            }
            if prefix == 0 {
                proof {
                    lemma_whole_family(b as nat, 32);
                    lemma_whole_family(a as nat, 32);
                }
                return true;
            }
            let shift: u32 = 32 - prefix as u32;
            proof {
                vstd::bits::lemma_u32_shr_is_div(b, shift);
                vstd::bits::lemma_u32_shr_is_div(a, shift);
            }
            (b >> shift) == (a >> shift)
        },
        (Ip::V6(b), Ip::V6(a)) => {
            if prefix > 128 {
                return false;
            }
            if prefix == 0 {
                proof {
                    lemma_whole_family(b as nat, 128);
                    lemma_whole_family(a as nat, 128);
                }
                return true;
            }
            let shift: u128 = 128 - prefix as u128;
            proof {
                vstd::bits::lemma_u128_shr_is_div(b, shift);
                vstd::bits::lemma_u128_shr_is_div(a, shift);
            }
            (b >> shift) == (a >> shift)
        },
        _ => false,
    }
}

/// No bits of an address form the number 0.
proof fn lemma_whole_family(value: nat, width: nat)
    requires
        width == 32 && value <= u32::MAX || width == 128 && value <= u128::MAX,
    ensures
        network(value, width, 0) == 0,
{
    vstd::arithmetic::power2::lemma2_to64();
    assert(pow2(128) == 0x1_0000_0000_0000_0000 * 0x1_0000_0000_0000_0000) by {
        vstd::arithmetic::power2::lemma_pow2_adds(64, 64);
        vstd::arithmetic::power2::lemma2_to64_rest();
    }
    assert(value < pow2(width));
    vstd::arithmetic::div_mod::lemma_basic_div(value as int, pow2(width) as int);
}

/// Evaluate an address list: at least one positive entry matches and no
/// negative one does. Ranges are compared as numbers, globs with the text.
pub fn address_matches(patterns: &[AddressPattern], addr_str: &str) -> (r: bool)
    ensures
        r == addresses_match(views(patterns@), addr_str@),
{
    let parsed = parse_ip(addr_str);
    let mut positive_hit = false;
    let mut i: usize = 0;
    while i < patterns.len()
        invariant
            i <= patterns.len(),
            parsed == ip_value(addr_str@),
            positive_hit <==> exists|k: int|
                0 <= k < i && !(#[trigger] views(patterns@)[k]).negated && views(
                    patterns@,
                )[k].hits(addr_str@),
            forall|k: int|
                0 <= k < i && (#[trigger] views(patterns@)[k]).negated ==> !views(
                    patterns@,
                )[k].hits(addr_str@),
        decreases patterns.len() - i,
    {
        assert(views(patterns@)[i as int] == patterns@[i as int]@);
        let p = &patterns[i];
        let hit = match &p.kind {
            AddressKind::Cidr { base, prefix } => match parsed {
                Some(a) => cidr_contains(*base, *prefix, a),
                None => false,
            },
            AddressKind::Glob(g) => glob_match(g.as_str(), addr_str),
        };
        if p.negated {
            if hit {
                return false;
            }
        } else if hit {
            positive_hit = true;
        }
        i += 1;
    }
    positive_hit
}

/// Parse the criteria of a client's `Match` line. Their names may be in any
/// case.
pub fn parse_match_line(args: &[String], line_no: usize) -> (r: Result<
    Vec<MatchCondition>,
    ConfigError,
>)
    ensures
        is_match_line(r, match_line(views(args@), line_no, MatchSide::Client)),
{
    parse_match_line_impl(args, line_no, MatchSide::Client)
}

/// Parse the criteria of a server's `Match` line, which has `group`,
/// `address`, `localaddress` and `localport` besides, and refuses what has no
/// meaning on the server.
pub fn parse_match_line_server(args: &[String], line_no: usize) -> (r: Result<
    Vec<MatchCondition>,
    ConfigError,
>)
    ensures
        is_match_line(r, match_line(views(args@), line_no, MatchSide::Server)),
{
    parse_match_line_impl(args, line_no, MatchSide::Server)
}

fn parse_match_line_impl(args: &[String], line_no: usize, side: MatchSide) -> (r: Result<
    Vec<MatchCondition>,
    ConfigError,
>)
    ensures
        is_match_line(r, match_line(views(args@), line_no, side)),
{
    let mut out: Vec<MatchCondition> = Vec::new();
    let mut i: usize = 0;
    let ghost model = criteria(views(args@), line_no, side);
    assert(views(args@).skip(0) =~= views(args@));
    assert(views(out@) =~= Seq::<MatchConditionView>::empty());
    proof {
        if let Ok(conds) = model {
            assert(Seq::<MatchConditionView>::empty() + conds =~= conds);
        }
    }
    while i < args.len()
        invariant
            i <= args.len(),
            i == 0 ==> out@.len() == 0,
            i > 0 ==> out@.len() > 0,
            model == criteria(views(args@), line_no, side),
            model == preceded_by(views(out@), criteria(views(args@).skip(i as int), line_no, side)),
        decreases args.len() - i,
    {
        let rest = vstd::slice::slice_subrange(args, i, args.len());
        assert(views(rest@) =~= views(args@).skip(i as int));
        match parse_criterion(rest, line_no, side) {
            Err(e) => {
                return Err(e);
            },
            Ok((cond, n)) => {
                let ghost before = views(out@);
                let ghost c = cond@;
                out.push(cond);
                proof {
                    assert(views(out@) =~= before + seq![c]);
                    let following = criteria(views(rest@).skip(n as int), line_no, side);
                    assert(views(rest@).skip(n as int) =~= views(args@).skip(i + n));
                    if let Ok(conds) = following {
                        assert(before + (seq![c] + conds) =~= before + seq![c] + conds);
                    }
                }
                i = i + n;
            },
        }
    }
    assert(views(args@).skip(i as int) =~= Seq::<Seq<char>>::empty());
    assert(views(out@) + Seq::<MatchConditionView>::empty() =~= views(out@));
    if out.len() == 0 {
        return Err(
            bad_value(line_no, "match", "Match requires at least one criterion".to_owned()),
        );
    }
    Ok(out)
}

/// Parse the first criterion, and say how many words it takes.
fn parse_criterion(args: &[String], line_no: usize, side: MatchSide) -> (r: Result<
    (MatchCondition, usize),
    ConfigError,
>)
    requires
        args@.len() > 0,
    ensures
        match criterion(views(args@), line_no, side) {
            Ok((cond, n)) => r matches Ok((c, m)) && c@ == cond && m == n && 0 < m <= args@.len(),
            Err(e) => r matches Err(x) && x@ == e,
        },
{
    let server = side == MatchSide::Server;
    let lowered = to_lower(args[0].as_str());
    let kw = lowered.as_str();
    assert(views(args@)[0] == args@[0]@);
    if str_eq(kw, "all") {
        return Ok((MatchCondition::All, 1));
    }
    if str_eq(kw, "canonical") {
        return Ok((MatchCondition::Canonical, 1));
    }
    if str_eq(kw, "final") {
        return Ok((MatchCondition::Final, 1));
    }
    if server && (str_eq(kw, "host") || str_eq(kw, "originalhost") || str_eq(kw, "localuser")) {
        let msg = concat(concat("Match ", kw).as_str(), " is not valid in sshd_config");
        return Err(unsupported(line_no, msg.as_str()));
    }
    if str_eq(kw, "rdomain") || str_eq(kw, "connection") {
        let msg = concat(concat("Match ", kw).as_str(), " is not supported");
        return Err(unsupported(line_no, msg.as_str()));
    }
    if str_eq(kw, "host") || str_eq(kw, "originalhost") || str_eq(kw, "user") || str_eq(
        kw,
        "localuser",
    ) || (server && str_eq(kw, "group")) {
        let patterns = match take_raw_arg(args, kw, line_no) {
            Ok(raw) => parse_match_pattern_list(raw),
            Err(e) => {
                return Err(e);
            },
        };
        let cond = if str_eq(kw, "host") {
            MatchCondition::Host(patterns)
        } else if str_eq(kw, "originalhost") {
            MatchCondition::OriginalHost(patterns)
        } else if str_eq(kw, "user") {
            MatchCondition::User(patterns)
        } else if str_eq(kw, "localuser") {
            MatchCondition::LocalUser(patterns)
        } else {
            MatchCondition::Group(patterns)
        };
        return Ok((cond, 2));
    }
    if server && (str_eq(kw, "address") || str_eq(kw, "localaddress")) {
        let patterns = match take_raw_arg(args, kw, line_no) {
            Ok(raw) => parse_address_list(raw),
            Err(e) => {
                return Err(e);
            },
        };
        return if str_eq(kw, "address") {
            Ok((MatchCondition::Address(patterns), 2))
        } else {
            Ok((MatchCondition::LocalAddress(patterns), 2))
        };
    }
    if server && str_eq(kw, "localport") {
        let ports = match take_raw_arg(args, kw, line_no) {
            Ok(raw) => match parse_port_list(raw, line_no) {
                Ok(ports) => ports,
                Err(e) => {
                    return Err(e);
                },
            },
            Err(e) => {
                return Err(e);
            },
        };
        if ports.len() == 0 {
            return Err(
                bad_value(line_no, "match", "Match localport requires at least one port".to_owned()),
            );
        }
        return Ok((MatchCondition::LocalPort(ports), 2));
    }
    if str_eq(kw, "exec") {
        if args.len() < 2 {
            return Err(
                bad_value(line_no, "match", "Match exec requires a command argument".to_owned()),
            );
        }
        let words = vstd::slice::slice_subrange(args, 1, args.len());
        assert(views(words@) =~= views(args@).skip(1));
        return Ok((MatchCondition::Exec(join_strings(words, " ")), args.len()));
    }
    Err(bad_value(line_no, "match", with_quoted("unknown Match criterion: ", kw)))
}

/// The argument after the first word.
fn take_raw_arg<'a>(args: &'a [String], kw: &str, line_no: usize) -> (r: Result<
    &'a str,
    ConfigError,
>)
    ensures
        if args@.len() < 2 {
            r matches Err(e) && e@ == match_error(
                line_no,
                "Match "@ + kw@ + " requires an argument"@,
            )
        } else {
            r matches Ok(s) && s@ == views(args@)[1]
        },
{
    if args.len() < 2 {
        let msg = concat(concat("Match ", kw).as_str(), " requires an argument");
        return Err(bad_value(line_no, "match", msg));
    }
    Ok(args[1].as_str())
}

/// Parse a comma-separated pattern list.
pub fn parse_match_pattern_list(s: &str) -> (r: Vec<HostPattern>)
    ensures
        views(r@) == pattern_list(s@),
{
    HostPattern::parse_all(split_pieces(chars_of(s).as_slice(), ',', false).as_slice())
}

fn parse_port_list(s: &str, line_no: usize) -> (r: Result<Vec<u16>, ConfigError>)
    ensures
        match port_list(pieces(s@, ',', false), line_no) {
            Ok(ports) => r matches Ok(v) && v@ == ports,
            Err(e) => r matches Err(x) && x@ == e,
        },
{
    let texts = split_pieces(chars_of(s).as_slice(), ',', false);
    let mut out: Vec<u16> = Vec::new();
    let mut i: usize = 0;
    assert(views(texts@).take(0) =~= Seq::<Seq<char>>::empty());
    while i < texts.len()
        invariant
            i <= texts.len(),
            views(texts@) == pieces(s@, ',', false),
            port_list(views(texts@).take(i as int), line_no) == Ok::<Seq<u16>, ConfigErrorView>(
                out@,
            ),
        decreases texts.len() - i,
    {
        let text = chars_of(texts[i].as_str());
        proof {
            let next = views(texts@).take(i + 1);
            assert(next.drop_last() =~= views(texts@).take(i as int));
            assert(next.last() == text@);
        }
        match parse_number(text.as_slice(), 65535) {
            Some(p) => out.push(p as u16),
            None => {
                proof {
                    lemma_port_list_fails(views(texts@), line_no, i + 1);
                }
                return Err(
                    bad_value(
                        line_no,
                        "match",
                        with_quoted("Match localport: bad port ", texts[i].as_str()),
                    ),
                );
            },
        }
        i += 1;
    }
    assert(views(texts@).take(i as int) =~= views(texts@));
    Ok(out)
}

/// An error among the first ports is the error of all.
proof fn lemma_port_list_fails(texts: Seq<Seq<char>>, line: usize, n: int)
    requires
        0 <= n <= texts.len(),
        port_list(texts.take(n), line) is Err,
    ensures
        port_list(texts, line) == port_list(texts.take(n), line),
    decreases texts.len() - n,
{
    if n == texts.len() {
        assert(texts.take(n) =~= texts);
    } else {
        assert(texts.take(n + 1).drop_last() =~= texts.take(n));
        lemma_port_list_fails(texts, line, n + 1);
    }
}

/// What to do with `exec` criteria.
#[derive(Debug, Clone, Copy, PartialEq, Eq, Structural)]
pub enum ExecPolicy {
    /// They never hold.
    Deny,
    /// Run the command: the criterion holds iff it exits with status 0.
    Allow,
}

/// How far an evaluation got: to its end, or to a command that has to be run
/// first.
#[derive(Debug, Clone, PartialEq, Eq)]
pub enum ExecStep<T> {
    /// The result.
    Done(T),
    /// Run this command, and evaluate again with its answer added: whether it
    /// exited with status 0.
    Run(String),
}

/// How far an evaluation gets.
#[verifier::ext_equal]
pub ghost enum Step<T> {
    Done(T),
    Run(Seq<char>),
}

impl MatchConditionView {
    /// Whether the criterion holds, for any but `exec`.
    pub open spec fn holds(self, ctx: MatchContextView) -> bool {
        match self {
            MatchConditionView::Host(p) => list_matches(p, ctx.host),
            MatchConditionView::OriginalHost(p) => list_matches(p, ctx.asked_for()),
            MatchConditionView::User(p) => ctx.user matches Some(u) && list_matches(p, u),
            MatchConditionView::LocalUser(p) => ctx.local_user matches Some(u) && list_matches(
                p,
                u,
            ),
            MatchConditionView::Group(p) => ctx.groups matches Some(groups) && exists|i: int|
                0 <= i < groups.len() && list_matches(p, #[trigger] groups[i]),
            MatchConditionView::Address(p) => ctx.address matches Some(a) && addresses_match(p, a),
            MatchConditionView::LocalAddress(p) => ctx.local_address matches Some(a)
                && addresses_match(p, a),
            MatchConditionView::LocalPort(ports) => ctx.local_port matches Some(n)
                && ports.contains(n),
            MatchConditionView::Exec(_) => false,
            MatchConditionView::All => true,
            MatchConditionView::Canonical => false,
            MatchConditionView::Final => false,
        }
    }

    /// Whether the criterion holds, given the answers of commands that were
    /// run, and how many of these it takes.
    pub open spec fn given(
        self,
        ctx: MatchContextView,
        policy: ExecPolicy,
        answers: Seq<bool>,
    ) -> (Step<bool>, nat) {
        if self is Exec && policy == ExecPolicy::Allow {
            if answers.len() == 0 {
                (Step::Run(self->Exec_0), 0)
            } else {
                (Step::Done(answers[0]), 1)
            }
        } else {
            (Step::Done(self.holds(ctx)), 0)
        }
    }
}

/// Whether every criterion holds, in order and up to the first that does not.
pub open spec fn every_given(
    conds: Seq<MatchConditionView>,
    ctx: MatchContextView,
    policy: ExecPolicy,
    answers: Seq<bool>,
) -> (Step<bool>, nat)
    decreases conds.len(),
{
    if conds.len() == 0 {
        (Step::Done(true), 0)
    } else {
        let (head, used) = conds[0].given(ctx, policy, answers);
        if head == Step::Done(true) {
            let (rest, more) = every_given(conds.skip(1), ctx, policy, answers.skip(used as int));
            (rest, used + more)
        } else {
            (head, used)
        }
    }
}

/// Whether a block's criteria hold. A block without any never applies.
pub open spec fn block_given(
    conds: Seq<MatchConditionView>,
    ctx: MatchContextView,
    policy: ExecPolicy,
    answers: Seq<bool>,
) -> (Step<bool>, nat) {
    if conds.len() == 0 {
        (Step::Done(false), 0)
    } else {
        every_given(conds, ctx, policy, answers)
    }
}

impl ExecStep<bool> {
    /// Whether this is how far the model gets.
    pub open spec fn is(self, model: Step<bool>) -> bool {
        match model {
            Step::Done(b) => self == ExecStep::Done(b),
            Step::Run(cmd) => self matches ExecStep::Run(c) && c@ == cmd,
        }
    }
}

/// Whether a criterion other than `exec` holds.
fn holds(cond: &MatchCondition, ctx: &MatchContext<'_>) -> (r: bool)
    ensures
        r == cond@.holds(ctx@),
{
    match cond {
        MatchCondition::All => true,
        MatchCondition::Canonical => false,
        MatchCondition::Final => false,
        MatchCondition::Exec(_) => false,
        MatchCondition::Host(patterns) => host_matches(patterns.as_slice(), ctx.host),
        MatchCondition::OriginalHost(patterns) => host_matches(
            patterns.as_slice(),
            ctx.original_host_or_host(),
        ),
        MatchCondition::User(patterns) => match ctx.user {
            Some(u) => host_matches(patterns.as_slice(), u),
            None => false,
        },
        MatchCondition::LocalUser(patterns) => match ctx.local_user {
            Some(u) => host_matches(patterns.as_slice(), u),
            None => false,
        },
        MatchCondition::Group(patterns) => match ctx.groups {
            Some(groups) => any_group_matches(patterns.as_slice(), groups),
            None => false,
        },
        MatchCondition::Address(patterns) => match ctx.address {
            Some(a) => address_matches(patterns.as_slice(), a),
            None => false,
        },
        MatchCondition::LocalAddress(patterns) => match ctx.local_address {
            Some(a) => address_matches(patterns.as_slice(), a),
            None => false,
        },
        MatchCondition::LocalPort(ports) => match ctx.local_port {
            Some(p) => holds_port(ports.as_slice(), p),
            None => false,
        },
    }
}

fn any_group_matches(patterns: &[HostPattern], groups: &[String]) -> (r: bool)
    ensures
        r == exists|i: int|
            0 <= i < groups@.len() && list_matches(
                views(patterns@),
                #[trigger] views(groups@)[i],
            ),
{
    let mut i: usize = 0;
    while i < groups.len()
        invariant
            i <= groups.len(),
            forall|k: int|
                0 <= k < i ==> !list_matches(views(patterns@), #[trigger] views(groups@)[k]),
        decreases groups.len() - i,
    {
        assert(views(groups@)[i as int] == groups@[i as int]@);
        if host_matches(patterns, groups[i].as_str()) {
            return true;
        }
        i += 1;
    }
    false
}

fn holds_port(ports: &[u16], port: u16) -> (r: bool)
    ensures
        r == ports@.contains(port),
{
    let mut i: usize = 0;
    while i < ports.len()
        invariant
            i <= ports.len(),
            forall|k: int| 0 <= k < i ==> ports@[k] != port,
        decreases ports.len() - i,
    {
        if ports[i] == port {
            assert(ports@.contains(ports@[i as int]));
            return true;
        }
        i += 1;
    }
    false
}

/// Evaluate one criterion, as far as that needs no command to be run.
pub fn evaluate(cond: &MatchCondition, ctx: &MatchContext<'_>, policy: ExecPolicy) -> (r: bool)
    requires
        cond@.given(ctx@, policy, Seq::empty()).0 is Done,
    ensures
        cond@.given(ctx@, policy, Seq::empty()).0 == Step::Done(r),
{
    holds(cond, ctx)
}

/// Evaluate one criterion, given the answers of the commands that were run.
pub fn evaluate_step(
    cond: &MatchCondition,
    ctx: &MatchContext<'_>,
    policy: ExecPolicy,
    answers: &[bool],
) -> (r: ExecStep<bool>)
    ensures
        r.is(cond@.given(ctx@, policy, answers@).0),
{
    match cond {
        MatchCondition::Exec(cmd) => match policy {
            ExecPolicy::Deny => ExecStep::Done(false),
            ExecPolicy::Allow => if answers.len() == 0 {
                ExecStep::Run(cmd.clone())
            } else {
                ExecStep::Done(answers[0])
            },
        },
        _ => ExecStep::Done(holds(cond, ctx)),
    }
}

/// Whether every criterion of a block holds, as far as that needs no command to
/// be run. A block without criteria never applies.
pub fn all_match(conds: &[MatchCondition], ctx: &MatchContext<'_>, policy: ExecPolicy) -> (r: bool)
    requires
        block_given(views(conds@), ctx@, policy, Seq::empty()).0 is Done,
    ensures
        block_given(views(conds@), ctx@, policy, Seq::empty()).0 == Step::Done(r),
{
    let none: Vec<bool> = Vec::new();
    match all_match_step(conds, ctx, policy, none.as_slice()).0 {
        ExecStep::Done(b) => b,
        ExecStep::Run(_) => false,
    }
}

/// Whether every criterion of a block holds, given the answers of the commands
/// that were run, and how many of these were taken.
pub fn all_match_step(
    conds: &[MatchCondition],
    ctx: &MatchContext<'_>,
    policy: ExecPolicy,
    answers: &[bool],
) -> (r: (ExecStep<bool>, usize))
    ensures
        r.0.is(block_given(views(conds@), ctx@, policy, answers@).0),
        r.1 == block_given(views(conds@), ctx@, policy, answers@).1,
        r.1 <= answers@.len(),
{
    if conds.len() == 0 {
        return (ExecStep::Done(false), 0);
    }
    let mut used: usize = 0;
    let mut i: usize = 0;
    let ghost all = every_given(views(conds@), ctx@, policy, answers@);
    assert(views(conds@).skip(0) =~= views(conds@));
    assert(answers@.skip(0) =~= answers@);
    while i < conds.len()
        invariant
            i <= conds.len(),
            used <= answers.len(),
            all == every_given(views(conds@), ctx@, policy, answers@),
            ({
                let (rest, more) = every_given(
                    views(conds@).skip(i as int),
                    ctx@,
                    policy,
                    answers@.skip(used as int),
                );
                all == (rest, used as nat + more)
            }),
            all == block_given(views(conds@), ctx@, policy, answers@),
        decreases conds.len() - i,
    {
        let left = vstd::slice::slice_subrange(answers, used, answers.len());
        assert(left@ =~= answers@.skip(used as int));
        let step = evaluate_step(&conds[i], ctx, policy, left);
        let takes: usize = match (&conds[i], policy) {
            (MatchCondition::Exec(_), ExecPolicy::Allow) => if left.len() == 0 {
                0
            } else {
                1
            },
            _ => 0,
        };
        assert(views(conds@).skip(i as int)[0] == conds@[i as int]@);
        assert(views(conds@).skip(i as int).skip(1) =~= views(conds@).skip(i + 1));
        assert(answers@.skip(used as int).skip(takes as int) =~= answers@.skip(used + takes));
        match step {
            ExecStep::Done(b) => {
                if !b {
                    return (ExecStep::Done(false), used + takes);
                }
            },
            ExecStep::Run(cmd) => {
                return (ExecStep::Run(cmd), used + takes);
            },
        }
        used = used + takes;
        i += 1;
    }
    assert(views(conds@).skip(i as int) =~= Seq::<MatchConditionView>::empty());
    (ExecStep::Done(true), used)
}

/// With commands denied, evaluation always comes to its end, and a block with
/// an `exec` criterion never applies.
pub proof fn lemma_exec_denied(
    conds: Seq<MatchConditionView>,
    ctx: MatchContextView,
    answers: Seq<bool>,
)
    ensures
        block_given(conds, ctx, ExecPolicy::Deny, answers).0 is Done,
        block_given(conds, ctx, ExecPolicy::Deny, answers).1 == 0,
        (exists|i: int| 0 <= i < conds.len() && #[trigger] conds[i] is Exec) ==> block_given(
            conds,
            ctx,
            ExecPolicy::Deny,
            answers,
        ).0 == Step::Done(false),
{
    lemma_every_denied(conds, ctx, answers);
}

proof fn lemma_every_denied(
    conds: Seq<MatchConditionView>,
    ctx: MatchContextView,
    answers: Seq<bool>,
)
    ensures
        every_given(conds, ctx, ExecPolicy::Deny, answers).0 is Done,
        every_given(conds, ctx, ExecPolicy::Deny, answers).1 == 0,
        (exists|i: int| 0 <= i < conds.len() && #[trigger] conds[i] is Exec) ==> every_given(
            conds,
            ctx,
            ExecPolicy::Deny,
            answers,
        ).0 == Step::Done(false),
    decreases conds.len(),
{
    if conds.len() > 0 {
        assert(answers.skip(0) =~= answers);
        lemma_every_denied(conds.skip(1), ctx, answers);
        if exists|i: int| 0 <= i < conds.len() && #[trigger] conds[i] is Exec {
            let i = choose|i: int| 0 <= i < conds.len() && #[trigger] conds[i] is Exec;
            if i > 0 {
                assert(conds.skip(1)[i - 1] is Exec);
            }
        }
    }
}

/// A block without `exec` criteria applies iff it has criteria and every one of
/// them holds, whatever the policy.
pub proof fn lemma_block_is_conjunction(
    conds: Seq<MatchConditionView>,
    ctx: MatchContextView,
    policy: ExecPolicy,
    answers: Seq<bool>,
)
    requires
        forall|i: int| 0 <= i < conds.len() ==> !(#[trigger] conds[i] is Exec),
    ensures
        block_given(conds, ctx, policy, answers).0 == Step::Done(
            conds.len() > 0 && forall|i: int|
                0 <= i < conds.len() ==> (#[trigger] conds[i]).holds(ctx),
        ),
{
    lemma_every_is_conjunction(conds, ctx, policy, answers);
}

proof fn lemma_every_is_conjunction(
    conds: Seq<MatchConditionView>,
    ctx: MatchContextView,
    policy: ExecPolicy,
    answers: Seq<bool>,
)
    requires
        forall|i: int| 0 <= i < conds.len() ==> !(#[trigger] conds[i] is Exec),
    ensures
        every_given(conds, ctx, policy, answers).0 == Step::Done(
            forall|i: int| 0 <= i < conds.len() ==> (#[trigger] conds[i]).holds(ctx),
        ),
    decreases conds.len(),
{
    if conds.len() > 0 {
        let rest = conds.skip(1);
        assert(answers.skip(0) =~= answers);
        lemma_every_is_conjunction(rest, ctx, policy, answers);
        assert forall|i: int| 1 <= i < conds.len() implies conds[i] == #[trigger] rest[i - 1] by {}
        if forall|i: int| 0 <= i < rest.len() ==> (#[trigger] rest[i]).holds(ctx) {
            assert forall|i: int| 1 <= i < conds.len() implies (#[trigger] conds[i]).holds(
                ctx,
            ) by {
                assert(rest[i - 1].holds(ctx));
            }
        } else {
            let i = choose|i: int| 0 <= i < rest.len() && !(#[trigger] rest[i]).holds(ctx);
            assert(!conds[i + 1].holds(ctx));
        }
    }
}

/// A criterion that depends on something unknown does not hold.
pub proof fn lemma_unknown_never_holds(cond: MatchConditionView, ctx: MatchContextView)
    ensures
        cond is User && ctx.user is None ==> !cond.holds(ctx),
        cond is LocalUser && ctx.local_user is None ==> !cond.holds(ctx),
        cond is Group && ctx.groups is None ==> !cond.holds(ctx),
        cond is Address && ctx.address is None ==> !cond.holds(ctx),
        cond is LocalAddress && ctx.local_address is None ==> !cond.holds(ctx),
        cond is LocalPort && ctx.local_port is None ==> !cond.holds(ctx),
{
}

/// A line that is understood has at least one criterion.
pub proof fn lemma_match_line_is_not_empty(args: Seq<Seq<char>>, line: usize, side: MatchSide)
    ensures
        match_line(args, line, side) matches Ok(conds) ==> conds.len() > 0,
{
    if args.len() > 0 {
        if let Ok((cond, n)) = criterion(args, line, side) {
            assert(0 < n <= args.len());
        }
    }
}

/// A range of prefix length 0 holds every address of its family, and a mixed
/// pair of families never matches.
pub proof fn lemma_zero_prefix_is_the_family(base: Ip, addr: Ip)
    ensures
        in_network(base, 0, addr) == (base is V4 == addr is V4),
{
    match (base, addr) {
        (Ip::V4(b), Ip::V4(a)) => {
            lemma_whole_family(b as nat, 32);
            lemma_whole_family(a as nat, 32);
        },
        (Ip::V6(b), Ip::V6(a)) => {
            lemma_whole_family(b as nat, 128);
            lemma_whole_family(a as nat, 128);
        },
        _ => {},
    }
}

/// A bare address is a range that holds that address alone.
pub proof fn lemma_full_prefix_is_the_address(base: Ip, addr: Ip)
    ensures
        in_network(base, width(base) as u8, addr) == (base == addr),
{
    match (base, addr) {
        (Ip::V4(b), Ip::V4(a)) => {
            lemma_every_bit(b as nat, 32);
            lemma_every_bit(a as nat, 32);
        },
        (Ip::V6(b), Ip::V6(a)) => {
            lemma_every_bit(b as nat, 128);
            lemma_every_bit(a as nat, 128);
        },
        _ => {},
    }
}

/// All bits of an address form the number that it is.
proof fn lemma_every_bit(value: nat, width: nat)
    ensures
        network(value, width, width) == value,
{
    vstd::arithmetic::power2::lemma2_to64();
    assert(pow2(0) == 1);
    assert(value / 1 == value);
}

/// One negative entry that matches excludes the address, whatever else the
/// list holds.
pub proof fn lemma_negative_address_wins(
    patterns: Seq<AddressPatternView>,
    addr: Seq<char>,
    i: int,
)
    requires
        0 <= i < patterns.len(),
        patterns[i].negated && patterns[i].hits(addr),
    ensures
        !addresses_match(patterns, addr),
{
}

} // verus!
