//! Host/Match pattern matching, with `!negation` support.
//!
//! OpenSSH `Host` patterns are whitespace-separated tokens; a pattern can be
//! negated with a leading `!`. A block matches a host name iff at least one
//! positive pattern in the block matches the host, and no negative pattern
//! matches.
//!
//! In a pattern `*` stands for any bytes and `?` for any one byte.

use crate::text::{chars_of, str_eq, string_of, views};
use vstd::prelude::*;
use vstd::utf8::encode_utf8;

verus! {

/// One token from a `Host`/`Match Host` pattern list.
#[derive(Debug, Clone, PartialEq, Eq)]
pub enum HostPattern {
    /// `*` (literal): matches every host without scanning.
    Any,
    /// A positive pattern; matches when the glob matches.
    Positive(String),
    /// A negated pattern (leading `!`); a single match excludes the host.
    Negative(String),
}

/// What a [`HostPattern`] says.
#[verifier::ext_equal]
pub ghost enum HostPatternView {
    Any,
    Positive(Seq<char>),
    Negative(Seq<char>),
}

impl View for HostPattern {
    type V = HostPatternView;

    open spec fn view(&self) -> HostPatternView {
        match self {
            HostPattern::Any => HostPatternView::Any,
            HostPattern::Positive(g) => HostPatternView::Positive(g@),
            HostPattern::Negative(g) => HostPatternView::Negative(g@),
        }
    }
}

impl HostPatternView {
    /// The pattern that a token stands for.
    pub open spec fn parse(token: Seq<char>) -> HostPatternView {
        if token.len() > 0 && token[0] == '!' {
            HostPatternView::Negative(token.skip(1))
        } else if token == "*"@ {
            HostPatternView::Any
        } else {
            HostPatternView::Positive(token)
        }
    }

    /// A positive pattern that matches `host`.
    pub open spec fn admits(self, host: Seq<char>) -> bool {
        match self {
            HostPatternView::Any => true,
            HostPatternView::Positive(g) => glob_matches(g, host),
            HostPatternView::Negative(_) => false,
        }
    }

    /// A negative pattern that matches `host`.
    pub open spec fn excludes(self, host: Seq<char>) -> bool {
        match self {
            HostPatternView::Negative(g) => glob_matches(g, host),
            _ => false,
        }
    }
}

/// Some positive pattern matches, and no negative one does.
pub open spec fn list_matches(patterns: Seq<HostPatternView>, host: Seq<char>) -> bool {
    &&& exists|i: int| 0 <= i < patterns.len() && (#[trigger] patterns[i]).admits(host)
    &&& forall|i: int| 0 <= i < patterns.len() ==> !(#[trigger] patterns[i]).excludes(host)
}

/// Whether the bytes `n` match the pattern `p`.
pub open spec fn glob_bytes(p: Seq<u8>, n: Seq<u8>) -> bool
    decreases p.len(), n.len(),
{
    if p.len() == 0 {
        n.len() == 0
    } else if p[0] == 42 {
        glob_bytes(p.skip(1), n) || (n.len() > 0 && glob_bytes(p, n.skip(1)))
    } else {
        n.len() > 0 && (p[0] == 63 || p[0] == n[0]) && glob_bytes(p.skip(1), n.skip(1))
    }
}

/// Whether `name` matches the pattern, compared byte by byte.
pub open spec fn glob_matches(pattern: Seq<char>, name: Seq<char>) -> bool {
    glob_bytes(encode_utf8(pattern), encode_utf8(name))
}

/// A pattern that ends in `*` and has no other part matches everything.
pub proof fn lemma_star_matches_everything(n: Seq<u8>)
    ensures
        glob_bytes(seq![42u8], n),
    decreases n.len(),
{
    let p = seq![42u8];
    if n.len() > 0 {
        lemma_star_matches_everything(n.skip(1));
    } else {
        assert(glob_bytes(p.skip(1), n));
    }
}

/// A pattern without `*` and `?` matches itself and nothing else.
pub proof fn lemma_literal_matches_itself(p: Seq<u8>, n: Seq<u8>)
    requires
        !p.contains(42u8),
        !p.contains(63u8),
    ensures
        glob_bytes(p, n) <==> p == n,
    decreases p.len(),
{
    if p.len() == 0 {
        assert(n.len() == 0 ==> p =~= n);
    } else {
        assert(p.contains(p[0]));
        if n.len() > 0 {
            assert forall|x: u8| p.skip(1).contains(x) implies p.contains(x) by {
                let i = choose|i: int| 0 <= i < p.skip(1).len() && p.skip(1)[i] == x;
                assert(p[i + 1] == x);
            }
            lemma_literal_matches_itself(p.skip(1), n.skip(1));
            if p.skip(1) == n.skip(1) && p[0] == n[0] {
                assert(p =~= seq![p[0]] + p.skip(1));
                assert(n =~= seq![n[0]] + n.skip(1));
            }
        }
    }
}

/// A star followed by `p` matches whatever has a tail that `p` matches.
proof fn lemma_star(p: Seq<u8>, n: Seq<u8>)
    requires
        p.len() > 0,
        p[0] == 42,
    ensures
        glob_bytes(p, n) <==> exists|k: int|
            0 <= k <= n.len() && #[trigger] glob_bytes(p.skip(1), n.skip(k)),
    decreases n.len(),
{
    assert(n.skip(0) =~= n);
    assert(glob_bytes(p.skip(1), n.skip(0)) == glob_bytes(p.skip(1), n));
    if n.len() > 0 {
        lemma_star(p, n.skip(1));
        assert forall|k: int| 0 <= k <= n.len() - 1 implies n.skip(1).skip(k) == #[trigger] n.skip(
            k + 1,
        ) by {
            assert(n.skip(1).skip(k) =~= n.skip(k + 1));
        }
        if glob_bytes(p, n.skip(1)) {
            let k = choose|k: int|
                0 <= k <= n.skip(1).len() && #[trigger] glob_bytes(p.skip(1), n.skip(1).skip(k));
            assert(n.skip(1).skip(k) == n.skip(k + 1));
            assert(glob_bytes(p.skip(1), n.skip(k + 1)));
        }
        if exists|k: int| 0 <= k <= n.len() && #[trigger] glob_bytes(p.skip(1), n.skip(k)) {
            let k = choose|k: int| 0 <= k <= n.len() && #[trigger] glob_bytes(p.skip(1), n.skip(k));
            if k > 0 {
                assert(n.skip(1).skip(k - 1) == n.skip(k));
                assert(glob_bytes(p.skip(1), n.skip(1).skip(k - 1)));
            }
        }
    } else {
        assert forall|k: int| 0 <= k <= n.len() implies n.skip(k) == n by {
            assert(n.skip(k) =~= n);
        }
    }
}

/// Two stars in a row are one.
proof fn lemma_double_star(p: Seq<u8>, n: Seq<u8>)
    requires
        p.len() > 1,
        p[0] == 42,
        p[1] == 42,
    ensures
        glob_bytes(p, n) == glob_bytes(p.skip(1), n),
    decreases n.len(),
{
    if n.len() > 0 {
        lemma_double_star(p, n.skip(1));
    }
}

/// The matcher on bytes.
fn glob_from(p: &[u8], n: &[u8]) -> (r: bool)
    ensures
        r == glob_bytes(p@, n@),
    decreases p.len(),
{
    let mut pi: usize = 0;
    let mut ni: usize = 0;
    assert(p@.skip(0) =~= p@);
    assert(n@.skip(0) =~= n@);
    while pi < p.len()
        invariant
            pi <= p.len(),
            ni <= n.len(),
            glob_bytes(p@, n@) == glob_bytes(p@.skip(pi as int), n@.skip(ni as int)),
        decreases p.len() - pi,
    {
        let ghost rest = p@.skip(pi as int);
        let ghost name = n@.skip(ni as int);
        assert(rest.skip(1) =~= p@.skip(pi + 1));
        if p[pi] == 42 {
            while pi + 1 < p.len() && p[pi + 1] == 42
                invariant
                    pi < p.len(),
                    p@[pi as int] == 42,
                    ni <= n.len(),
                    glob_bytes(p@, n@) == glob_bytes(p@.skip(pi as int), n@.skip(ni as int)),
                decreases p.len() - pi,
            {
                proof {
                    lemma_double_star(p@.skip(pi as int), n@.skip(ni as int));
                    assert(p@.skip(pi as int).skip(1) =~= p@.skip(pi + 1));
                }
                pi += 1;
            }
            let tail = vstd::slice::slice_subrange(p, pi + 1, p.len());
            let ghost stars = p@.skip(pi as int);
            let ghost left = n@.skip(ni as int);
            proof {
                assert(tail@ =~= stars.skip(1));
                lemma_star(stars, left);
            }
            if tail.len() == 0 {
                proof {
                    assert(stars =~= seq![42u8]);
                    lemma_star_matches_everything(left);
                }
                return true;
            }
            let start: usize = ni;
            let mut k: usize = ni;
            loop
                invariant
                    start <= k <= n.len(),
                    tail@.len() < p@.len(),
                    tail@ == stars.skip(1),
                    left == n@.skip(start as int),
                    glob_bytes(p@, n@) <==> exists|j: int|
                        0 <= j <= left.len() && #[trigger] glob_bytes(stars.skip(1), left.skip(j)),
                    forall|j: int|
                        0 <= j < k - start ==> !#[trigger] glob_bytes(stars.skip(1), left.skip(j)),
                decreases n.len() - k,
            {
                let part = vstd::slice::slice_subrange(n, k, n.len());
                assert(part@ =~= left.skip(k - start));
                if glob_from(tail, part) {
                    return true;
                }
                if k == n.len() {
                    return false;
                }
                k += 1;
            }
        }
        if ni >= n.len() {
            return false;
        }
        assert(name.skip(1) =~= n@.skip(ni + 1));
        if p[pi] != 63 && p[pi] != n[ni] {
            return false;
        }
        pi += 1;
        ni += 1;
    }
    ni == n.len()
}

/// Whether `name` matches a `*` / `?` pattern.
pub fn glob_match(pattern: &str, name: &str) -> (r: bool)
    ensures
        r == glob_matches(pattern@, name@),
{
    glob_from(pattern.as_bytes(), name.as_bytes())
}

impl HostPattern {
    /// Parse one whitespace-separated token from a `Host` line.
    pub fn parse(token: &str) -> (r: Self)
        ensures
            r@ == HostPatternView::parse(token@),
    {
        let cs = chars_of(token);
        if cs.len() > 0 && cs[0] == '!' {
            let rest = vstd::slice::slice_subrange(cs.as_slice(), 1, cs.len());
            assert(rest@ =~= token@.skip(1));
            HostPattern::Negative(string_of(rest))
        } else if str_eq(token, "*") {
            HostPattern::Any
        } else {
            HostPattern::Positive(token.to_owned())
        }
    }

    /// Parse a vector of tokens (the arguments after a `Host` keyword).
    pub fn parse_all(tokens: &[String]) -> (r: Vec<HostPattern>)
        ensures
            views(r@) == views(tokens@).map_values(|t: Seq<char>| HostPatternView::parse(t)),
    {
        let mut out: Vec<HostPattern> = Vec::new();
        let mut i: usize = 0;
        while i < tokens.len()
            invariant
                i <= tokens.len(),
                out@.len() == i,
                forall|k: int|
                    0 <= k < i ==> #[trigger] out@[k]@ == HostPatternView::parse(tokens@[k]@),
            decreases tokens.len() - i,
        {
            out.push(HostPattern::parse(tokens[i].as_str()));
            i += 1;
        }
        assert(views(out@) =~= views(tokens@).map_values(
            |t: Seq<char>| HostPatternView::parse(t),
        ));
        out
    }
}

/// True when `host` is matched by the pattern list using OpenSSH semantics:
/// at least one positive match AND no negative match. Empty pattern lists
/// never match.
pub fn host_matches(patterns: &[HostPattern], host: &str) -> (r: bool)
    ensures
        r == list_matches(views(patterns@), host@),
{
    let mut hit = false;
    let mut i: usize = 0;
    while i < patterns.len()
        invariant
            i <= patterns.len(),
            hit <==> exists|k: int|
                0 <= k < i && (#[trigger] views(patterns@)[k]).admits(host@),
            forall|k: int| 0 <= k < i ==> !(#[trigger] views(patterns@)[k]).excludes(host@),
        decreases patterns.len() - i,
    {
        assert(views(patterns@)[i as int] == patterns@[i as int]@);
        match &patterns[i] {
            HostPattern::Any => {
                hit = true;
            },
            HostPattern::Positive(g) => {
                if !hit && glob_match(g.as_str(), host) {
                    hit = true;
                }
            },
            HostPattern::Negative(g) => {
                if glob_match(g.as_str(), host) {
                    return false;
                }
            },
        }
        i += 1;
    }
    hit
}

/// A list of negative patterns alone matches nothing, nor does an empty list.
pub proof fn lemma_only_negatives_match_nothing(patterns: Seq<HostPatternView>, host: Seq<char>)
    requires
        forall|i: int| 0 <= i < patterns.len() ==> #[trigger] patterns[i] is Negative,
    ensures
        !list_matches(patterns, host),
{
}

/// One negative pattern that matches excludes the host, whatever else the
/// list holds.
pub proof fn lemma_negative_wins(patterns: Seq<HostPatternView>, host: Seq<char>, i: int)
    requires
        0 <= i < patterns.len(),
        patterns[i].excludes(host),
    ensures
        !list_matches(patterns, host),
{
}

/// A pattern with one star between two literal parts matches what begins with
/// the one, ends with the other and has room for both.
pub proof fn lemma_star_between_literals(p: Seq<u8>, q: Seq<u8>, n: Seq<u8>)
    requires
        !p.contains(42u8) && !p.contains(63u8),
        !q.contains(42u8) && !q.contains(63u8),
    ensures
        glob_bytes(p + seq![42u8] + q, n) <==> n.len() >= p.len() + q.len() && n.take(
            p.len() as int,
        ) == p && n.skip(n.len() - q.len()) == q,
    decreases p.len(),
{
    let g = p + seq![42u8] + q;
    if p.len() == 0 {
        assert(g.skip(1) =~= q);
        lemma_star(g, n);
        assert(n.take(0) =~= p);
        if n.len() >= q.len() && n.skip(n.len() - q.len()) == q {
            lemma_literal_matches_itself(q, n.skip(n.len() - q.len()));
        }
        if glob_bytes(g, n) {
            let k = choose|k: int| 0 <= k <= n.len() && #[trigger] glob_bytes(g.skip(1), n.skip(k));
            lemma_literal_matches_itself(q, n.skip(k));
            assert(k == n.len() - q.len());
        }
    } else {
        let rest = p.skip(1);
        assert(p.contains(p[0]));
        assert forall|x: u8| rest.contains(x) implies p.contains(x) by {
            let i = choose|i: int| 0 <= i < rest.len() && rest[i] == x;
            assert(p[i + 1] == x);
        }
        assert(g.skip(1) =~= rest + seq![42u8] + q);
        if n.len() > 0 {
            let m = n.skip(1);
            lemma_star_between_literals(rest, q, m);
            if m.len() >= rest.len() + q.len() {
                assert(m.skip(m.len() - q.len()) =~= n.skip(n.len() - q.len()));
                assert(m.take(rest.len() as int) =~= n.take(p.len() as int).skip(1));
                if n.take(p.len() as int) == p {
                    assert(n[0] == p[0]);
                }
                if n[0] == p[0] && m.take(rest.len() as int) == rest {
                    assert(n.take(p.len() as int) =~= seq![p[0]] + rest);
                    assert(p =~= seq![p[0]] + rest);
                }
            }
        }
    }
}

/// A question mark stands for one byte, whichever it is.
pub proof fn lemma_question_mark_is_one_byte(p: Seq<u8>, q: Seq<u8>, n: Seq<u8>)
    requires
        !p.contains(42u8) && !p.contains(63u8),
        !q.contains(42u8) && !q.contains(63u8),
    ensures
        glob_bytes(p + seq![63u8] + q, n) <==> n.len() == p.len() + 1 + q.len() && n.take(
            p.len() as int,
        ) == p && n.skip(p.len() as int + 1) == q,
    decreases p.len(),
{
    let g = p + seq![63u8] + q;
    if p.len() == 0 {
        assert(g.skip(1) =~= q);
        assert(n.take(0) =~= p);
        if n.len() > 0 {
            lemma_literal_matches_itself(q, n.skip(1));
        }
    } else {
        let rest = p.skip(1);
        assert(p.contains(p[0]));
        assert forall|x: u8| rest.contains(x) implies p.contains(x) by {
            let i = choose|i: int| 0 <= i < rest.len() && rest[i] == x;
            assert(p[i + 1] == x);
        }
        assert(g.skip(1) =~= rest + seq![63u8] + q);
        if n.len() > 0 {
            let m = n.skip(1);
            lemma_question_mark_is_one_byte(rest, q, m);
            if n.len() >= p.len() {
                assert(m.take(rest.len() as int) =~= n.take(p.len() as int).skip(1));
                if n.take(p.len() as int) == p {
                    assert(n[0] == p[0]);
                }
                if n[0] == p[0] && m.take(rest.len() as int) == rest {
                    assert(n.take(p.len() as int) =~= seq![p[0]] + rest);
                    assert(p =~= seq![p[0]] + rest);
                }
            }
            if n.len() > p.len() {
                assert(m.skip(rest.len() as int + 1) =~= n.skip(p.len() as int + 1));
            }
        }
    }
}

} // verus!
