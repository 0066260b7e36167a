//! Patterns for file names.
//!
//! `*` stands for any bytes, `?` for any one byte, and `[abc]` for one byte of
//! those in the brackets.
//!
//! In brackets `a-z` stands for the bytes from the one to the other, and a `-`
//! that is first or last for itself. A class that begins with `!` or `^` stands
//! for one byte that is not in it. A `]` that comes first in a class is in it.
//! A `[` that no `]` closes stands for itself.

use super::glob::glob_bytes;
use vstd::prelude::*;
use vstd::utf8::encode_utf8;

verus! {

/// Where the members of a class begin that `p` begins with: behind the bracket,
/// and behind the sign that turns the class around.
pub open spec fn members_start(p: Seq<u8>) -> int {
    if p.len() > 1 && (p[1] == 33 || p[1] == 94) {
        2
    } else {
        1
    }
}

/// The first closing bracket from `from` on.
pub open spec fn closing(p: Seq<u8>, from: int) -> Option<int>
    decreases p.len() - from,
{
    if from >= p.len() {
        None
    } else if p[from] == 93 {
        Some(from)
    } else {
        closing(p, from + 1)
    }
}

/// Where the class ends that `p` begins with: at the first closing bracket
/// behind its first member.
pub open spec fn class_end(p: Seq<u8>) -> Option<int> {
    closing(p, members_start(p) + 1)
}

/// Whether `b` is among the members of a class, written as single bytes and as
/// ranges.
pub open spec fn is_member(members: Seq<u8>, b: u8) -> bool
    decreases members.len(),
{
    if members.len() == 0 {
        false
    } else if members.len() >= 3 && members[1] == 45 {
        members[0] <= b <= members[2] || is_member(members.skip(3), b)
    } else {
        members[0] == b || is_member(members.skip(1), b)
    }
}

/// Whether the class that `p` begins with, and that ends at `end`, stands for
/// `b`.
pub open spec fn in_class(p: Seq<u8>, end: int, b: u8) -> bool {
    is_member(p.subrange(members_start(p), end), b) != (members_start(p) == 2)
}

/// A closing bracket that is found lies in the pattern, at `from` or behind it.
pub proof fn lemma_closing_bounds(p: Seq<u8>, from: int)
    ensures
        closing(p, from) matches Some(k) ==> from <= k < p.len(),
    decreases p.len() - from,
{
    if from < p.len() && p[from] != 93 {
        lemma_closing_bounds(p, from + 1);
    }
}

/// Whether the bytes `n` match the pattern `p`.
pub open spec fn name_bytes_match(p: Seq<u8>, n: Seq<u8>) -> bool
    decreases p.len(), n.len(),
{
    if p.len() == 0 {
        n.len() == 0
    } else if p[0] == 42 {
        name_bytes_match(p.skip(1), n) || (n.len() > 0 && name_bytes_match(p, n.skip(1)))
    } else if p[0] == 91 && class_end(p) is Some {
        proof {
            lemma_closing_bounds(p, members_start(p) + 1);
        }
        n.len() > 0 && in_class(p, class_end(p)->0, n[0]) && name_bytes_match(
            p.skip(class_end(p)->0 + 1),
            n.skip(1),
        )
    } else {
        n.len() > 0 && (p[0] == 63 || p[0] == n[0]) && name_bytes_match(p.skip(1), n.skip(1))
    }
}

/// Whether a file name matches a pattern, compared byte by byte.
pub open spec fn name_matches(pattern: Seq<char>, name: Seq<char>) -> bool {
    name_bytes_match(encode_utf8(pattern), encode_utf8(name))
}

/// Without brackets, a pattern for file names means what one for hosts does.
pub proof fn lemma_without_brackets_as_for_hosts(p: Seq<u8>, n: Seq<u8>)
    requires
        !p.contains(91u8),
    ensures
        name_bytes_match(p, n) == glob_bytes(p, n),
    decreases p.len(), n.len(),
{
    if p.len() > 0 {
        assert(p.contains(p[0]));
        assert forall|x: u8| p.skip(1).contains(x) implies p.contains(x) by {
            let i = choose|i: int| 0 <= i < p.skip(1).len() && p.skip(1)[i] == x;
            assert(p[i + 1] == x);
        }
        lemma_without_brackets_as_for_hosts(p.skip(1), n);
        if n.len() > 0 {
            lemma_without_brackets_as_for_hosts(p, n.skip(1));
            lemma_without_brackets_as_for_hosts(p.skip(1), n.skip(1));
        }
    }
}

/// A class and its opposite share the bytes out between them: each byte is in
/// exactly one of the two.
pub proof fn lemma_opposite_class(members: Seq<u8>, b: u8)
    requires
        members.len() > 0,
        members[0] != 33 && members[0] != 94,
        !members.contains(93u8),
    ensures
        ({
            let plain = seq![91u8] + members + seq![93u8];
            let turned = seq![91u8, 33u8] + members + seq![93u8];
            &&& class_end(plain) == Some(members.len() as int + 1)
            &&& class_end(turned) == Some(members.len() as int + 2)
            &&& in_class(plain, members.len() as int + 1, b) == is_member(members, b)
            &&& in_class(turned, members.len() as int + 2, b) == !is_member(members, b)
        }),
{
    let m = members.len() as int;
    let plain = seq![91u8] + members + seq![93u8];
    let turned = seq![91u8, 33u8] + members + seq![93u8];
    assert(plain[1] == members[0]);
    assert(turned[1] == 33u8);
    assert forall|i: int| 1 <= i < m + 1 implies plain[i] != 93 by {
        assert(members.contains(members[i - 1]));
    }
    assert forall|i: int| 2 <= i < m + 2 implies turned[i] != 93 by {
        assert(members.contains(members[i - 2]));
    }
    lemma_closing_at(plain, 2, m + 1);
    lemma_closing_at(turned, 3, m + 2);
    assert(plain.subrange(1, m + 1) =~= members);
    assert(turned.subrange(2, m + 2) =~= members);
}

proof fn lemma_closing_at(p: Seq<u8>, from: int, k: int)
    requires
        0 <= from <= k < p.len(),
        p[k] == 93,
        forall|i: int| from <= i < k ==> p[i] != 93,
    ensures
        closing(p, from) == Some(k),
    decreases k - from,
{
    if from < k {
        lemma_closing_at(p, from + 1, k);
    }
}

/// A star alone matches everything.
proof fn lemma_star_alone(n: Seq<u8>)
    ensures
        name_bytes_match(seq![42u8], n),
    decreases n.len(),
{
    if n.len() > 0 {
        lemma_star_alone(n.skip(1));
    } else {
        assert(name_bytes_match(seq![42u8].skip(1), n));
    }
}

/// A star followed by `p` matches whatever has a tail that `p` matches.
proof fn lemma_star_tail(p: Seq<u8>, n: Seq<u8>)
    requires
        p.len() > 0,
        p[0] == 42,
    ensures
        name_bytes_match(p, n) <==> exists|k: int|
            0 <= k <= n.len() && #[trigger] name_bytes_match(p.skip(1), n.skip(k)),
    decreases n.len(),
{
    assert(n.skip(0) =~= n);
    assert(name_bytes_match(p.skip(1), n.skip(0)) == name_bytes_match(p.skip(1), n));
    if n.len() > 0 {
        lemma_star_tail(p, n.skip(1));
        if name_bytes_match(p, n.skip(1)) {
            let k = choose|k: int|
                0 <= k <= n.skip(1).len() && #[trigger] name_bytes_match(
                    p.skip(1),
                    n.skip(1).skip(k),
                );
            assert(n.skip(1).skip(k) =~= n.skip(k + 1));
            assert(name_bytes_match(p.skip(1), n.skip(k + 1)));
        }
        if exists|k: int| 0 <= k <= n.len() && #[trigger] name_bytes_match(p.skip(1), n.skip(k)) {
            let k = choose|k: int|
                0 <= k <= n.len() && #[trigger] name_bytes_match(p.skip(1), n.skip(k));
            if k > 0 {
                assert(n.skip(1).skip(k - 1) =~= n.skip(k));
                assert(name_bytes_match(p.skip(1), n.skip(1).skip(k - 1)));
            }
        }
    } else {
        assert forall|k: int| 0 <= k <= n.len() implies n.skip(k) == n by {
            assert(n.skip(k) =~= n);
        }
    }
}

/// Where the class ends that a pattern has at `at`, counted from there.
fn find_class_end(p: &[u8], at: usize) -> (r: Option<usize>)
    requires
        at < p@.len(),
    ensures
        match class_end(p@.skip(at as int)) {
            Some(k) => r matches Some(i) && i == k && at + k < p@.len(),
            None => r is None,
        },
{
    let ghost rest = p@.skip(at as int);
    let n: usize = p.len() - at;
    let start: usize = if n > 1 && (p[at + 1] == 33 || p[at + 1] == 94) {
        3
    } else {
        2
    };
    assert(start == members_start(rest) + 1);
    let mut i: usize = start;
    while i < n
        invariant
            n == p@.len() - at,
            at < p@.len() <= usize::MAX,
            rest == p@.skip(at as int),
            rest.len() == n,
            class_end(rest) == closing(rest, i as int),
        decreases n - i,
    {
        if p[at + i] == 93 {
            return Some(i);
        }
        i += 1;
    }
    None
}

/// Whether a byte is among the members that stand in `p` from `from` to `to`.
fn among(p: &[u8], from: usize, to: usize, b: u8) -> (r: bool)
    requires
        from <= to <= p@.len(),
    ensures
        r == is_member(p@.subrange(from as int, to as int), b),
{
    let ghost all = p@.subrange(from as int, to as int);
    let mut i: usize = from;
    while i < to
        invariant
            from <= i <= to <= p@.len(),
            all == p@.subrange(from as int, to as int),
            is_member(all, b) == is_member(p@.subrange(i as int, to as int), b),
        decreases to - i,
    {
        let ghost rest = p@.subrange(i as int, to as int);
        if to - i >= 3 && p[i + 1] == 45 {
            assert(rest.skip(3) =~= p@.subrange(i + 3, to as int));
            if p[i] <= b && b <= p[i + 2] {
                return true;
            }
            i += 3;
        } else {
            assert(rest.skip(1) =~= p@.subrange(i + 1, to as int));
            if p[i] == b {
                return true;
            }
            i += 1;
        }
    }
    false
}

/// The matcher on bytes.
fn match_from(p: &[u8], n: &[u8]) -> (r: bool)
    ensures
        r == name_bytes_match(p@, n@),
    decreases p.len(),
{
    let mut pi: usize = 0;
    let mut ni: usize = 0;
    assert(p@.skip(0) =~= p@);
    assert(n@.skip(0) =~= n@);
    while pi < p.len()
        invariant
            pi <= p.len(),
            ni <= n.len(),
            name_bytes_match(p@, n@) == name_bytes_match(p@.skip(pi as int), n@.skip(ni as int)),
        decreases p.len() - pi,
    {
        let ghost rest = p@.skip(pi as int);
        let ghost left = n@.skip(ni as int);
        assert(rest.skip(1) =~= p@.skip(pi + 1));
        if p[pi] == 42 {
            let tail = vstd::slice::slice_subrange(p, pi + 1, p.len());
            proof {
                assert(tail@ =~= rest.skip(1));
                lemma_star_tail(rest, left);
            }
            if tail.len() == 0 {
                proof {
                    assert(rest =~= seq![42u8]);
                    lemma_star_alone(left);
                }
                return true;
            }
            let start: usize = ni;
            let mut k: usize = ni;
            loop
                invariant
                    start <= k <= n.len(),
                    tail@.len() < p@.len(),
                    tail@ == rest.skip(1),
                    left == n@.skip(start as int),
                    name_bytes_match(p@, n@) <==> exists|j: int|
                        0 <= j <= left.len() && #[trigger] name_bytes_match(
                            rest.skip(1),
                            left.skip(j),
                        ),
                    forall|j: int|
                        0 <= j < k - start ==> !#[trigger] name_bytes_match(
                            rest.skip(1),
                            left.skip(j),
                        ),
                decreases n.len() - k,
            {
                let part = vstd::slice::slice_subrange(n, k, n.len());
                assert(part@ =~= left.skip(k - start));
                if match_from(tail, part) {
                    return true;
                }
                if k == n.len() {
                    return false;
                }
                k += 1;
            }
        }
        let end: Option<usize> = if p[pi] == 91 {
            find_class_end(p, pi)
        } else {
            None
        };
        if ni >= n.len() {
            return false;
        }
        assert(left.skip(1) =~= n@.skip(ni + 1));
        match end {
            Some(end) => {
                proof {
                    lemma_closing_bounds(rest, members_start(rest) + 1);
                }
                let turned = p[pi + 1] == 33 || p[pi + 1] == 94;
                let from: usize = if turned {
                    pi + 2
                } else {
                    pi + 1
                };
                assert(from == pi + members_start(rest));
                assert(p@.subrange(from as int, pi + end) =~= rest.subrange(
                    members_start(rest),
                    end as int,
                ));
                if among(p, from, pi + end, n[ni]) == turned {
                    return false;
                }
                assert(rest.skip(end + 1) =~= p@.skip(pi + end + 1));
                pi = pi + end + 1;
            },
            None => {
                if p[pi] != 63 && p[pi] != n[ni] {
                    return false;
                }
                pi += 1;
            },
        }
        ni += 1;
    }
    ni == n.len()
}

/// Whether a file name matches a pattern.
pub fn match_name(pattern: &str, name: &str) -> (r: bool)
    ensures
        r == name_matches(pattern@, name@),
{
    match_from(pattern.as_bytes(), name.as_bytes())
}

} // verus!
