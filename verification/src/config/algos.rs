//! Algorithm selection for the `Ciphers`, `MACs`, `KexAlgorithms`,
//! `HostKeyAlgorithms` and `PubkeyAcceptedAlgorithms` keywords.
//!
//! The argument is a comma-separated list, and a leading modifier character on
//! the whole list says how it combines with the built-in defaults:
//!
//! | Form    | Effect                                              |
//! |---------|-----------------------------------------------------|
//! | `a,b,c` | replace the defaults with exactly this list         |
//! | `+a,b`  | append these to the end of the defaults             |
//! | `-a,b*` | remove entries matching these globs from defaults   |
//! | `^a,b`  | prepend these to the front of the defaults          |
//!
//! Names are checked against the catalogue; globs after `-` are not. A
//! directive that leaves nothing is an error, since a peer that offers an empty
//! list can negotiate nothing. The markers of the strict key exchange are not
//! algorithms: they are in no catalogue, so no directive can name or remove
//! them.

use super::glob::{glob_match, glob_matches};
use super::{bad_value, with_quoted, ConfigError, ConfigErrorView};
use crate::text::{
    chars_of, contains_str, contains_string, debug_quoted, is_space, join, join_strings, pieces,
    skip_spaces, split_pieces, trim_end, trim_start, views,
};
use crate::transport::kex::{
    is_strict_kex_marker, strict_kex_marker, CIPHERS, HOST_KEY, KEX, MACS,
};
use vstd::prelude::*;

verus! {

/// Which algorithm family a directive selects.
#[derive(Debug, Clone, Copy, PartialEq, Eq, Structural)]
pub enum AlgoCategory {
    /// `Ciphers`: symmetric encryption suites.
    Cipher,
    /// `MACs`: message authentication codes.
    Mac,
    /// `KexAlgorithms`: key-exchange methods, without the strict markers.
    Kex,
    /// `HostKeyAlgorithms`: server host-key and signature algorithms.
    HostKey,
    /// `PubkeyAcceptedAlgorithms`: signature algorithms for user keys.
    PubkeyAccepted,
}

/// Signature algorithms accepted from a certificate authority, unless
/// `CASignatureAlgorithms` says otherwise.
pub const CA_SIGNATURE_DEFAULTS: [&'static str; 6] = [
    "ssh-ed25519",
    "ecdsa-sha2-nistp256",
    "ecdsa-sha2-nistp384",
    "ecdsa-sha2-nistp521",
    "rsa-sha2-512",
    "rsa-sha2-256",
];

/// The key-exchange methods: what is offered, without the strict markers.
pub open spec fn kex_methods() -> Seq<Seq<char>> {
    views(KEX@).filter(|n: Seq<char>| !strict_kex_marker(n))
}

/// The names of a family, in order of preference.
pub open spec fn catalogue(cat: AlgoCategory) -> Seq<Seq<char>> {
    match cat {
        AlgoCategory::Cipher => views(CIPHERS@),
        AlgoCategory::Mac => views(MACS@),
        AlgoCategory::Kex => kex_methods(),
        AlgoCategory::HostKey => views(HOST_KEY@),
        AlgoCategory::PubkeyAccepted => views(HOST_KEY@),
    }
}

/// A directive's modifier, if it has one, and the names or globs in it.
pub open spec fn directive(args: Seq<Seq<char>>) -> (Option<char>, Seq<Seq<char>>) {
    let joined = join(args, " "@);
    let body = trim_start(joined);
    if body.len() > 0 && (body[0] == '+' || body[0] == '-' || body[0] == '^') {
        (Some(body[0]), pieces(body.skip(1), ',', true))
    } else {
        (None, pieces(joined, ',', true))
    }
}

/// `base`, then each of `more` that is not there yet.
pub open spec fn extended(base: Seq<Seq<char>>, more: Seq<Seq<char>>) -> Seq<Seq<char>>
    decreases more.len(),
{
    if more.len() == 0 {
        base
    } else if base.contains(more[0]) {
        extended(base, more.skip(1))
    } else {
        extended(base.push(more[0]), more.skip(1))
    }
}

/// The first of `names` that is not in `known`.
pub open spec fn first_unknown(names: Seq<Seq<char>>, known: Seq<Seq<char>>) -> Option<Seq<char>>
    decreases names.len(),
{
    if names.len() == 0 {
        None
    } else if known.contains(names[0]) {
        first_unknown(names.skip(1), known)
    } else {
        Some(names[0])
    }
}

/// Whether one of the globs matches a name.
pub open spec fn any_glob_matches(globs: Seq<Seq<char>>, name: Seq<char>) -> bool {
    exists|i: int| 0 <= i < globs.len() && glob_matches(#[trigger] globs[i], name)
}

/// What a directive without an unknown name leaves of the defaults.
pub open spec fn selection(
    modifier: Option<char>,
    names: Seq<Seq<char>>,
    defaults: Seq<Seq<char>>,
) -> Seq<Seq<char>> {
    if modifier == Some('-') {
        defaults.filter(|n: Seq<char>| !any_glob_matches(names, n))
    } else if modifier == Some('+') {
        extended(defaults, names)
    } else if modifier == Some('^') {
        extended(names, defaults)
    } else {
        extended(Seq::empty(), names)
    }
}

/// What a directive resolves to.
pub open spec fn resolution(
    cat: AlgoCategory,
    args: Seq<Seq<char>>,
    line: usize,
    keyword: Seq<char>,
) -> Result<Seq<Seq<char>>, ConfigErrorView> {
    let (modifier, names) = directive(args);
    let chosen = selection(modifier, names, catalogue(cat));
    if names.len() == 0 {
        Err(
            ConfigErrorView::BadValue {
                line,
                keyword,
                msg: "expected at least one algorithm name"@,
            },
        )
    } else if modifier != Some('-') && first_unknown(names, catalogue(cat)) is Some {
        Err(
            ConfigErrorView::BadValue {
                line,
                keyword,
                msg: "unknown algorithm "@ + debug_quoted(
                    first_unknown(names, catalogue(cat))->0,
                ),
            },
        )
    } else if chosen.len() == 0 {
        Err(
            ConfigErrorView::BadValue {
                line,
                keyword,
                msg: "directive resolves to an empty algorithm set"@,
            },
        )
    } else {
        Ok(chosen)
    }
}

/// Key-exchange methods in order of preference, without the strict markers.
pub fn kex_names() -> (r: Vec<&'static str>)
    ensures
        views(r@) == kex_methods(),
{
    let ghost keep = |n: Seq<char>| !strict_kex_marker(n);
    let mut out: Vec<&'static str> = Vec::new();
    let mut i: usize = 0;
    assert(views(KEX@).take(0) =~= Seq::<Seq<char>>::empty());
    assert(views(out@) =~= views(KEX@).take(0).filter(keep)) by {
        reveal(Seq::filter);
    }
    while i < 9
        invariant
            i <= 9,
            KEX@.len() == 9,
            keep == (|n: Seq<char>| !strict_kex_marker(n)),
            views(out@) == views(KEX@).take(i as int).filter(keep),
        decreases 9 - i,
    {
        let ghost before = out@;
        let name = KEX[i];
        if !is_strict_kex_marker(name) {
            out.push(name);
            assert(views(out@) =~= views(before).push(name@));
        }
        proof {
            let next = views(KEX@).take(i + 1);
            assert(next.drop_last() =~= views(KEX@).take(i as int));
            assert(next.last() == name@);
            reveal(Seq::filter);
        }
        i += 1;
    }
    assert(views(KEX@).take(9) =~= views(KEX@));
    out
}

/// The valid algorithm names of a family.
pub fn known_names(cat: AlgoCategory) -> (r: Vec<&'static str>)
    ensures
        views(r@) == catalogue(cat),
{
    match cat {
        AlgoCategory::Cipher => {
            let all = crate::cipher::all();
            let mut out: Vec<&'static str> = Vec::new();
            let mut i: usize = 0;
            while i < all.len()
                invariant
                    i <= all.len(),
                    out@.len() == i,
                    forall|k: int| 0 <= k < i ==> #[trigger] out@[k] == all@[k].name,
                decreases all.len() - i,
            {
                out.push(all[i].name);
                i += 1;
            }
            assert(views(out@) =~= views(CIPHERS@));
            out
        },
        AlgoCategory::Mac => vstd::slice::slice_to_vec(&MACS),
        AlgoCategory::Kex => kex_names(),
        AlgoCategory::HostKey => vstd::slice::slice_to_vec(&HOST_KEY),
        AlgoCategory::PubkeyAccepted => vstd::slice::slice_to_vec(&HOST_KEY),
    }
}

/// The built-in preference list of a family, which `+`, `-` and `^` start
/// from.
pub fn default_list(cat: AlgoCategory) -> (r: Vec<&'static str>)
    ensures
        views(r@) == catalogue(cat),
{
    match cat {
        AlgoCategory::Cipher => vstd::slice::slice_to_vec(&CIPHERS),
        AlgoCategory::Mac => vstd::slice::slice_to_vec(&MACS),
        AlgoCategory::Kex => kex_names(),
        AlgoCategory::HostKey => vstd::slice::slice_to_vec(&HOST_KEY),
        AlgoCategory::PubkeyAccepted => vstd::slice::slice_to_vec(&HOST_KEY),
    }
}

/// Join the words of a directive and split them at commas, taking the
/// modifier off the front.
fn tokenize(args: &[String]) -> (r: (Option<char>, Vec<String>))
    ensures
        (r.0, views(r.1@)) == directive(views(args@)),
{
    let joined = chars_of(join_strings(args, " ").as_str());
    let body = skip_spaces(joined.as_slice());
    if body.len() > 0 && (body[0] == '+' || body[0] == '-' || body[0] == '^') {
        let list = vstd::slice::slice_subrange(body, 1, body.len());
        assert(list@ =~= body@.skip(1));
        (Some(body[0]), split_pieces(list, ',', true))
    } else {
        (None, split_pieces(joined.as_slice(), ',', true))
    }
}

/// Refuse the first name that is not known.
fn check_known(
    names: &[String],
    known: &[&str],
    line_no: usize,
    keyword: &str,
) -> (r: Result<(), ConfigError>)
    ensures
        match first_unknown(views(names@), views(known@)) {
            None => r is Ok,
            Some(n) => r matches Err(e) && e@ == (ConfigErrorView::BadValue {
                line: line_no,
                keyword: keyword@,
                msg: "unknown algorithm "@ + debug_quoted(n),
            }),
        },
{
    let mut i: usize = 0;
    assert(views(names@).skip(0) =~= views(names@));
    while i < names.len()
        invariant
            i <= names.len(),
            first_unknown(views(names@), views(known@)) == first_unknown(
                views(names@).skip(i as int),
                views(known@),
            ),
        decreases names.len() - i,
    {
        assert(views(names@).skip(i as int)[0] == names@[i as int]@);
        assert(views(names@).skip(i as int).skip(1) =~= views(names@).skip(i + 1));
        if !contains_str(known, names[i].as_str()) {
            return Err(
                bad_value(line_no, keyword, with_quoted("unknown algorithm ", names[i].as_str())),
            );
        }
        i += 1;
    }
    Ok(())
}

/// Add to `base` each of `more` that is not there yet.
pub(crate) fn extend_with(base: &mut Vec<String>, more: &[String])
    ensures
        views(final(base)@) == extended(views(old(base)@), views(more@)),
{
    let mut i: usize = 0;
    assert(views(more@).skip(0) =~= views(more@));
    while i < more.len()
        invariant
            i <= more.len(),
            extended(views(old(base)@), views(more@)) == extended(
                views(base@),
                views(more@).skip(i as int),
            ),
        decreases more.len() - i,
    {
        assert(views(more@).skip(i as int)[0] == more@[i as int]@);
        assert(views(more@).skip(i as int).skip(1) =~= views(more@).skip(i + 1));
        if !contains_string(base.as_slice(), more[i].as_str()) {
            let ghost before = base@;
            base.push(more[i].clone());
            assert(views(base@) =~= views(before).push(more@[i as int]@));
        }
        i += 1;
    }
}

/// The names as owned strings.
pub(crate) fn owned(names: &[&str]) -> (r: Vec<String>)
    ensures
        views(r@) == views(names@),
{
    let mut out: Vec<String> = Vec::new();
    let mut i: usize = 0;
    while i < names.len()
        invariant
            i <= names.len(),
            out@.len() == i,
            forall|k: int| 0 <= k < i ==> #[trigger] out@[k]@ == names@[k]@,
        decreases names.len() - i,
    {
        out.push(names[i].to_owned());
        i += 1;
    }
    assert(views(out@) =~= views(names@));
    out
}

/// The names that none of the globs matches.
fn without_matches(names: &[&str], globs: &[String]) -> (r: Vec<String>)
    ensures
        views(r@) == views(names@).filter(|n: Seq<char>| !any_glob_matches(views(globs@), n)),
{
    let ghost keep = |n: Seq<char>| !any_glob_matches(views(globs@), n);
    let mut out: Vec<String> = Vec::new();
    let mut i: usize = 0;
    assert(views(names@).take(0) =~= Seq::<Seq<char>>::empty());
    assert(views(out@) =~= views(names@).take(0).filter(keep)) by {
        reveal(Seq::filter);
    }
    while i < names.len()
        invariant
            i <= names.len(),
            keep == (|n: Seq<char>| !any_glob_matches(views(globs@), n)),
            views(out@) == views(names@).take(i as int).filter(keep),
        decreases names.len() - i,
    {
        let ghost before = out@;
        let mut matched = false;
        let mut j: usize = 0;
        while j < globs.len() && !matched
            invariant
                i < names.len(),
                j <= globs.len(),
                matched <==> exists|k: int|
                    0 <= k < j && glob_matches(#[trigger] views(globs@)[k], names@[i as int]@),
            decreases globs.len() - j,
        {
            assert(views(globs@)[j as int] == globs@[j as int]@);
            if glob_match(globs[j].as_str(), names[i]) {
                matched = true;
            }
            j += 1;
        }
        assert(matched == any_glob_matches(views(globs@), names@[i as int]@));
        if !matched {
            out.push(names[i].to_owned());
            assert(views(out@) =~= views(before).push(names@[i as int]@));
        }
        proof {
            let next = views(names@).take(i + 1);
            assert(next.drop_last() =~= views(names@).take(i as int));
            assert(next.last() == names@[i as int]@);
            reveal(Seq::filter);
        }
        i += 1;
    }
    assert(views(names@).take(i as int) =~= views(names@));
    out
}

/// Resolve an algorithm directive into a preference list.
///
/// `args` are the words after the keyword; `line_no` and `keyword` go into the
/// error, so that a rejection points at its source.
pub fn resolve_algo_list(
    cat: AlgoCategory,
    args: &[String],
    line_no: usize,
    keyword: &str,
) -> (r: Result<Vec<String>, ConfigError>)
    ensures
        match resolution(cat, views(args@), line_no, keyword@) {
            Ok(names) => r matches Ok(v) && views(v@) == names,
            Err(e) => r matches Err(x) && x@ == e,
        },
{
    let (modifier, tokens) = tokenize(args);
    if tokens.len() == 0 {
        return Err(bad_value(line_no, keyword, "expected at least one algorithm name".to_owned()));
    }
    let known = known_names(cat);
    if modifier != Some('-') {
        check_known(tokens.as_slice(), known.as_slice(), line_no, keyword)?;
    }
    let result = if modifier == Some('-') {
        without_matches(default_list(cat).as_slice(), tokens.as_slice())
    } else if modifier == Some('+') {
        let mut out = owned(default_list(cat).as_slice());
        extend_with(&mut out, tokens.as_slice());
        out
    } else if modifier == Some('^') {
        let mut out = tokens;
        let defaults = owned(default_list(cat).as_slice());
        extend_with(&mut out, defaults.as_slice());
        out
    } else {
        let mut out: Vec<String> = Vec::new();
        assert(views(out@) =~= Seq::<Seq<char>>::empty());
        extend_with(&mut out, tokens.as_slice());
        out
    };
    if result.len() == 0 {
        return Err(
            bad_value(
                line_no,
                keyword,
                "directive resolves to an empty algorithm set".to_owned(),
            ),
        );
    }
    Ok(result)
}

/// Extending a list keeps it as the front, holds what either list holds, and
/// repeats nothing that the list did not repeat.
pub proof fn lemma_extended(base: Seq<Seq<char>>, more: Seq<Seq<char>>)
    ensures
        base.is_prefix_of(extended(base, more)),
        forall|n: Seq<char>| #[trigger]
            extended(base, more).contains(n) <==> base.contains(n) || more.contains(n),
        base.no_duplicates() ==> extended(base, more).no_duplicates(),
    decreases more.len(),
{
    if more.len() > 0 {
        let rest = more.skip(1);
        assert(more =~= seq![more[0]] + rest);
        assert forall|n: Seq<char>| #[trigger] more.contains(n) <==> n == more[0]
            || rest.contains(n) by {
            if rest.contains(n) {
                let k = rest.index_of(n);
                assert(more[k + 1] == n);
            }
            if more.contains(n) && n != more[0] {
                let k = more.index_of(n);
                assert(rest[k - 1] == n);
            }
        }
        if base.contains(more[0]) {
            lemma_extended(base, rest);
        } else {
            let grown = base.push(more[0]);
            lemma_extended(grown, rest);
            assert forall|n: Seq<char>| #[trigger] grown.contains(n) <==> base.contains(n) || n
                == more[0] by {
                if base.contains(n) {
                    let k = base.index_of(n);
                    assert(grown[k] == n);
                }
                assert(grown[base.len() as int] == more[0]);
            }
            assert(grown.take(base.len() as int) =~= base);
            assert(base.is_prefix_of(extended(base, more))) by {
                let all = extended(base, more);
                assert forall|i: int| 0 <= i < base.len() implies base[i] == all[i] by {
                    assert(grown[i] == base[i]);
                }
            }
        }
    }
}

/// If no name is unknown, all of them are known.
pub proof fn lemma_first_unknown(names: Seq<Seq<char>>, known: Seq<Seq<char>>)
    ensures
        match first_unknown(names, known) {
            None => forall|n: Seq<char>| #[trigger] names.contains(n) ==> known.contains(n),
            Some(n) => names.contains(n) && !known.contains(n),
        },
    decreases names.len(),
{
    if names.len() > 0 {
        let rest = names.skip(1);
        lemma_first_unknown(rest, known);
        assert forall|n: Seq<char>| #[trigger] names.contains(n) && n != names[0] implies rest
            .contains(n) by {
            let k = names.index_of(n);
            assert(rest[k - 1] == n);
        }
        if known.contains(names[0]) {
            if let Some(n) = first_unknown(rest, known) {
                let k = rest.index_of(n);
                assert(names[k + 1] == n);
            }
        }
    }
}

/// Filtering leaves exactly the elements that pass.
proof fn lemma_filter_contains(s: Seq<Seq<char>>, keep: spec_fn(Seq<char>) -> bool, n: Seq<char>)
    ensures
        s.filter(keep).contains(n) <==> s.contains(n) && keep(n),
    decreases s.len(),
{
    reveal(Seq::filter);
    if s.len() > 0 {
        let front = s.drop_last();
        lemma_filter_contains(front, keep, n);
        assert(s =~= front.push(s.last()));
        assert(front.contains(n) ==> s.contains(n)) by {
            if front.contains(n) {
                assert(s[front.index_of(n)] == n);
            }
        }
        assert(s.contains(n) ==> front.contains(n) || n == s.last()) by {
            if s.contains(n) && n != s.last() {
                assert(front[s.index_of(n)] == n);
            }
        }
        if keep(s.last()) {
            let kept = front.filter(keep);
            let all = kept.push(s.last());
            assert(all[kept.len() as int] == s.last());
            assert(kept.contains(n) ==> all.contains(n)) by {
                if kept.contains(n) {
                    assert(all[kept.index_of(n)] == n);
                }
            }
            assert(all.contains(n) ==> kept.contains(n) || n == s.last()) by {
                if all.contains(n) && n != s.last() {
                    assert(kept[all.index_of(n)] == n);
                }
            }
        }
    }
}

/// A directive never resolves to nothing, and every name it resolves to is in
/// the catalogue.
pub proof fn lemma_resolution_is_known(
    cat: AlgoCategory,
    args: Seq<Seq<char>>,
    line: usize,
    keyword: Seq<char>,
)
    ensures
        resolution(cat, args, line, keyword) matches Ok(names) ==> {
            &&& names.len() > 0
            &&& forall|n: Seq<char>| #[trigger] names.contains(n) ==> catalogue(cat).contains(n)
        },
{
    let (modifier, tokens) = directive(args);
    lemma_first_unknown(tokens, catalogue(cat));
    lemma_extended(catalogue(cat), tokens);
    lemma_extended(tokens, catalogue(cat));
    lemma_extended(Seq::empty(), tokens);
    if let Ok(names) = resolution(cat, args, line, keyword) {
        assert forall|n: Seq<char>| #[trigger] names.contains(n) implies catalogue(
            cat,
        ).contains(n) by {
            lemma_filter_contains(
                catalogue(cat),
                |n: Seq<char>| !any_glob_matches(tokens, n),
                n,
            );
        }
    }
}

/// No directive brings a marker of the strict key exchange in.
pub proof fn lemma_markers_stay_out(args: Seq<Seq<char>>, line: usize, keyword: Seq<char>)
    ensures
        resolution(AlgoCategory::Kex, args, line, keyword) matches Ok(names) ==> forall|n: Seq<char>|
            #[trigger] names.contains(n) ==> !strict_kex_marker(n),
{
    lemma_resolution_is_known(AlgoCategory::Kex, args, line, keyword);
    if let Ok(names) = resolution(AlgoCategory::Kex, args, line, keyword) {
        assert forall|n: Seq<char>| #[trigger] names.contains(n) implies !strict_kex_marker(n) by {
            lemma_filter_contains(views(KEX@), |n: Seq<char>| !strict_kex_marker(n), n);
        }
    }
}

/// Appending and prepending lose nothing of the defaults: the result has the
/// catalogue's names and no others. Appending keeps the defaults in front, and
/// prepending puts the given names there.
pub proof fn lemma_append_and_prepend_keep_all(
    cat: AlgoCategory,
    args: Seq<Seq<char>>,
    line: usize,
    keyword: Seq<char>,
)
    ensures
        ({
            let (modifier, tokens) = directive(args);
            resolution(cat, args, line, keyword) matches Ok(names) ==> {
                &&& (modifier == Some('+') || modifier == Some('^')) ==> forall|n: Seq<char>|
                    #[trigger] names.contains(n) <==> catalogue(cat).contains(n)
                &&& modifier == Some('+') ==> catalogue(cat).is_prefix_of(names)
                &&& modifier == Some('^') ==> tokens.is_prefix_of(names)
            }
        }),
{
    let (modifier, tokens) = directive(args);
    lemma_first_unknown(tokens, catalogue(cat));
    lemma_extended(catalogue(cat), tokens);
    lemma_extended(tokens, catalogue(cat));
}

/// Removing leaves exactly the defaults that no glob matches.
pub proof fn lemma_removal_is_exact(
    cat: AlgoCategory,
    args: Seq<Seq<char>>,
    line: usize,
    keyword: Seq<char>,
)
    ensures
        ({
            let (modifier, globs) = directive(args);
            resolution(cat, args, line, keyword) matches Ok(names) ==> modifier == Some('-') ==> (
            forall|n: Seq<char>| #[trigger]
                names.contains(n) <==> catalogue(cat).contains(n) && !any_glob_matches(globs, n))
        }),
{
    let (modifier, globs) = directive(args);
    if modifier == Some('-') {
        if let Ok(names) = resolution(cat, args, line, keyword) {
            assert forall|n: Seq<char>| #[trigger] names.contains(n) <==> catalogue(cat).contains(n)
                && !any_glob_matches(globs, n) by {
                lemma_filter_contains(
                    catalogue(cat),
                    |n: Seq<char>| !any_glob_matches(globs, n),
                    n,
                );
            }
        }
    }
}

/// A bare list replaces the defaults by exactly its names, each once.
pub proof fn lemma_replacement_is_exact(
    cat: AlgoCategory,
    args: Seq<Seq<char>>,
    line: usize,
    keyword: Seq<char>,
)
    ensures
        ({
            let (modifier, tokens) = directive(args);
            resolution(cat, args, line, keyword) matches Ok(names) ==> modifier is None ==> {
                &&& names.no_duplicates()
                &&& forall|n: Seq<char>| #[trigger] names.contains(n) <==> tokens.contains(n)
            }
        }),
{
    let (modifier, tokens) = directive(args);
    lemma_extended(Seq::empty(), tokens);
}

/// A bare list of known names, each once, is taken as it is: in its own order.
pub proof fn lemma_bare_list_is_taken_as_it_is(
    cat: AlgoCategory,
    args: Seq<Seq<char>>,
    line: usize,
    keyword: Seq<char>,
)
    requires
        directive(args).0 is None,
        directive(args).1.len() > 0,
        directive(args).1.no_duplicates(),
        forall|n: Seq<char>| #[trigger] directive(args).1.contains(n) ==> catalogue(cat).contains(n),
    ensures
        resolution(cat, args, line, keyword) == Ok::<_, ConfigErrorView>(directive(args).1),
{
    let names = directive(args).1;
    lemma_first_unknown(names, catalogue(cat));
    lemma_nothing_left_out(Seq::empty(), names);
    assert(Seq::<Seq<char>>::empty() + names =~= names);
}

/// With `^`, the names come first, in their own order, and the rest of the
/// defaults after them, in theirs.
pub proof fn lemma_prepending_moves_to_the_front(
    cat: AlgoCategory,
    args: Seq<Seq<char>>,
    line: usize,
    keyword: Seq<char>,
)
    requires
        directive(args).0 == Some('^'),
        directive(args).1.len() > 0,
        forall|n: Seq<char>| #[trigger] directive(args).1.contains(n) ==> catalogue(cat).contains(n),
    ensures
        ({
            let names = directive(args).1;
            resolution(cat, args, line, keyword) matches Ok(all) && names.is_prefix_of(all)
                && forall|i: int, j: int|
                names.len() <= i < j < all.len() ==> in_order(
                    catalogue(cat),
                    #[trigger] all[i],
                    #[trigger] all[j],
                )
        }),
{
    let names = directive(args).1;
    lemma_first_unknown(names, catalogue(cat));
    lemma_extended(names, catalogue(cat));
    lemma_extension_in_order(names, catalogue(cat));
    let all = extended(names, catalogue(cat));
    assert(all.len() >= names.len());
}

/// Whether one name stands before another in a list.
pub open spec fn in_order(list: Seq<Seq<char>>, a: Seq<char>, b: Seq<char>) -> bool {
    exists|i: int, j: int|
        0 <= i < j < list.len() && (#[trigger] list[i]) == a && (#[trigger] list[j]) == b
}

proof fn lemma_extension_in_order(base: Seq<Seq<char>>, more: Seq<Seq<char>>)
    ensures
        ({
            let all = extended(base, more);
            &&& all.len() >= base.len()
            &&& forall|i: int| base.len() <= i < all.len() ==> more.contains(#[trigger] all[i])
            &&& forall|i: int, j: int|
                base.len() <= i < j < all.len() ==> in_order(
                    more,
                    #[trigger] all[i],
                    #[trigger] all[j],
                )
        }),
    decreases more.len(),
{
    if more.len() > 0 {
        let rest = more.skip(1);
        let grown = if base.contains(more[0]) {
            base
        } else {
            base.push(more[0])
        };
        lemma_extension_in_order(grown, rest);
        lemma_extended(grown, rest);
        let all = extended(base, more);
        assert forall|i: int| base.len() <= i < all.len() implies more.contains(
            #[trigger] all[i],
        ) by {
            if i < grown.len() {
                assert(all[i] == grown[i]);
                assert(more[0] == all[i]);
            } else {
                let j = rest.index_of(all[i]);
                assert(more[j + 1] == all[i]);
            }
        }
        assert forall|i: int, j: int| base.len() <= i < j < all.len() implies in_order(
            more,
            #[trigger] all[i],
            #[trigger] all[j],
        ) by {
            if i < grown.len() {
                assert(all[i] == grown[i] && grown[i] == more[0]);
                let k = rest.index_of(all[j]);
                assert(more[k + 1] == all[j]);
                assert(more[0] == all[i]);
            } else {
                assert(in_order(rest, all[i], all[j]));
                let (a, b) = choose|a: int, b: int|
                    0 <= a < b < rest.len() && (#[trigger] rest[a]) == all[i] && (
                    #[trigger] rest[b]) == all[j];
                assert(more[a + 1] == all[i] && more[b + 1] == all[j]);
            }
        }
    }
}

proof fn lemma_nothing_left_out(base: Seq<Seq<char>>, more: Seq<Seq<char>>)
    requires
        (base + more).no_duplicates(),
    ensures
        extended(base, more) == base + more,
    decreases more.len(),
{
    if more.len() > 0 {
        let all = base + more;
        assert(!base.contains(more[0])) by {
            if base.contains(more[0]) {
                let k = base.index_of(more[0]);
                assert(all[k] == all[base.len() as int]);
            }
        }
        assert(base.push(more[0]) + more.skip(1) =~= all);
        lemma_nothing_left_out(base.push(more[0]), more.skip(1));
    } else {
        assert(base + more =~= base);
    }
}

/// One name by itself is a list of that name, and with a sign in front a change
/// of the defaults by it.
pub proof fn lemma_single_name_directives(name: Seq<char>, sign: char)
    requires
        name.len() > 0,
        forall|i: int| 0 <= i < name.len() ==> !is_space(#[trigger] name[i]) && name[i] != ',',
        name[0] != '+' && name[0] != '-' && name[0] != '^',
        sign == '+' || sign == '-' || sign == '^',
    ensures
        directive(seq![name]) == (None::<char>, seq![name]),
        directive(seq![seq![sign] + name]) == (Some(sign), seq![name]),
{
    assert(join(seq![name], " "@) == name);
    assert(trim_start(name) == name);
    assert(!is_space(name[name.len() - 1]));
    assert(trim_end(name) == name);
    let signed = seq![sign] + name;
    assert(join(seq![signed], " "@) == signed);
    assert(signed[0] == sign);
    assert(!is_space(sign));
    assert(trim_start(signed) == signed);
    assert(signed.skip(1) =~= name);
    assert(!name.contains(',')) by {
        if name.contains(',') {
            let k = choose|k: int| 0 <= k < name.len() && name[k] == ',';
            assert(!is_space(name[k]));
        }
    }
    super::match_laws::lemma_list_parts(name, Seq::empty(), ',', true);
}

/// The families of names, in order of preference.
pub proof fn lemma_catalogues()
    ensures
        catalogue(AlgoCategory::Cipher) == crate::client::kexinit::builtin_ciphers(),
        catalogue(AlgoCategory::Mac) == crate::client::kexinit::builtin_macs(),
        catalogue(AlgoCategory::Kex) == crate::client::kexinit::builtin_methods(),
        catalogue(AlgoCategory::HostKey) == crate::client::kexinit::builtin_host_keys().skip(6),
        catalogue(AlgoCategory::PubkeyAccepted)
            == crate::client::kexinit::builtin_host_keys().skip(6),
{
    crate::client::kexinit::lemma_builtin_methods();
    assert(views(CIPHERS@) =~= crate::client::kexinit::builtin_ciphers());
    assert(views(MACS@) =~= crate::client::kexinit::builtin_macs());
    assert(views(HOST_KEY@) =~= crate::client::kexinit::builtin_host_keys().skip(6));
}

} // verus!
