//! File name patterns, expanded against listings of directories.
//!
//! A pattern is walked one component at a time. A plain component is appended
//! to every path found so far; one with `*`, `?` or `[` in it asks for the
//! names in each of those directories and keeps the ones that match. What is
//! found is sorted, since directories are listed in no particular order.
//!
//! Nothing here touches the file system. A walk works on the listings that it
//! is given and says which one it lacks.

use super::pattern::{match_name, name_matches};
use crate::text::{chars_of, concat, pieces, split_pieces, str_eq, string_of, views};
use vstd::prelude::*;
use vstd::relations::{sorted_by, total_ordering};

verus! {

/// What became of a directory: the names in it, or nothing where it could not
/// be listed.
#[derive(Debug, Clone, PartialEq, Eq)]
pub struct DirEntry {
    /// The directory.
    pub path: String,
    /// The names in it.
    pub names: Option<Vec<String>>,
}

impl View for DirEntry {
    type V = (Seq<char>, Option<Seq<Seq<char>>>);

    open spec fn view(&self) -> (Seq<char>, Option<Seq<Seq<char>>>) {
        (
            self.path@,
            match self.names {
                Some(names) => Some(views(names@)),
                None => None,
            },
        )
    }
}

/// Listings, each under the path of its directory.
pub type Listings = Seq<(Seq<char>, Option<Seq<Seq<char>>>)>;

/// The first entry under a key.
pub open spec fn entry_of<T>(entries: Seq<(Seq<char>, T)>, key: Seq<char>) -> Option<T>
    decreases entries.len(),
{
    if entries.len() == 0 {
        None
    } else if entries[0].0 == key {
        Some(entries[0].1)
    } else {
        entry_of(entries.skip(1), key)
    }
}

/// A path below a directory; an absolute path stands for itself.
pub open spec fn path_in(dir: Seq<char>, path: Seq<char>) -> Seq<char> {
    if path.len() > 0 && path[0] == '/' {
        path
    } else if dir.len() == 0 || dir.last() == '/' {
        dir + path
    } else {
        dir + "/"@ + path
    }
}

/// A path below a directory.
pub(crate) fn join_path(dir: &str, path: &[char]) -> (r: String)
    ensures
        r@ == path_in(dir@, path@),
{
    if path.len() > 0 && path[0] == '/' {
        return string_of(path);
    }
    let cs = chars_of(dir);
    let n: usize = cs.len();
    if n == 0 || cs[n - 1] == '/' {
        concat(dir, string_of(path).as_str())
    } else {
        concat(concat(dir, "/").as_str(), string_of(path).as_str())
    }
}

/// Whether a path component has to be expanded.
pub open spec fn has_glob_meta(s: Seq<char>) -> bool {
    s.contains('*') || s.contains('?') || s.contains('[')
}

/// Whether a path component has to be expanded.
pub fn contains_glob_meta(s: &str) -> (r: bool)
    ensures
        r == has_glob_meta(s@),
{
    let cs = chars_of(s);
    let mut i: usize = 0;
    while i < cs.len()
        invariant
            i <= cs.len(),
            cs@ == s@,
            forall|k: int| 0 <= k < i ==> cs@[k] != '*' && cs@[k] != '?' && cs@[k] != '[',
        decreases cs.len() - i,
    {
        if cs[i] == '*' || cs[i] == '?' || cs[i] == '[' {
            assert(s@.contains(cs@[i as int]));
            return true;
        }
        i += 1;
    }
    false
}

/// Whether a file name matches one path component. A component that begins
/// with `!` matches nothing.
pub open spec fn component_matches(pattern: Seq<char>, name: Seq<char>) -> bool {
    !(pattern.len() > 0 && pattern[0] == '!') && name_matches(pattern, name)
}

/// Whether a file name matches one path component, in which `*`, `?` and
/// `[abc]` are understood.
pub fn glob_segment_matches(pattern: &str, name: &str) -> (r: bool)
    ensures
        r == component_matches(pattern@, name@),
{
    let cs = chars_of(pattern);
    if cs.len() > 0 && cs[0] == '!' {
        return false;
    }
    match_name(pattern, name)
}

/// The names that match a component.
pub open spec fn matching(pattern: Seq<char>) -> spec_fn(Seq<char>) -> bool {
    |name: Seq<char>| component_matches(pattern, name)
}

/// The paths of names in a directory.
pub open spec fn below(dir: Seq<char>) -> spec_fn(Seq<char>) -> Seq<char> {
    |name: Seq<char>| path_in(dir, name)
}

/// A component appended to a directory.
pub open spec fn ending_in(component: Seq<char>) -> spec_fn(Seq<char>) -> Seq<char> {
    |dir: Seq<char>| path_in(dir, component)
}

/// Components other than `.`.
pub open spec fn not_dot() -> spec_fn(Seq<char>) -> bool {
    |s: Seq<char>| s != "."@
}

/// The components of a path.
pub open spec fn components(path: Seq<char>) -> Seq<Seq<char>> {
    pieces(path, '/', false).filter(not_dot())
}

/// Where a walk starts: at the root, or where the process stands.
pub open spec fn origin(path: Seq<char>) -> Seq<char> {
    if path.len() > 0 && path[0] == '/' {
        "/"@
    } else {
        Seq::empty()
    }
}

/// The path under which a directory is listed.
pub open spec fn listed(dir: Seq<char>) -> Seq<char> {
    if dir.len() == 0 {
        "."@
    } else {
        dir
    }
}

/// How far a walk gets: all the way, or up to a directory that has to be
/// listed first.
#[verifier::ext_equal]
pub ghost enum WalkView {
    Done(Seq<Seq<char>>),
    List(Seq<char>),
}

/// What a listing adds: the paths of the names in it that match.
pub open spec fn found_in(
    dir: Seq<char>,
    names: Option<Seq<Seq<char>>>,
    pattern: Seq<char>,
) -> Seq<Seq<char>> {
    match names {
        Some(names) => names.filter(matching(pattern)).map_values(below(dir)),
        None => Seq::empty(),
    }
}

/// The paths in directories whose names match a component. A directory that
/// cannot be listed adds nothing.
pub open spec fn matches_in(dirs: Seq<Seq<char>>, pattern: Seq<char>, seen: Listings) -> WalkView
    decreases dirs.len(),
{
    if dirs.len() == 0 {
        WalkView::Done(Seq::empty())
    } else {
        match matches_in(dirs.drop_last(), pattern, seen) {
            WalkView::List(d) => WalkView::List(d),
            WalkView::Done(before) => match entry_of(seen, listed(dirs.last())) {
                None => WalkView::List(listed(dirs.last())),
                Some(names) => WalkView::Done(before + found_in(dirs.last(), names, pattern)),
            },
        }
    }
}

/// One component further.
pub open spec fn step(dirs: Seq<Seq<char>>, component: Seq<char>, seen: Listings) -> WalkView {
    if has_glob_meta(component) {
        matches_in(dirs, component, seen)
    } else {
        WalkView::Done(dirs.map_values(ending_in(component)))
    }
}

/// All components, one after the other.
pub open spec fn walk(rest: Seq<Seq<char>>, dirs: Seq<Seq<char>>, seen: Listings) -> WalkView
    decreases rest.len(),
{
    if rest.len() == 0 {
        WalkView::Done(dirs)
    } else {
        match step(dirs, rest[0], seen) {
            WalkView::List(d) => WalkView::List(d),
            WalkView::Done(next) => walk(rest.skip(1), next, seen),
        }
    }
}

/// Where a character stands in the order of paths: a separator comes first.
pub open spec fn rank(c: char) -> int {
    if c == '/' {
        -1
    } else {
        (c as u32) as int
    }
}

/// Whether one path does not come after another, compared component by
/// component.
pub open spec fn not_after(a: Seq<char>, b: Seq<char>) -> bool
    decreases a.len(),
{
    if a.len() == 0 {
        true
    } else if b.len() == 0 {
        false
    } else if a[0] == b[0] {
        not_after(a.skip(1), b.skip(1))
    } else {
        rank(a[0]) < rank(b[0])
    }
}

/// The order of paths.
pub open spec fn path_order() -> spec_fn(Seq<char>, Seq<char>) -> bool {
    |a: Seq<char>, b: Seq<char>| not_after(a, b)
}

/// The files that a pattern matches, in order.
pub open spec fn glob_matches_of(path: Seq<char>, seen: Listings) -> WalkView {
    if path.len() == 0 {
        WalkView::Done(Seq::empty())
    } else {
        match walk(components(path), seq![origin(path)], seen) {
            WalkView::Done(found) => WalkView::Done(found.sort_by(path_order())),
            WalkView::List(d) => WalkView::List(d),
        }
    }
}

proof fn lemma_not_after_reflexive(a: Seq<char>)
    ensures
        not_after(a, a),
    decreases a.len(),
{
    if a.len() > 0 {
        lemma_not_after_reflexive(a.skip(1));
    }
}

proof fn lemma_rank_injective(a: char, b: char)
    requires
        rank(a) == rank(b),
    ensures
        a == b,
{
    vstd::utf8::char_u32_cast(a, a as u32);
    vstd::utf8::char_u32_cast(b, b as u32);
}

proof fn lemma_not_after_antisymmetric(a: Seq<char>, b: Seq<char>)
    requires
        not_after(a, b),
        not_after(b, a),
    ensures
        a == b,
    decreases a.len(),
{
    if a.len() > 0 && b.len() > 0 {
        if a[0] == b[0] {
            lemma_not_after_antisymmetric(a.skip(1), b.skip(1));
            assert(a =~= seq![a[0]] + a.skip(1));
            assert(b =~= seq![b[0]] + b.skip(1));
        }
    } else {
        assert(a =~= b);
    }
}

proof fn lemma_not_after_transitive(a: Seq<char>, b: Seq<char>, c: Seq<char>)
    requires
        not_after(a, b),
        not_after(b, c),
    ensures
        not_after(a, c),
    decreases a.len(),
{
    if a.len() > 0 && b.len() > 0 && c.len() > 0 && a[0] == b[0] && b[0] == c[0] {
        lemma_not_after_transitive(a.skip(1), b.skip(1), c.skip(1));
    }
}

proof fn lemma_not_after_connected(a: Seq<char>, b: Seq<char>)
    ensures
        not_after(a, b) || not_after(b, a),
    decreases a.len(),
{
    if a.len() > 0 && b.len() > 0 {
        if a[0] == b[0] {
            lemma_not_after_connected(a.skip(1), b.skip(1));
        } else if rank(a[0]) == rank(b[0]) {
            lemma_rank_injective(a[0], b[0]);
        }
    }
}

/// Paths are totally ordered.
pub proof fn lemma_path_order_is_total()
    ensures
        total_ordering(path_order()),
{
    let r = path_order();
    assert forall|x: Seq<char>| #[trigger] r(x, x) by {
        lemma_not_after_reflexive(x);
    }
    assert forall|x: Seq<char>, y: Seq<char>| #[trigger] r(x, y) && #[trigger] r(y, x) implies x
        == y by {
        lemma_not_after_antisymmetric(x, y);
    }
    assert forall|x: Seq<char>, y: Seq<char>, z: Seq<char>| #[trigger]
        r(x, y) && #[trigger] r(y, z) implies r(x, z) by {
        lemma_not_after_transitive(x, y, z);
    }
    assert forall|x: Seq<char>, y: Seq<char>| #[trigger] r(x, y) || #[trigger] r(y, x) by {
        lemma_not_after_connected(x, y);
    }
}

/// In which order matches turn up makes no difference once they are sorted.
pub proof fn lemma_listing_order_does_not_matter(a: Seq<Seq<char>>, b: Seq<Seq<char>>)
    requires
        a.to_multiset() == b.to_multiset(),
    ensures
        a.sort_by(path_order()) == b.sort_by(path_order()),
{
    lemma_path_order_is_total();
    a.lemma_sort_by_ensures(path_order());
    b.lemma_sort_by_ensures(path_order());
    vstd::seq_lib::lemma_sorted_unique(
        a.sort_by(path_order()),
        b.sort_by(path_order()),
        path_order(),
    );
}

/// A pattern with nothing to expand in it needs no listing and stands for one
/// path.
pub proof fn lemma_plain_path_stands_for_one_file(path: Seq<char>, seen: Listings)
    requires
        path.len() > 0,
        forall|i: int|
            0 <= i < components(path).len() ==> !has_glob_meta(#[trigger] components(path)[i]),
    ensures
        glob_matches_of(path, seen) matches WalkView::Done(found) && found.len() == 1,
{
    let r = walk(components(path), seq![origin(path)], seen);
    lemma_plain_walk(components(path), seq![origin(path)], seen);
    let found = r->Done_0;
    lemma_path_order_is_total();
    found.lemma_sort_by_ensures(path_order());
    broadcast use vstd::seq_lib::group_to_multiset_ensures;

    assert(found.sort_by(path_order()).len() == found.sort_by(path_order()).to_multiset().len());
}

proof fn lemma_matches_in_asks_once(dirs: Seq<Seq<char>>, pattern: Seq<char>, seen: Listings)
    ensures
        matches_in(dirs, pattern, seen) matches WalkView::List(d) ==> entry_of(seen, d) is None,
    decreases dirs.len(),
{
    if dirs.len() > 0 {
        lemma_matches_in_asks_once(dirs.drop_last(), pattern, seen);
    }
}

proof fn lemma_walk_asks_once(rest: Seq<Seq<char>>, dirs: Seq<Seq<char>>, seen: Listings)
    ensures
        walk(rest, dirs, seen) matches WalkView::List(d) ==> entry_of(seen, d) is None,
    decreases rest.len(),
{
    if rest.len() > 0 {
        lemma_matches_in_asks_once(dirs, rest[0], seen);
        if let WalkView::Done(next) = step(dirs, rest[0], seen) {
            lemma_walk_asks_once(rest.skip(1), next, seen);
        }
    }
}

/// A walk asks only for directories that were not listed yet.
pub proof fn lemma_glob_asks_once(path: Seq<char>, seen: Listings)
    ensures
        glob_matches_of(path, seen) matches WalkView::List(d) ==> entry_of(seen, d) is None,
{
    lemma_walk_asks_once(components(path), seq![origin(path)], seen);
}

proof fn lemma_plain_walk(rest: Seq<Seq<char>>, dirs: Seq<Seq<char>>, seen: Listings)
    requires
        forall|i: int| 0 <= i < rest.len() ==> !has_glob_meta(#[trigger] rest[i]),
    ensures
        walk(rest, dirs, seen) matches WalkView::Done(found) && found.len() == dirs.len(),
    decreases rest.len(),
{
    if rest.len() > 0 {
        let tail = rest.skip(1);
        assert forall|i: int| 0 <= i < tail.len() implies !has_glob_meta(#[trigger] tail[i]) by {
            assert(tail[i] == rest[i + 1]);
        }
        lemma_plain_walk(tail, dirs.map_values(ending_in(rest[0])), seen);
    }
}

/// How far a walk got.
#[derive(Debug, Clone, PartialEq, Eq)]
pub enum Walk {
    /// The files, in order.
    Done(Vec<String>),
    /// List this directory and walk again.
    List(String),
}

impl View for Walk {
    type V = WalkView;

    open spec fn view(&self) -> WalkView {
        match self {
            Walk::Done(found) => WalkView::Done(views(found@)),
            Walk::List(d) => WalkView::List(d@),
        }
    }
}

/// What became of a directory, if it was listed.
fn listing<'a>(seen: &'a [DirEntry], path: &str) -> (r: Option<&'a DirEntry>)
    ensures
        match entry_of(views(seen@), path@) {
            Some(names) => r matches Some(e) && e@.1 == names,
            None => r is None,
        },
{
    let ghost all = views(seen@);
    let mut i: usize = 0;
    assert(all.skip(0) =~= all);
    while i < seen.len()
        invariant
            i <= seen.len(),
            all == views(seen@),
            entry_of(all, path@) == entry_of(all.skip(i as int), path@),
        decreases seen.len() - i,
    {
        assert(all.skip(i as int)[0] == seen@[i as int]@);
        assert(all.skip(i as int).skip(1) =~= all.skip(i + 1));
        if str_eq(seen[i].path.as_str(), path) {
            return Some(&seen[i]);
        }
        i += 1;
    }
    None
}

/// Add the names of a listing that match a component.
fn add_matches(out: &mut Vec<String>, dir: &str, names: &[String], pattern: &str)
    ensures
        views(final(out)@) == views(old(out)@) + found_in(dir@, Some(views(names@)), pattern@),
{
    let ghost all = views(names@);
    let ghost keep = matching(pattern@);
    let ghost place = below(dir@);
    let ghost before = views(out@);
    let mut i: usize = 0;
    proof {
        reveal(Seq::filter);
        assert(all.take(0) =~= Seq::<Seq<char>>::empty());
        assert(all.take(0).filter(keep).map_values(place) =~= Seq::<Seq<char>>::empty());
        assert(before + Seq::<Seq<char>>::empty() =~= before);
    }
    while i < names.len()
        invariant
            i <= names.len(),
            all == views(names@),
            keep == matching(pattern@),
            place == below(dir@),
            views(out@) == before + all.take(i as int).filter(keep).map_values(place),
        decreases names.len() - i,
    {
        let ghost sofar = views(out@);
        let ghost part = all.take(i as int);
        proof {
            reveal(Seq::filter);
            assert(all.take(i + 1).drop_last() =~= part);
            assert(all.take(i + 1).last() == names@[i as int]@);
        }
        if glob_segment_matches(pattern, names[i].as_str()) {
            let path = join_path(dir, chars_of(names[i].as_str()).as_slice());
            out.push(path);
            assert(views(out@) =~= sofar.push(path@));
            assert(part.filter(keep).push(names@[i as int]@).map_values(place) =~= part.filter(
                keep,
            ).map_values(place).push(path@));
            assert(views(out@) =~= before + all.take(i + 1).filter(keep).map_values(place));
        }
        i += 1;
    }
    assert(all.take(i as int) =~= all);
}

/// The paths in directories whose names match a component.
fn expand_component(dirs: &[String], pattern: &str, seen: &[DirEntry]) -> (r: Walk)
    ensures
        r@ == matches_in(views(dirs@), pattern@, views(seen@)),
{
    let ghost all = views(dirs@);
    let ghost model = views(seen@);
    let mut out: Vec<String> = Vec::new();
    let mut i: usize = 0;
    assert(all.take(0) =~= Seq::<Seq<char>>::empty());
    assert(views(out@) =~= Seq::<Seq<char>>::empty());
    while i < dirs.len()
        invariant
            i <= dirs.len(),
            all == views(dirs@),
            model == views(seen@),
            matches_in(all.take(i as int), pattern@, model) == WalkView::Done(views(out@)),
        decreases dirs.len() - i,
    {
        let ghost sofar = views(out@);
        proof {
            assert(all.take(i + 1).drop_last() =~= all.take(i as int));
            assert(all.take(i + 1).last() == dirs@[i as int]@);
        }
        let dir = dirs[i].as_str();
        let key: String = if dir.unicode_len() == 0 {
            ".".to_owned()
        } else {
            dir.to_owned()
        };
        match listing(seen, key.as_str()) {
            None => {
                proof {
                    lemma_first_missing_stays(all, i + 1, pattern@, model);
                }
                return Walk::List(key);
            },
            Some(entry) => match &entry.names {
                None => {
                    assert(sofar + Seq::<Seq<char>>::empty() =~= sofar);
                },
                Some(names) => {
                    add_matches(&mut out, dir, names.as_slice(), pattern);
                },
            },
        }
        i += 1;
    }
    assert(all.take(i as int) =~= all);
    Walk::Done(out)
}

/// A listing that is missing for some directories is missing for more.
proof fn lemma_first_missing_stays(
    dirs: Seq<Seq<char>>,
    n: int,
    pattern: Seq<char>,
    seen: Listings,
)
    requires
        0 <= n <= dirs.len(),
        matches_in(dirs.take(n), pattern, seen) is List,
    ensures
        matches_in(dirs, pattern, seen) == matches_in(dirs.take(n), pattern, seen),
    decreases dirs.len() - n,
{
    if n < dirs.len() {
        assert(dirs.take(n + 1).drop_last() =~= dirs.take(n));
        lemma_first_missing_stays(dirs, n + 1, pattern, seen);
    } else {
        assert(dirs.take(n) =~= dirs);
    }
}

/// Append a plain component to every path.
fn append_component(dirs: &[String], component: &str) -> (r: Vec<String>)
    ensures
        views(r@) == views(dirs@).map_values(ending_in(component@)),
{
    let cs = chars_of(component);
    let mut out: Vec<String> = Vec::new();
    let mut i: usize = 0;
    while i < dirs.len()
        invariant
            i <= dirs.len(),
            cs@ == component@,
            out.len() == i,
            forall|k: int|
                0 <= k < i ==> (#[trigger] out@[k])@ == path_in(dirs@[k]@, component@),
        decreases dirs.len() - i,
    {
        out.push(join_path(dirs[i].as_str(), cs.as_slice()));
        i += 1;
    }
    assert(views(out@) =~= views(dirs@).map_values(ending_in(component@)));
    out
}

/// Whether one path does not come after another.
fn in_order(a: &[char], b: &[char]) -> (r: bool)
    ensures
        r == not_after(a@, b@),
{
    let mut i: usize = 0;
    assert(a@.skip(0) =~= a@);
    assert(b@.skip(0) =~= b@);
    while i < a.len() && i < b.len() && a[i] == b[i]
        invariant
            i <= a.len(),
            i <= b.len(),
            not_after(a@, b@) == not_after(a@.skip(i as int), b@.skip(i as int)),
        decreases a.len() - i,
    {
        assert(a@.skip(i as int).skip(1) =~= a@.skip(i + 1));
        assert(b@.skip(i as int).skip(1) =~= b@.skip(i + 1));
        i += 1;
    }
    if i >= a.len() {
        return true;
    }
    if i >= b.len() {
        return false;
    }
    let x: char = a[i];
    let y: char = b[i];
    assert(a@.skip(i as int)[0] == x && b@.skip(i as int)[0] == y);
    if y == '/' {
        false
    } else {
        x == '/' || (x as u32) < (y as u32)
    }
}

/// Put a path where it belongs among others.
fn insert_sorted(sorted: &mut Vec<String>, path: String)
    requires
        sorted_by(views(old(sorted)@), path_order()),
    ensures
        sorted_by(views(final(sorted)@), path_order()),
        views(final(sorted)@).to_multiset() == views(old(sorted)@).to_multiset().insert(path@),
{
    let ghost before = views(sorted@);
    let ghost r = path_order();
    let cs = chars_of(path.as_str());
    let mut i: usize = 0;
    while i < sorted.len() && in_order(chars_of(sorted[i].as_str()).as_slice(), cs.as_slice())
        invariant
            i <= sorted.len(),
            cs@ == path@,
            before == views(sorted@),
            r == path_order(),
            forall|k: int| 0 <= k < i ==> #[trigger] r(before[k], path@),
        decreases sorted.len() - i,
    {
        assert(r(before[i as int], path@));
        i += 1;
    }
    proof {
        lemma_path_order_is_total();
        if i < sorted.len() {
            assert(!r(before[i as int], path@));
            assert(r(path@, before[i as int]));
        }
        assert forall|k: int| i <= k < before.len() implies #[trigger] r(path@, before[k]) by {
            if k > i {
                assert(r(before[i as int], before[k]));
            }
        }
        broadcast use vstd::seq_lib::group_to_multiset_ensures;

        assert(before.insert(i as int, path@).to_multiset() =~= before.to_multiset().insert(
            path@,
        ));
    }
    sorted.insert(i, path);
    assert(views(sorted@) =~= before.insert(i as int, path@));
    proof {
        let after = views(sorted@);
        assert forall|j: int, k: int| 0 <= j < k < after.len() implies #[trigger] r(
            after[j],
            after[k],
        ) by {
            let p = if j < i {
                j
            } else {
                j - 1
            };
            let q = if k < i {
                k
            } else {
                k - 1
            };
            if j != i && k != i {
                assert(r(before[p], before[q]));
            } else if j == i {
                assert(r(path@, before[q]));
            } else {
                assert(r(before[p], path@));
            }
        }
    }
}

/// Paths in order.
fn sort_paths(paths: &[String]) -> (r: Vec<String>)
    ensures
        views(r@) == views(paths@).sort_by(path_order()),
{
    let ghost all = views(paths@);
    let mut out: Vec<String> = Vec::new();
    let mut i: usize = 0;
    proof {
        broadcast use vstd::seq_lib::group_to_multiset_ensures;

        assert(views(out@) =~= all.take(0));
    }
    while i < paths.len()
        invariant
            i <= paths.len(),
            all == views(paths@),
            sorted_by(views(out@), path_order()),
            views(out@).to_multiset() == all.take(i as int).to_multiset(),
        decreases paths.len() - i,
    {
        insert_sorted(&mut out, paths[i].clone());
        proof {
            broadcast use vstd::seq_lib::group_to_multiset_ensures;

            assert(all.take(i + 1) =~= all.take(i as int).push(paths@[i as int]@));
        }
        i += 1;
    }
    proof {
        assert(all.take(i as int) =~= all);
        lemma_path_order_is_total();
        all.lemma_sort_by_ensures(path_order());
        vstd::seq_lib::lemma_sorted_unique(
            views(out@),
            all.sort_by(path_order()),
            path_order(),
        );
    }
    out
}

/// The components of a path.
fn components_of(path: &[char]) -> (r: Vec<String>)
    ensures
        views(r@) == components(path@),
{
    let all = split_pieces(path, '/', false);
    let ghost model = views(all@);
    let ghost keep = not_dot();
    let mut out: Vec<String> = Vec::new();
    let mut i: usize = 0;
    proof {
        reveal(Seq::filter);
        assert(model.take(0) =~= Seq::<Seq<char>>::empty());
        assert(views(out@) =~= Seq::<Seq<char>>::empty());
    }
    while i < all.len()
        invariant
            i <= all.len(),
            model == views(all@),
            keep == not_dot(),
            views(out@) == model.take(i as int).filter(keep),
        decreases all.len() - i,
    {
        let ghost sofar = views(out@);
        proof {
            reveal(Seq::filter);
            assert(model.take(i + 1).drop_last() =~= model.take(i as int));
            assert(model.take(i + 1).last() == all@[i as int]@);
        }
        if !str_eq(all[i].as_str(), ".") {
            out.push(all[i].clone());
            assert(views(out@) =~= sofar.push(all@[i as int]@));
        }
        i += 1;
    }
    assert(model.take(i as int) =~= model);
    out
}

/// Expand a path that may have `*`, `?` and `[abc]` in its components: the
/// files that it matches, in order, or the directory whose listing is missing.
pub fn expand_glob(path: &str, seen: &[DirEntry]) -> (r: Walk)
    ensures
        r@ == glob_matches_of(path@, views(seen@)),
{
    let cs = chars_of(path);
    if cs.len() == 0 {
        let none: Vec<String> = Vec::new();
        assert(views(none@) =~= Seq::<Seq<char>>::empty());
        return Walk::Done(none);
    }
    let parts = components_of(cs.as_slice());
    let ghost all = views(parts@);
    let ghost model = views(seen@);
    let start: String = if cs[0] == '/' {
        "/".to_owned()
    } else {
        String::new()
    };
    assert(start@ =~= origin(path@));
    let mut dirs: Vec<String> = Vec::new();
    dirs.push(start);
    assert(views(dirs@) =~= seq![origin(path@)]);
    let mut i: usize = 0;
    assert(all.skip(0) =~= all);
    while i < parts.len()
        invariant
            i <= parts.len(),
            path@.len() > 0,
            all == components(path@),
            all == views(parts@),
            model == views(seen@),
            walk(all, seq![origin(path@)], model) == walk(
                all.skip(i as int),
                views(dirs@),
                model,
            ),
        decreases parts.len() - i,
    {
        let part = parts[i].as_str();
        assert(all.skip(i as int)[0] == part@);
        assert(all.skip(i as int).skip(1) =~= all.skip(i + 1));
        if contains_glob_meta(part) {
            match expand_component(dirs.as_slice(), part, seen) {
                Walk::List(d) => {
                    return Walk::List(d);
                },
                Walk::Done(next) => {
                    dirs = next;
                },
            }
        } else {
            dirs = append_component(dirs.as_slice(), part);
        }
        i += 1;
    }
    Walk::Done(sort_paths(dirs.as_slice()))
}

} // verus!
