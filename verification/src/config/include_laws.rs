//! What the lines of a file are, and what `Include` puts in their place.

use super::includes::{
    expansion, files_expansion, no_includes, paths_expansion, target, lemma_no_includes_no_change,
    ExpansionView, SnapshotView, SourceFileView,
};
use super::parser::{lines, parse_line, parse_lines, parse_text, ParsedLineView};
use super::pattern::{class_end, is_member, name_bytes_match};
use super::walk::{
    component_matches, components, entry_of, found_in, glob_matches_of, has_glob_meta, not_after,
    path_in, path_order, Listings, WalkView,
};
use super::ConfigErrorView;
use crate::text::{first_index, lemma_first_index, lower, lower_text};
use vstd::prelude::*;

verus! {

/// A letter in lower case is the same letter, and all else is left as it is.
pub proof fn lemma_lower_case(c: char, s: Seq<char>, i: int)
    ensures
        'A' <= c <= 'Z' ==> lower(c) as u32 == c as u32 + 32,
        !('A' <= c <= 'Z') ==> lower(c) == c,
        lower_text(s).len() == s.len(),
        0 <= i < s.len() ==> lower_text(s)[i] == lower(s[i]),
{
}

/// A newline ends a line, with the carriage return before it where there is one,
/// and the next line begins behind it.
pub proof fn lemma_newlines_end_lines(line: Seq<char>, rest: Seq<char>)
    requires
        !line.contains('\n'),
    ensures
        line.len() == 0 || line.last() != '\r' ==> lines(line + seq!['\n'] + rest) == seq![line]
            + lines(rest),
        line.len() > 0 && line.last() == '\r' ==> lines(line + seq!['\n'] + rest) == seq![
            line.drop_last(),
        ] + lines(rest),
        line.len() > 0 ==> lines(line) == seq![line],
        lines(Seq::<char>::empty()).len() == 0,
{
    let s = line + seq!['\n'] + rest;
    lemma_first_index(s, '\n');
    assert(s[line.len() as int] == '\n');
    assert(s.contains('\n'));
    let i = first_index(s, '\n')->0;
    if i < line.len() {
        assert(s[i] == line[i]);
    }
    assert(i == line.len());
    assert(s.take(i) =~= line);
    assert(s.skip(i + 1) =~= rest);
    lemma_first_index(line, '\n');
    if let Some(k) = first_index(line, '\n') {
        assert(line.contains(line[k]));
    }
}

/// Lines are read one after the other, each under its own number, and the first
/// complaint is the one that is made.
pub proof fn lemma_lines_are_read_in_order(a: Seq<Seq<char>>, b: Seq<Seq<char>>, no: nat)
    ensures
        parse_lines(a + b, no) == match parse_lines(a, no) {
            Err(e) => Err::<Seq<ParsedLineView>, ConfigErrorView>(e),
            Ok(first) => match parse_lines(b, no + a.len()) {
                Err(e) => Err(e),
                Ok(second) => Ok(first + second),
            },
        },
    decreases a.len(),
{
    if a.len() == 0 {
        assert(a + b =~= b);
        if let Ok(second) = parse_lines(b, no) {
            assert(Seq::<ParsedLineView>::empty() + second =~= second);
        }
    } else {
        assert((a + b)[0] == a[0]);
        assert((a + b).skip(1) =~= a.skip(1) + b);
        lemma_lines_are_read_in_order(a.skip(1), b, no + 1);
        if let Ok(Some(l)) = parse_line(a[0], no as usize) {
            if let Ok(more) = parse_lines(a.skip(1), no + 1) {
                if let Ok(second) = parse_lines(b, no + a.len()) {
                    assert(seq![l] + (more + second) =~= seq![l] + more + second);
                }
            }
        }
    }
}

/// What a single line says, it says under its number.
pub proof fn lemma_one_line(raw: Seq<char>, no: usize)
    ensures
        match parse_line(raw, no) {
            Err(e) => parse_lines(seq![raw], no as nat) == Err::<
                Seq<ParsedLineView>,
                ConfigErrorView,
            >(e),
            Ok(None) => parse_lines(seq![raw], no as nat) is Ok && parse_lines(
                seq![raw],
                no as nat,
            )->Ok_0.len() == 0,
            Ok(Some(l)) => parse_lines(seq![raw], no as nat) == Ok::<
                Seq<ParsedLineView>,
                ConfigErrorView,
            >(seq![l]) && l.line_no == no,
        },
{
    reveal_with_fuel(parse_lines, 2);
    let ls = seq![raw];
    assert(ls.skip(1) =~= Seq::empty());
    if let Ok(Some(l)) = parse_line(raw, no) {
        assert(seq![l] + Seq::<ParsedLineView>::empty() =~= seq![l]);
    }
}

/// An absolute path is taken as it is; `~` is the home directory, where it is
/// known; and anything else is below the directory of the file that it stands in.
pub proof fn lemma_where_includes_are(
    path: Seq<char>,
    dir: Seq<char>,
    home: Seq<char>,
)
    requires
        dir.len() > 0 && dir[0] == '/' && dir.last() != '/',
        home.len() > 0 && home[0] == '/' && home.last() != '/',
    ensures
        path.len() > 0 && path[0] == '/' ==> target(path, dir, Some(home)) == path && target(
            path,
            dir,
            None,
        ) == path,
        path.len() > 0 && path[0] != '/' && path[0] != '~' ==> target(path, dir, Some(home)) == dir
            + seq!['/'] + path,
        path.len() > 0 && path[0] != '/' ==> target(path, dir, None) == dir + seq!['/'] + path,
        target(seq!['~'], dir, Some(home)) == home,
        path.len() > 0 && path[0] != '/' ==> target(seq!['~', '/'] + path, dir, Some(home)) == home
            + seq!['/'] + path,
{
    reveal_strlit("~");
    reveal_strlit("/");
    assert("/"@ =~= seq!['/']);
    assert("~"@ =~= seq!['~']);
    let p = seq!['~', '/'] + path;
    assert(p.len() >= 2 && p[0] == '~' && p[1] == '/');
    assert(p.skip(2) =~= path);
    if path.len() > 0 {
        assert(p != "~"@) by {
            assert(p.len() > 2);
        }
        if path[0] != '~' {
            assert(path != "~"@) by {
                assert("~"@[0] == '~');
            }
        }
    }
}

/// Lines are expanded in their order: what two parts of a file come to, one
/// behind the other, is what the whole comes to.
pub proof fn lemma_includes_are_replaced_in_place(
    a: Seq<ParsedLineView>,
    b: Seq<ParsedLineView>,
    dir: Seq<char>,
    depth: nat,
    home: Option<Seq<char>>,
    seen: SnapshotView,
)
    ensures
        match expansion(a, dir, depth, home, seen) {
            ExpansionView::Done(first) => match expansion(b, dir, depth, home, seen) {
                ExpansionView::Done(second) => expansion(a + b, dir, depth, home, seen)
                    == ExpansionView::Done(first + second),
                other => expansion(a + b, dir, depth, home, seen) == other,
            },
            other => expansion(a + b, dir, depth, home, seen) == other,
        },
    decreases a.len(),
{
    if a.len() == 0 {
        assert(a + b =~= b);
        if let ExpansionView::Done(second) = expansion(b, dir, depth, home, seen) {
            assert(Seq::<ParsedLineView>::empty() + second =~= second);
        }
    } else {
        let ab = a + b;
        assert(ab[0] == a[0]);
        assert(ab.skip(1) =~= a.skip(1) + b);
        lemma_includes_are_replaced_in_place(a.skip(1), b, dir, depth, home, seen);
        let one = seq![a[0]];
        let whole = expansion(ab, dir, depth, home, seen);
        if let ExpansionView::Done(more) = expansion(a.skip(1), dir, depth, home, seen) {
            if let ExpansionView::Done(second) = expansion(b, dir, depth, home, seen) {
                if let ExpansionView::Done(all) = expansion(a, dir, depth, home, seen) {
                    let head = all.take(all.len() - more.len());
                    assert(all.skip(all.len() - more.len()) =~= more);
                    assert(all =~= head + more);
                    assert(head + (more + second) =~= all + second);
                    lemma_head(a, dir, depth, home, seen, head, more);
                    lemma_head_then(ab, dir, depth, home, seen, a[0], head, more + second);
                }
            }
        }
    }
}

/// What the first line comes to.
spec fn first_of(
    line: ParsedLineView,
    dir: Seq<char>,
    depth: nat,
    home: Option<Seq<char>>,
    seen: SnapshotView,
) -> ExpansionView {
    if line.keyword != "include"@ {
        ExpansionView::Done(seq![line])
    } else if line.args.len() == 0 {
        ExpansionView::Failed(
            ConfigErrorView::BadValue {
                line: line.line_no,
                keyword: "include"@,
                msg: "Include requires at least one path"@,
            },
        )
    } else {
        paths_expansion(line.args, line.line_no, dir, depth, home, seen)
    }
}

proof fn lemma_head(
    a: Seq<ParsedLineView>,
    dir: Seq<char>,
    depth: nat,
    home: Option<Seq<char>>,
    seen: SnapshotView,
    head: Seq<ParsedLineView>,
    more: Seq<ParsedLineView>,
)
    requires
        a.len() > 0,
        expansion(a.skip(1), dir, depth, home, seen) == ExpansionView::Done(more),
        expansion(a, dir, depth, home, seen) == ExpansionView::Done(head + more),
    ensures
        first_of(a[0], dir, depth, home, seen) == ExpansionView::Done(head),
{
    let first = first_of(a[0], dir, depth, home, seen)->Done_0;
    assert(first + more == head + more);
    assert(first.len() == head.len());
    assert(first =~= (first + more).take(first.len() as int));
    assert(head =~= (head + more).take(head.len() as int));
}

proof fn lemma_head_then(
    ab: Seq<ParsedLineView>,
    dir: Seq<char>,
    depth: nat,
    home: Option<Seq<char>>,
    seen: SnapshotView,
    line: ParsedLineView,
    head: Seq<ParsedLineView>,
    rest: Seq<ParsedLineView>,
)
    requires
        ab.len() > 0,
        ab[0] == line,
        first_of(line, dir, depth, home, seen) == ExpansionView::Done(head),
        expansion(ab.skip(1), dir, depth, home, seen) == ExpansionView::Done(rest),
    ensures
        expansion(ab, dir, depth, home, seen) == ExpansionView::Done(head + rest),
{
}

/// A line that is no `Include` stays. An `Include` without a path is an error.
/// One whose paths stand for a single file that was read becomes what that file
/// says; one whose file could not be read becomes nothing.
pub proof fn lemma_one_include(
    line: ParsedLineView,
    dir: Seq<char>,
    depth: nat,
    home: Option<Seq<char>>,
    seen: SnapshotView,
    path: Seq<char>,
    file: SourceFileView,
    said: Seq<ParsedLineView>,
)
    ensures
        line.keyword != "include"@ ==> expansion(seq![line], dir, depth, home, seen)
            == ExpansionView::Done(seq![line]),
        line.keyword == "include"@ && line.args.len() == 0 ==> expansion(
            seq![line],
            dir,
            depth,
            home,
            seen,
        ) is Failed,
        line.keyword == "include"@ && line.args.len() == 1 && glob_matches_of(
            target(line.args[0], dir, home),
            seen.dirs,
        ) == WalkView::Done(seq![path]) ==> ({
            let e = expansion(seq![line], dir, depth, home, seen);
            &&& depth < 16 && entry_of(seen.files, path) == Some(Some(file)) && parse_text(file.text)
                == Ok::<Seq<ParsedLineView>, ConfigErrorView>(said) && no_includes(said) ==> e
                == ExpansionView::Done(said)
            &&& depth < 16 && entry_of(seen.files, path) == Some(None::<SourceFileView>) ==> e
                == ExpansionView::Done(Seq::<ParsedLineView>::empty())
            &&& depth < 16 && entry_of(seen.files, path) is None ==> e == ExpansionView::Read(path)
            &&& depth >= 16 ==> e is Failed
        }),
{
    let ls = seq![line];
    assert(ls.skip(1) =~= Seq::empty());
    assert(expansion(ls.skip(1), dir, depth, home, seen) == ExpansionView::Done(
        Seq::<ParsedLineView>::empty(),
    ));
    assert(seq![line] + Seq::<ParsedLineView>::empty() =~= seq![line]);
    assert(Seq::<ParsedLineView>::empty() + Seq::<ParsedLineView>::empty() =~= Seq::empty());
    assert(said + Seq::<ParsedLineView>::empty() =~= said);
    if no_includes(said) {
        lemma_no_includes_no_change(said, file.dir, depth + 1, home, seen);
    }
    if line.keyword == "include"@ && line.args.len() == 1 {
        let paths = line.args;
        assert(paths.skip(1) =~= Seq::empty());
        assert(paths_expansion(paths.skip(1), line.line_no, dir, depth, home, seen)
            == ExpansionView::Done(Seq::<ParsedLineView>::empty()));
        let files = seq![path];
        assert(files.skip(1) =~= Seq::empty());
        assert(files_expansion(files.skip(1), line.line_no, depth, home, seen)
            == ExpansionView::Done(Seq::<ParsedLineView>::empty()));
        if glob_matches_of(target(paths[0], dir, home), seen.dirs) == WalkView::Done(files) {
            let f = files_expansion(files, line.line_no, depth, home, seen);
            let p = paths_expansion(paths, line.line_no, dir, depth, home, seen);
            if depth < 16 && entry_of(seen.files, path) == Some(None::<SourceFileView>) {
                assert(f == ExpansionView::Done(Seq::<ParsedLineView>::empty()));
            }
            if depth < 16 && entry_of(seen.files, path) == Some(Some(file)) && parse_text(file.text)
                == Ok::<Seq<ParsedLineView>, ConfigErrorView>(said) && no_includes(said) {
                assert(f == ExpansionView::Done(said));
                assert(p == ExpansionView::Done(said));
            }
            if depth >= 16 {
                assert(f is Failed);
            }
        }
    }
}

/// The paths of an `Include` are taken in their order, and so are the files that
/// one of them stands for.
pub proof fn lemma_paths_are_taken_in_order(
    first: Seq<char>,
    more: Seq<Seq<char>>,
    line_no: usize,
    dir: Seq<char>,
    depth: nat,
    home: Option<Seq<char>>,
    seen: SnapshotView,
    a: Seq<ParsedLineView>,
    b: Seq<ParsedLineView>,
)
    ensures
        paths_expansion(seq![first], line_no, dir, depth, home, seen) == ExpansionView::Done(a)
            && paths_expansion(more, line_no, dir, depth, home, seen) == ExpansionView::Done(b)
            ==> paths_expansion(seq![first] + more, line_no, dir, depth, home, seen)
            == ExpansionView::Done(a + b),
        files_expansion(seq![first], line_no, depth, home, seen) == ExpansionView::Done(a)
            && files_expansion(more, line_no, depth, home, seen) == ExpansionView::Done(b)
            ==> files_expansion(seq![first] + more, line_no, depth, home, seen)
            == ExpansionView::Done(a + b),
{
    let one = seq![first];
    let all = one + more;
    assert(one.skip(1) =~= Seq::empty());
    assert(all.skip(1) =~= more);
    assert(all[0] == first);
    assert(paths_expansion(one.skip(1), line_no, dir, depth, home, seen) == ExpansionView::Done(
        Seq::<ParsedLineView>::empty(),
    ));
    assert(files_expansion(one.skip(1), line_no, depth, home, seen) == ExpansionView::Done(
        Seq::<ParsedLineView>::empty(),
    ));
    assert forall|x: Seq<ParsedLineView>| #[trigger]
        (x + Seq::<ParsedLineView>::empty()) == x by {
        assert(x + Seq::<ParsedLineView>::empty() =~= x);
    }
}

/// How names are put in order: by their first difference, where a path that goes
/// on comes behind one that ends, and `/` before any other character.
pub proof fn lemma_order_of_paths(
    same: Seq<char>,
    c: char,
    d: char,
    a: Seq<char>,
    b: Seq<char>,
)
    requires
        c != d,
    ensures
        not_after(same, same + a),
        a.len() > 0 ==> !not_after(same + a, same),
        not_after(same + seq![c] + a, same + seq![d] + b) <==> c == '/' || (d != '/' && (c as u32)
            < (d as u32)),
    decreases same.len(),
{
    let x = same + seq![c] + a;
    let y = same + seq![d] + b;
    if same.len() == 0 {
        assert(x[0] == c && y[0] == d);
        assert(same + a =~= a);
    } else {
        let rest = same.skip(1);
        lemma_order_of_paths(rest, c, d, a, b);
        assert(x.skip(1) =~= rest + seq![c] + a);
        assert(y.skip(1) =~= rest + seq![d] + b);
        assert((same + a).skip(1) =~= rest + a);
        assert(x[0] == same[0] && y[0] == same[0] && (same + a)[0] == same[0]);
    }
}

/// A pattern in the last part of an absolute path stands for the files of that
/// directory whose names it matches, and no others, in order.
pub proof fn lemma_patterns_stand_for_matching_files(
    path: Seq<char>,
    dir: Seq<char>,
    pattern: Seq<char>,
    names: Seq<Seq<char>>,
    seen: Listings,
    file: Seq<char>,
)
    requires
        path.len() > 0 && path[0] == '/',
        components(path) == seq![dir, pattern],
        dir.len() > 0 && dir[0] != '/' && dir.last() != '/',
        !has_glob_meta(dir),
        has_glob_meta(pattern),
        entry_of(seen, seq!['/'] + dir) == Some(Some(names)),
        forall|i: int| 0 <= i < names.len() ==> (#[trigger] names[i]).len() > 0 && names[i][0] != '/',
    ensures
        glob_matches_of(path, seen) matches WalkView::Done(found) ==> {
            &&& found.contains(file) <==> exists|i: int|
                0 <= i < names.len() && component_matches(pattern, #[trigger] names[i]) && file
                    == seq!['/'] + dir + seq!['/'] + names[i]
            &&& forall|i: int, j: int|
                0 <= i < j < found.len() ==> not_after(#[trigger] found[i], #[trigger] found[j])
        },
        glob_matches_of(path, seen) is Done,
{
    reveal_strlit("/");
    reveal_strlit(".");
    assert("/"@ =~= seq!['/']);
    let root = seq!["/"@];
    let below = seq!['/'] + dir;
    reveal_with_fuel(super::walk::walk, 3);
    reveal_with_fuel(super::walk::matches_in, 2);
    let parts = components(path);
    let dirs = root.map_values(super::walk::ending_in(dir));
    assert(path_in("/"@, dir) == below) by {
        assert("/"@.last() == '/');
    }
    assert(dirs =~= seq![below]);
    assert(super::walk::step(root, dir, seen) == WalkView::Done(dirs));
    assert(parts.skip(1) =~= seq![pattern]);
    assert(parts.skip(1).skip(1) =~= Seq::empty());
    assert(dirs.drop_last() =~= Seq::empty());
    let hits = found_in(below, Some(names), pattern);
    assert(super::walk::matches_in(dirs, pattern, seen) == WalkView::Done(
        Seq::<Seq<char>>::empty() + hits,
    ));
    assert(Seq::<Seq<char>>::empty() + hits =~= hits);
    assert(super::walk::walk(parts, root, seen) == WalkView::Done(hits));
    let found = hits.sort_by(path_order());
    assert(glob_matches_of(path, seen) == WalkView::Done(found));
    super::walk::lemma_path_order_is_total();
    hits.lemma_sort_by_ensures(path_order());
    lemma_same_members(hits, found, file);
    assert forall|i: int, j: int| 0 <= i < j < found.len() implies not_after(
        #[trigger] found[i],
        #[trigger] found[j],
    ) by {
        assert(path_order()(found[i], found[j]));
    }
    let keep = super::walk::matching(pattern);
    let kept = names.filter(keep);
    if hits.contains(file) {
        let k = choose|k: int| 0 <= k < hits.len() && hits[k] == file;
        names.lemma_filter_pred(keep, k);
        assert(kept.contains(kept[k]));
        names.lemma_filter_contains_rev(keep, kept[k]);
        let i = choose|i: int| 0 <= i < names.len() && names[i] == kept[k];
        assert(component_matches(pattern, names[i]));
        assert(file == path_in(below, names[i]));
        assert(file =~= seq!['/'] + dir + seq!['/'] + names[i]);
    }
    if exists|i: int|
        0 <= i < names.len() && component_matches(pattern, #[trigger] names[i]) && file == seq!['/']
            + dir + seq!['/'] + names[i] {
        let i = choose|i: int|
            0 <= i < names.len() && component_matches(pattern, #[trigger] names[i]) && file
                == seq!['/'] + dir + seq!['/'] + names[i];
        assert(keep(names[i]));
        names.lemma_filter_contains(keep, i);
        let k = choose|k: int| 0 <= k < kept.len() && kept[k] == names[i];
        assert(hits[k] == path_in(below, names[i]));
        assert(hits[k] =~= file);
    }
}

proof fn lemma_same_members(a: Seq<Seq<char>>, b: Seq<Seq<char>>, x: Seq<char>)
    requires
        a.to_multiset() == b.to_multiset(),
    ensures
        a.contains(x) <==> b.contains(x),
{
    broadcast use vstd::seq_lib::group_to_multiset_ensures;

    assert(a.contains(x) <==> a.to_multiset().count(x) > 0);
    assert(b.contains(x) <==> b.to_multiset().count(x) > 0);
}

/// A class in brackets stands for one byte out of those that it lists, singly or
/// as a range, and for one byte out of all others where `!` stands first. A part
/// of a path that begins with `!` matches nothing.
pub proof fn lemma_classes_stand_for_one_byte(
    members: Seq<u8>,
    rest: Seq<u8>,
    n: Seq<u8>,
    lo: u8,
    hi: u8,
    b: u8,
    name: Seq<char>,
    pattern: Seq<char>,
)
    requires
        members.len() > 0,
        members[0] != 33 && members[0] != 94,
        !members.contains(93u8),
    ensures
        name_bytes_match(seq![91u8] + members + seq![93u8] + rest, n) <==> n.len() > 0 && is_member(
            members,
            n[0],
        ) && name_bytes_match(rest, n.skip(1)),
        is_member(seq![b], lo) <==> lo == b,
        is_member(seq![lo, 45u8, hi], b) <==> lo <= b <= hi,
        !component_matches(seq!['!'] + pattern, name),
{
    let p = seq![91u8] + members + seq![93u8] + rest;
    let end = members.len() as int + 1;
    lemma_closing_at(p, 2, end);
    assert(class_end(p) == Some(end));
    assert(p.subrange(1, end) =~= members);
    assert(p.skip(end + 1) =~= rest);
    reveal_with_fuel(is_member, 3);
    let range = seq![lo, 45u8, hi];
    assert(range.skip(3) =~= Seq::empty());
    assert(seq![b].skip(1) =~= Seq::empty());
    assert((seq!['!'] + pattern)[0] == '!');
}

proof fn lemma_closing_at(p: Seq<u8>, from: int, end: int)
    requires
        0 <= from <= end < p.len(),
        p[end] == 93,
        forall|i: int| from <= i < end ==> p[i] != 93,
    ensures
        super::pattern::closing(p, from) == Some(end),
    decreases end - from,
{
    if from < end {
        lemma_closing_at(p, from + 1, end);
    }
}

} // verus!
