//! The `Include` directive.
//!
//! `Include` pulls other files into the stream of lines at the point where it
//! stands. It takes one or more paths, `~` stands for the home directory, and
//! `*`, `?` and `[abc]` are expanded against the file system. A relative path is
//! looked up in the directory of the file that it stands in.
//!
//! A file that cannot be read is skipped, one that cannot be parsed is an
//! error, and includes nest at most [`MAX_INCLUDE_DEPTH`] deep.
//!
//! Nothing here touches the file system. Expansion works on what was read of it
//! so far, a [`Snapshot`], and says what to look up next.

use super::parser::{parse_text, tokenize, ParsedLine, ParsedLineView};
use super::walk::{
    entry_of, expand_glob, glob_matches_of, join_path, path_in, DirEntry, Listings, Walk, WalkView,
};
use super::{bad_value, ConfigError, ConfigErrorView};
use crate::text::{chars_of, clone_strings, concat, opt_view, str_eq, views};
use vstd::prelude::*;

verus! {

/// How deep includes may nest.
pub const MAX_INCLUDE_DEPTH: usize = 16;

/// A file that was read: its text, and the directory that it lies in.
#[derive(Debug, Clone, PartialEq, Eq)]
pub struct SourceFile {
    /// The contents.
    pub text: String,
    /// The directory.
    pub dir: String,
}

/// What a [`SourceFile`] says.
#[verifier::ext_equal]
pub ghost struct SourceFileView {
    pub text: Seq<char>,
    pub dir: Seq<char>,
}

impl View for SourceFile {
    type V = SourceFileView;

    open spec fn view(&self) -> SourceFileView {
        SourceFileView { text: self.text@, dir: self.dir@ }
    }
}

/// What became of a path: the file there, or nothing where it could not be
/// read.
#[derive(Debug, Clone, PartialEq, Eq)]
pub struct FileEntry {
    /// The path.
    pub path: String,
    /// The file.
    pub file: Option<SourceFile>,
}

/// What was read of the file system so far.
#[derive(Debug, Clone, PartialEq, Eq)]
pub struct Snapshot {
    /// Directories that were listed.
    pub dirs: Vec<DirEntry>,
    /// Files that were read.
    pub files: Vec<FileEntry>,
}

/// What a [`Snapshot`] says.
#[verifier::ext_equal]
pub ghost struct SnapshotView {
    pub dirs: Listings,
    pub files: Seq<(Seq<char>, Option<SourceFileView>)>,
}

impl View for FileEntry {
    type V = (Seq<char>, Option<SourceFileView>);

    open spec fn view(&self) -> (Seq<char>, Option<SourceFileView>) {
        (self.path@, opt_view(self.file))
    }
}

impl View for Snapshot {
    type V = SnapshotView;

    open spec fn view(&self) -> SnapshotView {
        SnapshotView { dirs: views(self.dirs@), files: views(self.files@) }
    }
}

/// How far an expansion gets.
#[verifier::ext_equal]
pub ghost enum ExpansionView {
    Done(Seq<ParsedLineView>),
    Failed(ConfigErrorView),
    List(Seq<char>),
    Read(Seq<char>),
}

impl ExpansionView {
    /// This, and then `next`: its lines follow, unless this already stopped.
    pub open spec fn and(self, next: ExpansionView) -> ExpansionView {
        match self {
            ExpansionView::Done(first) => match next {
                ExpansionView::Done(rest) => ExpansionView::Done(first + rest),
                _ => next,
            },
            _ => self,
        }
    }
}

/// A path with `~` at its front replaced by the home directory, if that is
/// known.
pub open spec fn without_tilde(path: Seq<char>, home: Option<Seq<char>>) -> Seq<char> {
    match home {
        None => path,
        Some(h) => if path == "~"@ {
            h
        } else if path.len() >= 2 && path[0] == '~' && path[1] == '/' {
            path_in(h, path.skip(2))
        } else {
            path
        },
    }
}

/// Where an `Include` argument points.
pub open spec fn target(path: Seq<char>, dir: Seq<char>, home: Option<Seq<char>>) -> Seq<char> {
    path_in(dir, without_tilde(path, home))
}

/// Lines with every `Include` among them replaced by the lines of its files.
pub open spec fn expansion(
    lines: Seq<ParsedLineView>,
    dir: Seq<char>,
    depth: nat,
    home: Option<Seq<char>>,
    seen: SnapshotView,
) -> ExpansionView
    decreases 17 - depth, 2int, lines.len(),
{
    if lines.len() == 0 {
        ExpansionView::Done(Seq::empty())
    } else {
        let line = lines[0];
        let head = if line.keyword != "include"@ {
            ExpansionView::Done(seq![line])
        } else if line.args.len() == 0 {
            ExpansionView::Failed(
                ConfigErrorView::BadValue {
                    line: line.line_no,
                    keyword: "include"@,
                    msg: "Include requires at least one path"@,
                },
            )
        } else {
            paths_expansion(line.args, line.line_no, dir, depth, home, seen)
        };
        head.and(expansion(lines.skip(1), dir, depth, home, seen))
    }
}

/// The lines of the files that `Include` arguments name.
pub open spec fn paths_expansion(
    paths: Seq<Seq<char>>,
    line_no: usize,
    dir: Seq<char>,
    depth: nat,
    home: Option<Seq<char>>,
    seen: SnapshotView,
) -> ExpansionView
    decreases 17 - depth, 1int, paths.len(),
{
    if paths.len() == 0 {
        ExpansionView::Done(Seq::empty())
    } else {
        let pattern = target(paths[0], dir, home);
        let head = match glob_matches_of(pattern, seen.dirs) {
            WalkView::List(dir) => ExpansionView::List(dir),
            WalkView::Done(files) => files_expansion(files, line_no, depth, home, seen),
        };
        head.and(paths_expansion(paths.skip(1), line_no, dir, depth, home, seen))
    }
}

/// The lines of files, their own includes expanded.
pub open spec fn files_expansion(
    files: Seq<Seq<char>>,
    line_no: usize,
    depth: nat,
    home: Option<Seq<char>>,
    seen: SnapshotView,
) -> ExpansionView
    decreases 17 - depth, 0int, files.len(),
{
    if files.len() == 0 {
        ExpansionView::Done(Seq::empty())
    } else {
        let head = if depth + 1 > 16 {
            ExpansionView::Failed(
                ConfigErrorView::Syntax { line: line_no, msg: "Include: max depth exceeded"@ },
            )
        } else {
            match entry_of(seen.files, files[0]) {
                None => ExpansionView::Read(files[0]),
                Some(None) => ExpansionView::Done(Seq::empty()),
                Some(Some(file)) => match parse_text(file.text) {
                    Err(e) => ExpansionView::Failed(e),
                    Ok(lines) => expansion(lines, file.dir, depth + 1, home, seen),
                },
            }
        };
        head.and(files_expansion(files.skip(1), line_no, depth, home, seen))
    }
}

/// How far an expansion got.
#[derive(Debug, Clone)]
pub enum Expansion {
    /// The lines, with no `Include` left among them.
    Done(Vec<ParsedLine>),
    /// An error.
    Failed(ConfigError),
    /// List this directory, add the names in it to the snapshot, and expand
    /// again.
    List(String),
    /// Read this file, add it to the snapshot, and expand again.
    Read(String),
}

impl View for Expansion {
    type V = ExpansionView;

    open spec fn view(&self) -> ExpansionView {
        match self {
            Expansion::Done(lines) => ExpansionView::Done(views(lines@)),
            Expansion::Failed(e) => ExpansionView::Failed(e@),
            Expansion::List(p) => ExpansionView::List(p@),
            Expansion::Read(p) => ExpansionView::Read(p@),
        }
    }
}

/// Replace `~` at the front of a path by the home directory. Other forms, such
/// as `~user/file`, are left as they are.
pub fn expand_tilde(path: &str, home: Option<&str>) -> (r: String)
    ensures
        r@ == without_tilde(path@, opt_view(home)),
{
    match home {
        None => path.to_owned(),
        Some(h) => {
            if str_eq(path, "~") {
                return h.to_owned();
            }
            let cs = chars_of(path);
            if cs.len() >= 2 && cs[0] == '~' && cs[1] == '/' {
                let rest = vstd::slice::slice_subrange(cs.as_slice(), 2, cs.len());
                assert(rest@ =~= path@.skip(2));
                return join_path(h, rest);
            }
            path.to_owned()
        },
    }
}

/// Root a relative path at a directory; an absolute path is left as it is.
pub fn resolve_relative(path: &str, base_dir: &str) -> (r: String)
    ensures
        r@ == path_in(base_dir@, path@),
{
    join_path(base_dir, chars_of(path).as_slice())
}

impl Snapshot {
    /// Nothing read yet.
    pub fn new() -> (r: Snapshot)
        ensures
            r@ == (SnapshotView { dirs: Seq::empty(), files: Seq::empty() }),
    {
        let r = Snapshot { dirs: Vec::new(), files: Vec::new() };
        assert(views(r.dirs@) =~= Seq::<(Seq<char>, Option<Seq<Seq<char>>>)>::empty());
        assert(views(r.files@) =~= Seq::<(Seq<char>, Option<SourceFileView>)>::empty());
        r
    }

    /// What became of a path, if it was read.
    fn file(&self, path: &str) -> (r: Option<&FileEntry>)
        ensures
            match entry_of(self@.files, path@) {
                Some(f) => r matches Some(e) && e@.1 == f,
                None => r is None,
            },
    {
        let mut i: usize = 0;
        assert(self@.files.skip(0) =~= self@.files);
        while i < self.files.len()
            invariant
                i <= self.files.len(),
                entry_of(self@.files, path@) == entry_of(self@.files.skip(i as int), path@),
            decreases self.files.len() - i,
        {
            assert(self@.files.skip(i as int)[0] == self.files@[i as int]@);
            assert(self@.files.skip(i as int).skip(1) =~= self@.files.skip(i + 1));
            if str_eq(self.files[i].path.as_str(), path) {
                return Some(&self.files[i]);
            }
            i += 1;
        }
        None
    }
}

fn copy_line(line: &ParsedLine) -> (r: ParsedLine)
    ensures
        r@ == line@,
{
    ParsedLine {
        line_no: line.line_no,
        keyword: line.keyword.clone(),
        args: clone_strings(line.args.as_slice()),
    }
}

/// Add lines to others.
fn append_lines(out: &mut Vec<ParsedLine>, more: Vec<ParsedLine>)
    ensures
        views(final(out)@) == views(old(out)@) + views(more@),
{
    let mut rest = more;
    out.append(&mut rest);
    assert(views(out@) =~= views(old(out)@) + views(more@));
}

/// Doing nothing first changes nothing.
proof fn lemma_and_nothing(next: ExpansionView)
    ensures
        ExpansionView::Done(Seq::empty()).and(next) == next,
{
    if let ExpansionView::Done(rest) = next {
        assert(Seq::<ParsedLineView>::empty() + rest =~= rest);
    }
}

/// Two steps in a row are one.
proof fn lemma_and_is_associative(a: ExpansionView, b: ExpansionView, c: ExpansionView)
    ensures
        a.and(b).and(c) == a.and(b.and(c)),
{
    if let ExpansionView::Done(x) = a {
        if let ExpansionView::Done(y) = b {
            if let ExpansionView::Done(z) = c {
                assert(x + y + z =~= x + (y + z));
            }
        }
    }
}

/// Replace every `Include` line by the lines of the files that it names, as
/// far as the snapshot goes. `depth` is how deep the lines are nested already.
pub fn expand_includes(
    lines: Vec<ParsedLine>,
    base_dir: &str,
    depth: usize,
    home: Option<&str>,
    seen: &Snapshot,
) -> (r: Expansion)
    ensures
        r@ == expansion(views(lines@), base_dir@, depth as nat, opt_view(home), seen@),
    decreases 17 - depth, 2int, 0int,
{
    let ghost h = opt_view(home);
    let ghost all = views(lines@);
    let mut out: Vec<ParsedLine> = Vec::new();
    let mut i: usize = 0;
    assert(all.skip(0) =~= all);
    assert(views(out@) =~= Seq::<ParsedLineView>::empty());
    proof {
        lemma_and_nothing(expansion(all, base_dir@, depth as nat, h, seen@));
    }
    while i < lines.len()
        invariant
            i <= lines.len(),
            all == views(lines@),
            h == opt_view(home),
            expansion(all, base_dir@, depth as nat, h, seen@) == ExpansionView::Done(
                views(out@),
            ).and(expansion(all.skip(i as int), base_dir@, depth as nat, h, seen@)),
        decreases lines.len() - i,
    {
        let line = &lines[i];
        let ghost rest = all.skip(i as int);
        let ghost before = views(out@);
        assert(rest[0] == line@);
        assert(rest.skip(1) =~= all.skip(i + 1));
        if !str_eq(line.keyword.as_str(), "include") {
            out.push(copy_line(line));
            assert(views(out@) =~= before + seq![line@]);
            proof {
                lemma_and_is_associative(
                    ExpansionView::Done(before),
                    ExpansionView::Done(seq![line@]),
                    expansion(rest.skip(1), base_dir@, depth as nat, h, seen@),
                );
            }
        } else {
            if line.args.len() == 0 {
                return Expansion::Failed(
                    bad_value(
                        line.line_no,
                        "include",
                        "Include requires at least one path".to_owned(),
                    ),
                );
            }
            match expand_paths(line.args.as_slice(), line.line_no, base_dir, depth, home, seen) {
                Expansion::Done(more) => {
                    let ghost added = views(more@);
                    append_lines(&mut out, more);
                    proof {
                        lemma_and_is_associative(
                            ExpansionView::Done(before),
                            ExpansionView::Done(added),
                            expansion(rest.skip(1), base_dir@, depth as nat, h, seen@),
                        );
                    }
                },
                other => {
                    return other;
                },
            }
        }
        i += 1;
    }
    assert(all.skip(i as int) =~= Seq::<ParsedLineView>::empty());
    assert(views(out@) + Seq::<ParsedLineView>::empty() =~= views(out@));
    Expansion::Done(out)
}

fn expand_paths(
    paths: &[String],
    line_no: usize,
    base_dir: &str,
    depth: usize,
    home: Option<&str>,
    seen: &Snapshot,
) -> (r: Expansion)
    ensures
        r@ == paths_expansion(
            views(paths@),
            line_no,
            base_dir@,
            depth as nat,
            opt_view(home),
            seen@,
        ),
    decreases 17 - depth, 1int, 0int,
{
    let ghost h = opt_view(home);
    let ghost all = views(paths@);
    let mut out: Vec<ParsedLine> = Vec::new();
    let mut i: usize = 0;
    assert(all.skip(0) =~= all);
    assert(views(out@) =~= Seq::<ParsedLineView>::empty());
    proof {
        lemma_and_nothing(paths_expansion(all, line_no, base_dir@, depth as nat, h, seen@));
    }
    while i < paths.len()
        invariant
            i <= paths.len(),
            all == views(paths@),
            h == opt_view(home),
            paths_expansion(all, line_no, base_dir@, depth as nat, h, seen@)
                == ExpansionView::Done(views(out@)).and(
                paths_expansion(all.skip(i as int), line_no, base_dir@, depth as nat, h, seen@),
            ),
        decreases paths.len() - i,
    {
        let ghost rest = all.skip(i as int);
        let ghost before = views(out@);
        let ghost following = paths_expansion(
            rest.skip(1),
            line_no,
            base_dir@,
            depth as nat,
            h,
            seen@,
        );
        assert(rest[0] == paths@[i as int]@);
        assert(rest.skip(1) =~= all.skip(i + 1));
        let expanded = expand_tilde(paths[i].as_str(), home);
        let pattern = resolve_relative(expanded.as_str(), base_dir);
        match expand_glob(pattern.as_str(), seen.dirs.as_slice()) {
            Walk::List(dir) => {
                return Expansion::List(dir);
            },
            Walk::Done(files) => {
                match expand_files(files.as_slice(), line_no, depth, home, seen) {
                    Expansion::Done(more) => {
                        let ghost added = views(more@);
                        append_lines(&mut out, more);
                        proof {
                            lemma_and_is_associative(
                                ExpansionView::Done(before),
                                ExpansionView::Done(added),
                                following,
                            );
                        }
                    },
                    other => {
                        return other;
                    },
                }
            },
        }
        i += 1;
    }
    assert(all.skip(i as int) =~= Seq::<Seq<char>>::empty());
    assert(views(out@) + Seq::<ParsedLineView>::empty() =~= views(out@));
    Expansion::Done(out)
}

fn expand_files(
    files: &[String],
    line_no: usize,
    depth: usize,
    home: Option<&str>,
    seen: &Snapshot,
) -> (r: Expansion)
    ensures
        r@ == files_expansion(
            views(files@),
            line_no,
            depth as nat,
            opt_view(home),
            seen@,
        ),
    decreases 17 - depth, 0int, 0int,
{
    let ghost h = opt_view(home);
    let ghost all = views(files@);
    let mut out: Vec<ParsedLine> = Vec::new();
    let mut i: usize = 0;
    assert(all.skip(0) =~= all);
    assert(views(out@) =~= Seq::<ParsedLineView>::empty());
    proof {
        lemma_and_nothing(files_expansion(all, line_no, depth as nat, h, seen@));
    }
    while i < files.len()
        invariant
            i <= files.len(),
            all == views(files@),
            h == opt_view(home),
            files_expansion(all, line_no, depth as nat, h, seen@) == ExpansionView::Done(
                views(out@),
            ).and(files_expansion(all.skip(i as int), line_no, depth as nat, h, seen@)),
        decreases files.len() - i,
    {
        let ghost rest = all.skip(i as int);
        let ghost before = views(out@);
        let ghost following = files_expansion(rest.skip(1), line_no, depth as nat, h, seen@);
        assert(rest[0] == files@[i as int]@);
        assert(rest.skip(1) =~= all.skip(i + 1));
        if depth >= MAX_INCLUDE_DEPTH {
            return Expansion::Failed(
                ConfigError::Syntax {
                    line: line_no,
                    msg: "Include: max depth exceeded".to_owned(),
                },
            );
        }
        match seen.file(files[i].as_str()) {
            None => {
                return Expansion::Read(files[i].clone());
            },
            Some(entry) => match &entry.file {
                None => {
                    proof {
                        lemma_and_nothing(following);
                    }
                },
                Some(file) => {
                    let lines = match tokenize(file.text.as_str()) {
                        Ok(lines) => lines,
                        Err(e) => {
                            return Expansion::Failed(e);
                        },
                    };
                    match expand_includes(lines, file.dir.as_str(), depth + 1, home, seen) {
                        Expansion::Done(more) => {
                            let ghost added = views(more@);
                            append_lines(&mut out, more);
                            proof {
                                lemma_and_is_associative(
                                    ExpansionView::Done(before),
                                    ExpansionView::Done(added),
                                    following,
                                );
                            }
                        },
                        other => {
                            return other;
                        },
                    }
                },
            },
        }
        i += 1;
    }
    assert(all.skip(i as int) =~= Seq::<Seq<char>>::empty());
    assert(views(out@) + Seq::<ParsedLineView>::empty() =~= views(out@));
    Expansion::Done(out)
}

/// The lines of the file that everything starts from, its includes expanded.
/// Unlike an included file, this one has to be there: `source` is the file, or
/// why it could not be read.
pub open spec fn file_expansion(
    path: Seq<char>,
    source: Result<SourceFileView, Seq<char>>,
    depth: nat,
    home: Option<Seq<char>>,
    seen: SnapshotView,
) -> ExpansionView {
    if depth > MAX_INCLUDE_DEPTH {
        ExpansionView::Failed(
            ConfigErrorView::Syntax { line: 0, msg: "Include: max depth exceeded"@ },
        )
    } else {
        match source {
            Err(reason) => ExpansionView::Failed(
                ConfigErrorView::Syntax {
                    line: 0,
                    msg: "Include: cannot read "@ + path + ": "@ + reason,
                },
            ),
            Ok(file) => match parse_text(file.text) {
                Err(e) => ExpansionView::Failed(e),
                Ok(lines) => expansion(lines, file.dir, depth, home, seen),
            },
        }
    }
}

/// Tokenize a file and replace every `Include` line in it by the lines of the
/// files that it names, as far as the snapshot goes.
pub fn tokenize_file_with_includes(
    path: &str,
    source: Result<&SourceFile, &str>,
    depth: usize,
    home: Option<&str>,
    seen: &Snapshot,
) -> (r: Expansion)
    ensures
        r@ == file_expansion(
            path@,
            match source {
                Ok(file) => Ok(file@),
                Err(reason) => Err(reason@),
            },
            depth as nat,
            opt_view(home),
            seen@,
        ),
{
    if depth > MAX_INCLUDE_DEPTH {
        return Expansion::Failed(
            ConfigError::Syntax { line: 0, msg: "Include: max depth exceeded".to_owned() },
        );
    }
    match source {
        Err(reason) => {
            let msg = concat(
                concat(concat("Include: cannot read ", path).as_str(), ": ").as_str(),
                reason,
            );
            Expansion::Failed(ConfigError::Syntax { line: 0, msg })
        },
        Ok(file) => match tokenize(file.text.as_str()) {
            Err(e) => Expansion::Failed(e),
            Ok(lines) => expand_includes(lines, file.dir.as_str(), depth, home, seen),
        },
    }
}

/// Whether no line is an `Include`.
pub open spec fn no_includes(lines: Seq<ParsedLineView>) -> bool {
    forall|i: int| 0 <= i < lines.len() ==> (#[trigger] lines[i]).keyword != "include"@
}

/// Lines without an `Include` among them are left as they are, whatever the
/// file system holds.
pub proof fn lemma_no_includes_no_change(
    lines: Seq<ParsedLineView>,
    dir: Seq<char>,
    depth: nat,
    home: Option<Seq<char>>,
    seen: SnapshotView,
)
    requires
        no_includes(lines),
    ensures
        expansion(lines, dir, depth, home, seen) == ExpansionView::Done(lines),
    decreases lines.len(),
{
    if lines.len() > 0 {
        let rest = lines.skip(1);
        assert forall|i: int| 0 <= i < rest.len() implies (#[trigger] rest[i]).keyword
            != "include"@ by {
            assert(rest[i] == lines[i + 1]);
        }
        lemma_no_includes_no_change(rest, dir, depth, home, seen);
        assert(seq![lines[0]] + rest =~= lines);
    } else {
        assert(lines =~= Seq::<ParsedLineView>::empty());
    }
}

/// A finished expansion has no `Include` left, however deep they were nested.
pub proof fn lemma_expansion_leaves_no_includes(
    lines: Seq<ParsedLineView>,
    dir: Seq<char>,
    depth: nat,
    home: Option<Seq<char>>,
    seen: SnapshotView,
)
    ensures
        expansion(lines, dir, depth, home, seen) matches ExpansionView::Done(out) ==> no_includes(
            out,
        ),
    decreases 17 - depth, 2int, lines.len(),
{
    if lines.len() > 0 {
        lemma_expansion_leaves_no_includes(lines.skip(1), dir, depth, home, seen);
        let line = lines[0];
        if line.keyword == "include"@ {
            lemma_paths_leave_no_includes(line.args, line.line_no, dir, depth, home, seen);
        }
    }
}

proof fn lemma_paths_leave_no_includes(
    paths: Seq<Seq<char>>,
    line_no: usize,
    dir: Seq<char>,
    depth: nat,
    home: Option<Seq<char>>,
    seen: SnapshotView,
)
    ensures
        paths_expansion(paths, line_no, dir, depth, home, seen) matches ExpansionView::Done(out)
            ==> no_includes(out),
    decreases 17 - depth, 1int, paths.len(),
{
    if paths.len() > 0 {
        lemma_paths_leave_no_includes(paths.skip(1), line_no, dir, depth, home, seen);
        let pattern = target(paths[0], dir, home);
        if let WalkView::Done(files) = glob_matches_of(pattern, seen.dirs) {
            lemma_files_leave_no_includes(files, line_no, depth, home, seen);
        }
    }
}

proof fn lemma_files_leave_no_includes(
    files: Seq<Seq<char>>,
    line_no: usize,
    depth: nat,
    home: Option<Seq<char>>,
    seen: SnapshotView,
)
    ensures
        files_expansion(files, line_no, depth, home, seen) matches ExpansionView::Done(out)
            ==> no_includes(out),
    decreases 17 - depth, 0int, files.len(),
{
    if files.len() > 0 {
        lemma_files_leave_no_includes(files.skip(1), line_no, depth, home, seen);
        if depth + 1 <= 16 {
            if let Some(Some(file)) = entry_of(seen.files, files[0]) {
                if let Ok(lines) = parse_text(file.text) {
                    lemma_expansion_leaves_no_includes(lines, file.dir, depth + 1, home, seen);
                }
            }
        }
    }
}

/// Whether an expansion asks for something that the snapshot already holds.
pub open spec fn asks_again(e: ExpansionView, seen: SnapshotView) -> bool {
    match e {
        ExpansionView::List(dir) => entry_of(seen.dirs, dir) is Some,
        ExpansionView::Read(path) => entry_of(seen.files, path) is Some,
        _ => false,
    }
}

/// An expansion asks only for what was not read yet, so every answer takes it
/// further.
pub proof fn lemma_expansion_asks_once(
    lines: Seq<ParsedLineView>,
    dir: Seq<char>,
    depth: nat,
    home: Option<Seq<char>>,
    seen: SnapshotView,
)
    ensures
        !asks_again(expansion(lines, dir, depth, home, seen), seen),
    decreases 17 - depth, 2int, lines.len(),
{
    if lines.len() > 0 {
        lemma_expansion_asks_once(lines.skip(1), dir, depth, home, seen);
        let line = lines[0];
        if line.keyword == "include"@ {
            lemma_paths_ask_once(line.args, line.line_no, dir, depth, home, seen);
        }
    }
}

proof fn lemma_paths_ask_once(
    paths: Seq<Seq<char>>,
    line_no: usize,
    dir: Seq<char>,
    depth: nat,
    home: Option<Seq<char>>,
    seen: SnapshotView,
)
    ensures
        !asks_again(paths_expansion(paths, line_no, dir, depth, home, seen), seen),
    decreases 17 - depth, 1int, paths.len(),
{
    if paths.len() > 0 {
        lemma_paths_ask_once(paths.skip(1), line_no, dir, depth, home, seen);
        let pattern = target(paths[0], dir, home);
        super::walk::lemma_glob_asks_once(pattern, seen.dirs);
        if let WalkView::Done(files) = glob_matches_of(pattern, seen.dirs) {
            lemma_files_ask_once(files, line_no, depth, home, seen);
        }
    }
}

proof fn lemma_files_ask_once(
    files: Seq<Seq<char>>,
    line_no: usize,
    depth: nat,
    home: Option<Seq<char>>,
    seen: SnapshotView,
)
    ensures
        !asks_again(files_expansion(files, line_no, depth, home, seen), seen),
    decreases 17 - depth, 0int, files.len(),
{
    if files.len() > 0 {
        lemma_files_ask_once(files.skip(1), line_no, depth, home, seen);
        if depth + 1 <= 16 {
            if let Some(Some(file)) = entry_of(seen.files, files[0]) {
                if let Ok(lines) = parse_text(file.text) {
                    lemma_expansion_asks_once(lines, file.dir, depth + 1, home, seen);
                }
            }
        }
    }
}

/// At the deepest level, an `Include` that matches a file is an error.
pub proof fn lemma_depth_is_capped(
    files: Seq<Seq<char>>,
    line_no: usize,
    home: Option<Seq<char>>,
    seen: SnapshotView,
)
    requires
        files.len() > 0,
    ensures
        files_expansion(files, line_no, MAX_INCLUDE_DEPTH as nat, home, seen)
            == ExpansionView::Failed(
            ConfigErrorView::Syntax { line: line_no, msg: "Include: max depth exceeded"@ },
        ),
{
}

} // verus!
