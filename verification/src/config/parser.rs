//! Low-level tokenizer for OpenSSH-style config files.
//!
//! `ssh_config(5)` and `sshd_config(5)` share the same line-oriented syntax:
//! one keyword per line, optional `=` between keyword and value, values may be
//! quoted, `#` starts a comment, and the keyword is case-insensitive.
//!
//! This module produces a flat stream of [`ParsedLine`] events.

use super::{ConfigError, ConfigErrorView};
use crate::text::{
    chars_of, find, first_index, is_space, lower_text, space, string_of, to_lower, trim, trimmed,
    views,
};
use vstd::prelude::*;

verus! {

/// One parsed non-empty, non-comment line.
#[derive(Debug, Clone)]
pub struct ParsedLine {
    /// 1-based source line number (for diagnostics).
    pub line_no: usize,
    /// Lowercased keyword (e.g. `"hostname"`, `"port"`).
    pub keyword: String,
    /// Whitespace-separated value tokens with quoting/escaping resolved.
    pub args: Vec<String>,
}

/// What a [`ParsedLine`] says.
#[verifier::ext_equal]
pub ghost struct ParsedLineView {
    pub line_no: usize,
    pub keyword: Seq<char>,
    pub args: Seq<Seq<char>>,
}

impl View for ParsedLine {
    type V = ParsedLineView;

    open spec fn view(&self) -> ParsedLineView {
        ParsedLineView { line_no: self.line_no, keyword: self.keyword@, args: views(self.args@) }
    }
}

/// The lines of a text. A line ends at a newline, which a carriage return may
/// precede; the last line may lack the newline.
pub open spec fn lines(s: Seq<char>) -> Seq<Seq<char>>
    decreases s.len(),
{
    if s.len() == 0 {
        Seq::empty()
    } else {
        match first_index(s, '\n') {
            Some(i) => if 0 <= i < s.len() {
                seq![without_cr(s.take(i))] + lines(s.skip(i + 1))
            } else {
                Seq::empty()
            },
            None => seq![s],
        }
    }
}

/// A line without the carriage return at its end.
pub open spec fn without_cr(s: Seq<char>) -> Seq<char> {
    if s.len() > 0 && s.last() == '\r' {
        s.drop_last()
    } else {
        s
    }
}

/// The part of a line before the first unquoted `#`.
pub open spec fn code(s: Seq<char>) -> Seq<char>
    decreases s.len(),
{
    if s.len() == 0 || s[0] == '#' {
        Seq::empty()
    } else if s[0] == '"' {
        seq![s[0]] + code_in_quotes(s.skip(1))
    } else {
        seq![s[0]] + code(s.skip(1))
    }
}

/// The same where a quoted span is open; a backslash there takes the next
/// character with it.
pub open spec fn code_in_quotes(s: Seq<char>) -> Seq<char>
    decreases s.len(),
{
    if s.len() == 0 {
        Seq::empty()
    } else if s[0] == '\\' {
        if s.len() == 1 {
            s
        } else {
            s.take(2) + code_in_quotes(s.skip(2))
        }
    } else if s[0] == '"' {
        seq![s[0]] + code(s.skip(1))
    } else {
        seq![s[0]] + code_in_quotes(s.skip(1))
    }
}

/// The white-space separated tokens of a line, where `cur` is the token read
/// so far, if one is open; `None` if a quoted span never ends.
pub open spec fn tokens(s: Seq<char>, cur: Option<Seq<char>>) -> Option<Seq<Seq<char>>>
    decreases s.len(),
{
    if s.len() == 0 {
        match cur {
            Some(t) => Some(seq![t]),
            None => Some(Seq::empty()),
        }
    } else if s[0] == '"' {
        tokens_in_quotes(
            s.skip(1),
            match cur {
                Some(t) => t,
                None => Seq::empty(),
            },
        )
    } else if is_space(s[0]) {
        match cur {
            Some(t) => prepend(seq![t], tokens(s.skip(1), None)),
            None => tokens(s.skip(1), None),
        }
    } else {
        tokens(
            s.skip(1),
            Some(
                match cur {
                    Some(t) => t.push(s[0]),
                    None => seq![s[0]],
                },
            ),
        )
    }
}

/// The same inside a quoted span, where white space belongs to the token and
/// a backslash takes the next character as it is.
pub open spec fn tokens_in_quotes(s: Seq<char>, cur: Seq<char>) -> Option<Seq<Seq<char>>>
    decreases s.len(),
{
    if s.len() == 0 {
        None
    } else if s[0] == '\\' {
        if s.len() == 1 {
            None
        } else {
            tokens_in_quotes(s.skip(2), cur.push(s[1]))
        }
    } else if s[0] == '"' {
        tokens(s.skip(1), Some(cur))
    } else {
        tokens_in_quotes(s.skip(1), cur.push(s[0]))
    }
}

/// `head` before the tokens that follow, if there are any.
pub open spec fn prepend(head: Seq<Seq<char>>, rest: Option<Seq<Seq<char>>>) -> Option<
    Seq<Seq<char>>,
> {
    match rest {
        Some(ts) => Some(head + ts),
        None => None,
    }
}

/// The keyword and the arguments that a line's tokens stand for. An `=`
/// between them may stand alone or be attached to either side.
pub open spec fn assemble(toks: Seq<Seq<char>>, line_no: usize) -> ParsedLineView {
    let head = toks[0];
    let rest = toks.skip(1);
    let (keyword, args) = match first_index(head, '=') {
        Some(i) => (
            head.take(i),
            if i + 1 < head.len() {
                seq![head.skip(i + 1)] + rest
            } else {
                rest
            },
        ),
        None => (head, rest),
    };
    ParsedLineView { line_no, keyword: lower_text(keyword), args: without_equals(args) }
}

/// Arguments without the `=` before the first of them.
pub open spec fn without_equals(args: Seq<Seq<char>>) -> Seq<Seq<char>> {
    if args.len() > 0 && args[0].len() > 0 && args[0][0] == '=' {
        if args[0].len() == 1 {
            args.skip(1)
        } else {
            seq![args[0].skip(1)] + args.skip(1)
        }
    } else {
        args
    }
}

/// What one line says: nothing, a keyword with arguments, or a complaint.
pub open spec fn parse_line(raw: Seq<char>, line_no: usize) -> Result<
    Option<ParsedLineView>,
    ConfigErrorView,
> {
    let text = trim(code(raw));
    if text.len() == 0 {
        Ok(None)
    } else {
        match tokens(text, None) {
            None => Err(
                ConfigErrorView::Syntax { line: line_no, msg: "unterminated quoted string"@ },
            ),
            Some(toks) => if toks.len() == 0 {
                Ok(None)
            } else {
                Ok(Some(assemble(toks, line_no)))
            },
        }
    }
}

/// What a sequence of lines says, the first of which has the number `no`.
pub open spec fn parse_lines(ls: Seq<Seq<char>>, no: nat) -> Result<
    Seq<ParsedLineView>,
    ConfigErrorView,
>
    decreases ls.len(),
{
    if ls.len() == 0 {
        Ok(Seq::empty())
    } else {
        match parse_line(ls[0], no as usize) {
            Err(e) => Err(e),
            Ok(None) => parse_lines(ls.skip(1), no + 1),
            Ok(Some(l)) => after(seq![l], parse_lines(ls.skip(1), no + 1)),
        }
    }
}

/// `head` before the lines that follow, if they parse.
pub open spec fn after(
    head: Seq<ParsedLineView>,
    rest: Result<Seq<ParsedLineView>, ConfigErrorView>,
) -> Result<Seq<ParsedLineView>, ConfigErrorView> {
    match rest {
        Ok(ls) => Ok(head + ls),
        Err(e) => Err(e),
    }
}

/// What a whole file says.
pub open spec fn parse_text(src: Seq<char>) -> Result<Seq<ParsedLineView>, ConfigErrorView> {
    parse_lines(lines(src), 1)
}

/// Cut everything from the first unquoted `#` on. Quoted spans are skipped
/// over so `Host "weird#name"` parses correctly.
fn strip_comment(line: &[char]) -> (r: &[char])
    ensures
        r@ == code(line@),
{
    let mut i: usize = 0;
    let mut in_quotes = false;
    assert(line@.skip(0) =~= line@);
    assert(line@.take(0) + code(line@) =~= code(line@));
    while i < line.len()
        invariant
            i <= line.len(),
            code(line@) == line@.take(i as int) + if in_quotes {
                code_in_quotes(line@.skip(i as int))
            } else {
                code(line@.skip(i as int))
            },
        decreases line.len() - i,
    {
        let ghost rest = line@.skip(i as int);
        let c = line[i];
        assert(rest.skip(1) =~= line@.skip(i + 1));
        assert(line@.take(i + 1) =~= line@.take(i as int) + seq![c]);
        if in_quotes && c == '\\' {
            if i + 1 == line.len() {
                assert(line@.take(i as int) + rest =~= line@);
                return line;
            }
            assert(rest.skip(2) =~= line@.skip(i + 2));
            assert(line@.take(i + 2) =~= line@.take(i as int) + rest.take(2));
            assert(line@.take(i as int) + (rest.take(2) + code_in_quotes(rest.skip(2)))
                =~= line@.take(i as int) + rest.take(2) + code_in_quotes(rest.skip(2)));
            i += 2;
            continue ;
        }
        if !in_quotes && c == '#' {
            assert(line@.take(i as int) + Seq::<char>::empty() =~= line@.take(i as int));
            return vstd::slice::slice_subrange(line, 0, i);
        }
        let ghost tail = if in_quotes != (c == '"') {
            code_in_quotes(rest.skip(1))
        } else {
            code(rest.skip(1))
        };
        assert(line@.take(i as int) + (seq![c] + tail) =~= line@.take(i as int) + seq![c] + tail);
        if c == '"' {
            in_quotes = !in_quotes;
        }
        i += 1;
    }
    assert(line@.take(i as int) + Seq::<char>::empty() =~= line@);
    line
}

/// Split a trimmed, comment-free line into whitespace-separated tokens with
/// quoting and escape handling.
fn tokenize_line(line: &[char], line_no: usize) -> (r: Result<Vec<String>, ConfigError>)
    ensures
        match tokens(line@, None) {
            Some(ts) => r matches Ok(v) && views(v@) == ts,
            None => r matches Err(e) && e@ == (ConfigErrorView::Syntax {
                line: line_no,
                msg: "unterminated quoted string"@,
            }),
        },
{
    let mut out: Vec<String> = Vec::new();
    let mut cur = String::new();
    let mut in_token = false;
    let mut in_quotes = false;
    let mut i: usize = 0;
    assert(line@.skip(0) =~= line@);
    assert(views(out@) =~= Seq::<Seq<char>>::empty());
    proof {
        lemma_prepend_nothing(tokens(line@, None));
    }
    while i < line.len()
        invariant
            i <= line.len(),
            !in_token ==> cur@ == Seq::<char>::empty() && !in_quotes,
            tokens(line@, None) == prepend(
                views(out@),
                if in_quotes {
                    tokens_in_quotes(line@.skip(i as int), cur@)
                } else {
                    tokens(
                        line@.skip(i as int),
                        if in_token {
                            Some(cur@)
                        } else {
                            None
                        },
                    )
                },
            ),
        decreases line.len() - i,
    {
        let ghost rest = line@.skip(i as int);
        let c = line[i];
        assert(rest.skip(1) =~= line@.skip(i + 1));
        if in_quotes {
            if c == '\\' {
                if i + 1 == line.len() {
                    return Err(
                        ConfigError::Syntax {
                            line: line_no,
                            msg: "unterminated quoted string".to_owned(),
                        },
                    );
                }
                assert(rest.skip(2) =~= line@.skip(i + 2));
                cur.push(line[i + 1]);
                i += 2;
                continue ;
            }
            if c == '"' {
                in_quotes = false;
            } else {
                cur.push(c);
            }
        } else if c == '"' {
            in_quotes = true;
            in_token = true;
        } else if space(c) {
            if in_token {
                let ghost before = views(out@);
                let ghost following = tokens(rest.skip(1), None);
                out.push(cur);
                proof {
                    assert(views(out@) =~= before + seq![cur@]);
                    lemma_prepend_twice(before, seq![cur@], following);
                }
                cur = String::new();
                in_token = false;
            }
        } else {
            assert(Seq::<char>::empty().push(c) =~= seq![c]);
            cur.push(c);
            in_token = true;
        }
        i += 1;
    }
    assert(line@.skip(i as int) =~= Seq::<char>::empty());
    if in_quotes {
        return Err(
            ConfigError::Syntax { line: line_no, msg: "unterminated quoted string".to_owned() },
        );
    }
    if in_token {
        let ghost before = views(out@);
        out.push(cur);
        assert(views(out@) =~= before + seq![cur@]);
    } else {
        assert(views(out@) + Seq::<Seq<char>>::empty() =~= views(out@));
    }
    Ok(out)
}

proof fn lemma_prepend_nothing(rest: Option<Seq<Seq<char>>>)
    ensures
        prepend(Seq::empty(), rest) == rest,
{
    if let Some(ts) = rest {
        assert(Seq::<Seq<char>>::empty() + ts =~= ts);
    }
}

proof fn lemma_prepend_twice(a: Seq<Seq<char>>, b: Seq<Seq<char>>, rest: Option<Seq<Seq<char>>>)
    ensures
        prepend(a, prepend(b, rest)) == prepend(a + b, rest),
{
    if let Some(ts) = rest {
        assert(a + (b + ts) =~= a + b + ts);
    }
}

proof fn lemma_after_twice(
    a: Seq<ParsedLineView>,
    b: Seq<ParsedLineView>,
    rest: Result<Seq<ParsedLineView>, ConfigErrorView>,
)
    ensures
        after(a, after(b, rest)) == after(a + b, rest),
{
    if let Ok(ls) = rest {
        assert(a + (b + ls) =~= a + b + ls);
    }
}

/// Turn a line's tokens into a keyword and its arguments.
fn assemble_line(toks: Vec<String>, line_no: usize) -> (r: ParsedLine)
    requires
        toks@.len() > 0,
    ensures
        r@ == assemble(views(toks@), line_no),
{
    let mut args = toks;
    let ghost all = views(args@);
    let head = args.remove(0);
    let head_chars = chars_of(head.as_str());
    let size: usize = head_chars.len();
    let ghost rest = all.skip(1);
    assert(views(args@) =~= rest);
    assert(all[0] == head@);
    let keyword = match find(head_chars.as_slice(), '=') {
        Some(i) => {
            let value = vstd::slice::slice_subrange(head_chars.as_slice(), i + 1, size);
            assert(value@ =~= head@.skip(i + 1));
            if value.len() > 0 {
                args.insert(0, string_of(value));
                assert(views(args@) =~= seq![value@] + rest);
            }
            let name = vstd::slice::slice_subrange(head_chars.as_slice(), 0, i);
            assert(name@ =~= head@.take(i as int));
            string_of(name)
        },
        None => head,
    };
    let ghost mid = views(args@);
    if args.len() > 0 {
        let first = chars_of(args[0].as_str());
        assert(mid[0] == first@);
        if first.len() > 0 && first[0] == '=' {
            args.remove(0);
            assert(views(args@) =~= mid.skip(1));
            if first.len() > 1 {
                let value = vstd::slice::slice_subrange(first.as_slice(), 1, first.len());
                assert(value@ =~= first@.skip(1));
                args.insert(0, string_of(value));
                assert(views(args@) =~= seq![value@] + mid.skip(1));
            }
        }
    }
    let keyword = to_lower(keyword.as_str());
    ParsedLine { line_no, keyword, args }
}

/// Tokenize `src` into a vector of [`ParsedLine`] events.
///
/// Skips blank lines and `#` comments. Quoted (`"..."`) substrings preserve
/// internal whitespace and honour backslash escapes (`\"`, `\\`). An optional
/// `=` between keyword and value is accepted (matching OpenSSH).
pub fn tokenize(src: &str) -> (r: Result<Vec<ParsedLine>, ConfigError>)
    ensures
        match parse_text(src@) {
            Ok(ls) => r matches Ok(v) && views(v@) == ls,
            Err(e) => r matches Err(x) && x@ == e,
        },
{
    let cs = chars_of(src);
    let mut out: Vec<ParsedLine> = Vec::new();
    let mut start: usize = 0;
    let mut line_no: usize = 0;
    assert(cs@.skip(0) =~= cs@);
    assert(views(out@) =~= Seq::<ParsedLineView>::empty());
    proof {
        if let Ok(ls) = parse_text(src@) {
            assert(Seq::<ParsedLineView>::empty() + ls =~= ls);
        }
    }
    while start < cs.len()
        invariant
            start <= cs.len(),
            line_no <= start,
            cs@ == src@,
            parse_text(src@) == after(
                views(out@),
                parse_lines(lines(cs@.skip(start as int)), (line_no + 1) as nat),
            ),
        decreases cs.len() - start,
    {
        let rest = vstd::slice::slice_subrange(cs.as_slice(), start, cs.len());
        assert(rest@ =~= cs@.skip(start as int));
        let found = find(rest, '\n');
        let n: usize = match found {
            Some(i) => i,
            None => rest.len(),
        };
        let end: usize = if found.is_some() && n > 0 && rest[n - 1] == '\r' {
            n - 1
        } else {
            n
        };
        let raw = vstd::slice::slice_subrange(rest, 0, end);
        let ghost following = match found {
            Some(i) => lines(rest@.skip(i + 1)),
            None => Seq::empty(),
        };
        proof {
            if found is Some {
                assert(raw@ =~= without_cr(rest@.take(n as int)));
            } else {
                assert(raw@ =~= rest@);
            }
            assert(lines(rest@) =~= seq![raw@] + following);
            assert(lines(rest@).skip(1) =~= following);
        }
        line_no = line_no + 1;
        let ghost before = views(out@);
        let stripped = strip_comment(raw);
        let text = trimmed(stripped);
        if text.len() > 0 {
            let toks = tokenize_line(text, line_no)?;
            if toks.len() > 0 {
                let line = assemble_line(toks, line_no);
                let ghost l = line@;
                out.push(line);
                proof {
                    assert(views(out@) =~= before + seq![l]);
                    lemma_after_twice(
                        before,
                        seq![l],
                        parse_lines(following, (line_no + 1) as nat),
                    );
                }
            }
        }
        match found {
            Some(i) => {
                start = start + i + 1;
                assert(cs@.skip(start as int) =~= rest@.skip(i + 1));
            },
            None => {
                start = cs.len();
                assert(cs@.skip(start as int) =~= Seq::<char>::empty());
            },
        }
    }
    assert(cs@.skip(start as int) =~= Seq::<char>::empty());
    assert(views(out@) + Seq::<ParsedLineView>::empty() =~= views(out@));
    Ok(out)
}

/// Text that a tokenizer takes as it is: no quotes, no comment.
pub open spec fn unquoted(s: Seq<char>) -> bool {
    forall|i: int| 0 <= i < s.len() ==> #[trigger] s[i] != '"' && s[i] != '#'
}

/// A word: unquoted text without white space in it.
pub open spec fn is_word(s: Seq<char>) -> bool {
    &&& s.len() > 0
    &&& unquoted(s)
    &&& forall|i: int| 0 <= i < s.len() ==> !is_space(#[trigger] s[i])
}

/// A word that no `=` stands in.
pub open spec fn is_name(s: Seq<char>) -> bool {
    is_word(s) && !s.contains('=')
}

/// Unquoted text is all code.
proof fn lemma_unquoted_is_code(s: Seq<char>)
    requires
        unquoted(s),
    ensures
        code(s) == s,
    decreases s.len(),
{
    if s.len() > 0 {
        assert forall|i: int| 0 <= i < s.skip(1).len() implies #[trigger] s.skip(1)[i] != '"'
            && s.skip(1)[i] != '#' by {
            assert(s.skip(1)[i] == s[i + 1]);
        }
        lemma_unquoted_is_code(s.skip(1));
        assert(seq![s[0]] + s.skip(1) =~= s);
    } else {
        assert(code(s) =~= s);
    }
}

/// Code ends where a comment begins.
proof fn lemma_comment_ends_code(s: Seq<char>, comment: Seq<char>)
    requires
        unquoted(s),
    ensures
        code(s + seq!['#'] + comment) == s,
    decreases s.len(),
{
    let all = s + seq!['#'] + comment;
    if s.len() > 0 {
        assert(all[0] == s[0]);
        assert(all.skip(1) =~= s.skip(1) + seq!['#'] + comment);
        assert forall|i: int| 0 <= i < s.skip(1).len() implies #[trigger] s.skip(1)[i] != '"'
            && s.skip(1)[i] != '#' by {
            assert(s.skip(1)[i] == s[i + 1]);
        }
        lemma_comment_ends_code(s.skip(1), comment);
        assert(seq![s[0]] + s.skip(1) =~= s);
    } else {
        assert(all[0] == '#');
        assert(code(all) =~= s);
    }
}

/// A comment adds nothing to the line that it ends, and a line that is all
/// comment says nothing.
pub proof fn lemma_comments_are_ignored(s: Seq<char>, comment: Seq<char>, line_no: usize)
    requires
        unquoted(s),
    ensures
        parse_line(s + seq!['#'] + comment, line_no) == parse_line(s, line_no),
        trim(s).len() == 0 ==> parse_line(s + seq!['#'] + comment, line_no) == Ok::<
            Option<ParsedLineView>,
            ConfigErrorView,
        >(None),
{
    lemma_comment_ends_code(s, comment);
    lemma_unquoted_is_code(s);
}

/// A word is added to the token that is open.
proof fn lemma_word_is_taken(w: Seq<char>, rest: Seq<char>, cur: Option<Seq<char>>)
    requires
        is_word(w),
    ensures
        tokens(w + rest, cur) == tokens(
            rest,
            Some(
                match cur {
                    Some(t) => t + w,
                    None => w,
                },
            ),
        ),
    decreases w.len(),
{
    let all = w + rest;
    let tail = w.skip(1);
    let next = match cur {
        Some(t) => t.push(w[0]),
        None => seq![w[0]],
    };
    assert(all[0] == w[0]);
    assert(all.skip(1) =~= tail + rest);
    assert(tokens(all, cur) == tokens(tail + rest, Some(next)));
    if tail.len() > 0 {
        assert forall|i: int| 0 <= i < tail.len() implies #[trigger] tail[i] != '"' && tail[i]
            != '#' by {
            assert(tail[i] == w[i + 1]);
        }
        assert forall|i: int| 0 <= i < tail.len() implies !is_space(#[trigger] tail[i]) by {
            assert(tail[i] == w[i + 1]);
        }
        lemma_word_is_taken(tail, rest, Some(next));
    } else {
        assert(tail + rest =~= rest);
    }
    match cur {
        Some(t) => {
            assert(next + tail =~= t + w);
            assert(tail.len() == 0 ==> next =~= t + w);
        },
        None => {
            assert(next + tail =~= w);
            assert(tail.len() == 0 ==> next =~= w);
        },
    }
}

/// Words with single blanks between them.
pub open spec fn spaced(words: Seq<Seq<char>>) -> Seq<char>
    decreases words.len(),
{
    if words.len() == 0 {
        Seq::empty()
    } else if words.len() == 1 {
        words[0]
    } else {
        words[0] + seq![' '] + spaced(words.skip(1))
    }
}

/// Text whose ends are no white space is not trimmed.
proof fn lemma_nothing_to_trim(s: Seq<char>)
    requires
        s.len() > 0,
        !is_space(s[0]),
        !is_space(s.last()),
    ensures
        trim(s) == s,
{
}

proof fn lemma_spaced_shape(words: Seq<Seq<char>>)
    requires
        words.len() > 0,
        forall|i: int| 0 <= i < words.len() ==> is_word(#[trigger] words[i]),
    ensures
        spaced(words).len() > 0,
        unquoted(spaced(words)),
        !is_space(spaced(words)[0]),
        !is_space(spaced(words).last()),
    decreases words.len(),
{
    let s = spaced(words);
    let w = words[0];
    assert(is_word(w));
    if words.len() == 1 {
        assert(!is_space(s[0]) && !is_space(s[s.len() - 1]));
    } else {
        let rest = words.skip(1);
        assert forall|i: int| 0 <= i < rest.len() implies is_word(#[trigger] rest[i]) by {
            assert(rest[i] == words[i + 1]);
        }
        lemma_spaced_shape(rest);
        let t = spaced(rest);
        assert(s[0] == w[0]);
        assert(s.last() == t.last());
        assert forall|i: int| 0 <= i < s.len() implies #[trigger] s[i] != '"' && s[i] != '#' by {
            if i < w.len() {
                assert(s[i] == w[i]);
            } else if i > w.len() {
                assert(s[i] == t[i - w.len() - 1]);
            }
        }
    }
}

/// Words with blanks between them are tokens.
pub proof fn lemma_words_are_tokens(words: Seq<Seq<char>>)
    requires
        words.len() > 0,
        forall|i: int| 0 <= i < words.len() ==> is_word(#[trigger] words[i]),
    ensures
        tokens(spaced(words), None) == Some(words),
    decreases words.len(),
{
    let w = words[0];
    assert(is_word(w));
    if words.len() == 1 {
        assert(w + Seq::<char>::empty() =~= w);
        lemma_word_is_taken(w, Seq::empty(), None);
        assert(words =~= seq![w]);
    } else {
        let rest = words.skip(1);
        let tail = seq![' '] + spaced(rest);
        assert forall|i: int| 0 <= i < rest.len() implies is_word(#[trigger] rest[i]) by {
            assert(rest[i] == words[i + 1]);
        }
        lemma_words_are_tokens(rest);
        assert(spaced(words) =~= w + tail);
        lemma_word_is_taken(w, tail, None);
        assert(tail[0] == ' ' && is_space(' '));
        assert(tail.skip(1) =~= spaced(rest));
        assert(tokens(tail, Some(w)) == prepend(seq![w], tokens(spaced(rest), None)));
        assert(seq![w] + rest =~= words);
    }
}

/// A line of words says what its words say.
proof fn lemma_line_of_words(words: Seq<Seq<char>>, line_no: usize)
    requires
        words.len() > 0,
        forall|i: int| 0 <= i < words.len() ==> is_word(#[trigger] words[i]),
    ensures
        parse_line(spaced(words), line_no) == Ok::<Option<ParsedLineView>, ConfigErrorView>(
            Some(assemble(words, line_no)),
        ),
{
    lemma_spaced_shape(words);
    lemma_unquoted_is_code(spaced(words));
    lemma_nothing_to_trim(spaced(words));
    lemma_words_are_tokens(words);
}

/// The first `=` after a name.
proof fn lemma_equals_after_name(name: Seq<char>, value: Seq<char>)
    requires
        !name.contains('='),
    ensures
        first_index(name + seq!['='] + value, '=') == Some(name.len() as int),
        first_index(name, '=') is None,
    decreases name.len(),
{
    let s = name + seq!['='] + value;
    if name.len() > 0 {
        let rest = name.skip(1);
        assert(name.contains(name[0]));
        assert forall|c: char| rest.contains(c) implies name.contains(c) by {
            let i = choose|i: int| 0 <= i < rest.len() && rest[i] == c;
            assert(name[i + 1] == c);
        }
        lemma_equals_after_name(rest, value);
        assert(s[0] == name[0]);
        assert(s.skip(1) =~= rest + seq!['='] + value);
    } else {
        assert(s[0] == '=');
    }
}

/// The optional `=` between a keyword and its value may be left out, stand
/// alone, or be attached to either side: the line says the same.
pub proof fn lemma_equals_forms_are_alike(
    keyword: Seq<char>,
    value: Seq<char>,
    more: Seq<Seq<char>>,
    line_no: usize,
)
    requires
        is_name(keyword),
        is_word(value),
        value[0] != '=',
        forall|i: int| 0 <= i < more.len() ==> is_word(#[trigger] more[i]),
    ensures
        ({
            let said = Ok::<Option<ParsedLineView>, ConfigErrorView>(
                Some(
                    ParsedLineView {
                        line_no,
                        keyword: lower_text(keyword),
                        args: seq![value] + more,
                    },
                ),
            );
            let eq = seq!['='];
            &&& parse_line(spaced(seq![keyword, value] + more), line_no) == said
            &&& parse_line(spaced(seq![keyword + eq + value] + more), line_no) == said
            &&& parse_line(spaced(seq![keyword, eq + value] + more), line_no) == said
            &&& parse_line(spaced(seq![keyword + eq, value] + more), line_no) == said
            &&& parse_line(spaced(seq![keyword, eq, value] + more), line_no) == said
        }),
{
    let eq = seq!['='];
    let joined = keyword + eq + value;
    let left = keyword + eq;
    let right = eq + value;
    lemma_joined_words(keyword, eq);
    lemma_joined_words(left, value);
    lemma_joined_words(eq, value);
    lemma_equals_after_name(keyword, value);
    lemma_equals_after_name(keyword, Seq::empty());
    assert(left + Seq::<char>::empty() =~= left);
    let args = seq![value] + more;

    let a = seq![keyword, value] + more;
    lemma_all_words(seq![keyword, value], more);
    lemma_line_of_words(a, line_no);
    assert(a.skip(1) =~= args);
    assert(assemble(a, line_no).args =~= args);

    let b = seq![joined] + more;
    lemma_all_words(seq![joined], more);
    lemma_line_of_words(b, line_no);
    assert(joined.take(keyword.len() as int) =~= keyword);
    assert(joined.skip(keyword.len() as int + 1) =~= value);
    assert(b.skip(1) =~= more);
    assert(assemble(b, line_no).args =~= args);

    let c = seq![keyword, right] + more;
    lemma_all_words(seq![keyword, right], more);
    lemma_line_of_words(c, line_no);
    assert(c.skip(1)[0] == right);
    assert(c.skip(1).skip(1) =~= more);
    assert(right.skip(1) =~= value);
    assert(assemble(c, line_no).args =~= args);

    let d = seq![left, value] + more;
    lemma_all_words(seq![left, value], more);
    lemma_line_of_words(d, line_no);
    assert(left.take(keyword.len() as int) =~= keyword);
    assert(d.skip(1) =~= args);
    assert(assemble(d, line_no).args =~= args);

    let e = seq![keyword, eq, value] + more;
    lemma_all_words(seq![keyword, eq, value], more);
    lemma_line_of_words(e, line_no);
    assert(e.skip(1)[0] == eq);
    assert(e.skip(1).skip(1) =~= args);
    assert(assemble(e, line_no).args =~= args);
}

proof fn lemma_joined_words(a: Seq<char>, b: Seq<char>)
    requires
        is_word(a) || a == seq!['='],
        is_word(b) || b == seq!['='],
    ensures
        is_word(a + b),
        is_word(seq!['=']),
{
    assert forall|i: int| 0 <= i < (a + b).len() implies #[trigger] (a + b)[i] != '"' && (a + b)[i]
        != '#' by {
        if i < a.len() {
            assert((a + b)[i] == a[i]);
        } else {
            assert((a + b)[i] == b[i - a.len()]);
        }
    }
    assert forall|i: int| 0 <= i < (a + b).len() implies !is_space(#[trigger] (a + b)[i]) by {
        if i < a.len() {
            assert((a + b)[i] == a[i]);
        } else {
            assert((a + b)[i] == b[i - a.len()]);
        }
    }
}

proof fn lemma_all_words(head: Seq<Seq<char>>, more: Seq<Seq<char>>)
    requires
        forall|i: int| 0 <= i < head.len() ==> is_word(#[trigger] head[i]),
        forall|i: int| 0 <= i < more.len() ==> is_word(#[trigger] more[i]),
    ensures
        forall|i: int| 0 <= i < (head + more).len() ==> is_word(#[trigger] (head + more)[i]),
{
    assert forall|i: int| 0 <= i < (head + more).len() implies is_word(
        #[trigger] (head + more)[i],
    ) by {
        if i < head.len() {
            assert((head + more)[i] == head[i]);
        } else {
            assert((head + more)[i] == more[i - head.len()]);
        }
    }
}

/// Keywords are told apart without regard to case.
pub proof fn lemma_keyword_case_does_not_matter(
    a: Seq<char>,
    b: Seq<char>,
    args: Seq<Seq<char>>,
    line_no: usize,
)
    requires
        is_name(a),
        is_name(b),
        lower_text(a) == lower_text(b),
        forall|i: int| 0 <= i < args.len() ==> is_word(#[trigger] args[i]),
    ensures
        parse_line(spaced(seq![a] + args), line_no) == parse_line(spaced(seq![b] + args), line_no),
{
    lemma_all_words(seq![a], args);
    lemma_all_words(seq![b], args);
    lemma_line_of_words(seq![a] + args, line_no);
    lemma_line_of_words(seq![b] + args, line_no);
    lemma_equals_after_name(a, Seq::empty());
    lemma_equals_after_name(b, Seq::empty());
    assert((seq![a] + args).skip(1) =~= args);
    assert((seq![b] + args).skip(1) =~= args);
}

/// Characters as they stand between quotes: a backslash before each quote and
/// each backslash.
pub open spec fn escaped(s: Seq<char>) -> Seq<char>
    decreases s.len(),
{
    if s.len() == 0 {
        Seq::empty()
    } else if s[0] == '"' || s[0] == '\\' {
        seq!['\\', s[0]] + escaped(s.skip(1))
    } else {
        seq![s[0]] + escaped(s.skip(1))
    }
}

proof fn lemma_quoted_is_taken(s: Seq<char>, rest: Seq<char>, cur: Seq<char>)
    ensures
        tokens_in_quotes(escaped(s) + seq!['"'] + rest, cur) == tokens(rest, Some(cur + s)),
    decreases s.len(),
{
    let all = escaped(s) + seq!['"'] + rest;
    if s.len() == 0 {
        assert(all[0] == '"');
        assert(all.skip(1) =~= rest);
        assert(cur + s =~= cur);
    } else {
        let tail = escaped(s.skip(1)) + seq!['"'] + rest;
        lemma_quoted_is_taken(s.skip(1), rest, cur.push(s[0]));
        assert(cur.push(s[0]) + s.skip(1) =~= cur + s);
        if s[0] == '"' || s[0] == '\\' {
            assert(all[0] == '\\' && all[1] == s[0]);
            assert(all.skip(2) =~= tail);
        } else {
            assert(all[0] == s[0]);
            assert(all.skip(1) =~= tail);
        }
    }
}

/// Between quotes any text is one token: white space and `#` belong to it, and
/// escaping its quotes and backslashes brings them through.
pub proof fn lemma_quoting_keeps_text(s: Seq<char>)
    ensures
        tokens(seq!['"'] + escaped(s) + seq!['"'], None) == Some(seq![s]),
{
    let all = seq!['"'] + escaped(s) + seq!['"'];
    lemma_quoted_is_taken(s, Seq::empty(), Seq::empty());
    assert(all[0] == '"');
    assert(all.skip(1) =~= escaped(s) + seq!['"'] + Seq::<char>::empty());
    assert(Seq::<char>::empty() + s =~= s);
}

/// Whatever stands between quotes, white space and `#` included, is one argument,
/// and what follows it, from a `#` on, is no part of the line.
pub proof fn lemma_quoted_argument(
    keyword: Seq<char>,
    s: Seq<char>,
    comment: Seq<char>,
    line_no: usize,
)
    requires
        is_name(keyword),
        s.len() == 0 || s[0] != '=',
    ensures
        ({
            let line = keyword + seq![' ', '"'] + escaped(s) + seq!['"'];
            let said = Ok::<Option<ParsedLineView>, ConfigErrorView>(
                Some(
                    ParsedLineView { line_no, keyword: lower_text(keyword), args: seq![s] },
                ),
            );
            &&& parse_line(line, line_no) == said
            &&& parse_line(line + seq!['#'] + comment, line_no) == said
        }),
{
    let quoted = seq!['"'] + escaped(s) + seq!['"'];
    let head = keyword + seq![' '];
    let line = keyword + seq![' ', '"'] + escaped(s) + seq!['"'];
    assert(line =~= head + quoted);
    let end = Seq::<char>::empty();
    let commented = seq!['#'] + comment;
    lemma_code_of_quoted(head, s, end);
    lemma_code_of_quoted(head, s, commented);
    assert(line + end =~= line);
    assert(line + seq!['#'] + comment =~= line + commented);
    assert(line + Seq::<char>::empty() =~= line);
    assert(line[0] == keyword[0]);
    assert(line.last() == '"');
    lemma_nothing_to_trim(line);
    lemma_word_is_taken(keyword, seq![' '] + quoted, None);
    assert(keyword + (seq![' '] + quoted) =~= line);
    let rest = seq![' '] + quoted;
    assert(rest[0] == ' ');
    assert(rest.skip(1) =~= quoted);
    lemma_quoting_keeps_text(s);
    assert(tokens(line, None) == prepend(seq![keyword], Some(seq![s])));
    let toks = seq![keyword] + seq![s];
    assert(tokens(line, None) == Some(toks));
    assert(toks[0] == keyword);
    assert(toks.skip(1) =~= seq![s]);
    lemma_equals_after_name(keyword, Seq::empty());
}

/// What stands between quotes is code, and so is what stands before them.
proof fn lemma_code_of_quoted(head: Seq<char>, s: Seq<char>, rest: Seq<char>)
    requires
        unquoted(head),
    ensures
        code(head + (seq!['"'] + escaped(s) + seq!['"']) + rest) == head + (seq!['"'] + escaped(s)
            + seq!['"']) + code(rest),
    decreases head.len(),
{
    let quoted = seq!['"'] + escaped(s) + seq!['"'];
    let all = head + quoted + rest;
    if head.len() == 0 {
        lemma_code_in_quotes_of_escaped(s, rest);
        assert(all[0] == '"');
        assert(all.skip(1) =~= escaped(s) + seq!['"'] + rest);
        assert(head + quoted + code(rest) =~= seq!['"'] + (escaped(s) + seq!['"'] + code(rest)));
    } else {
        let tail = head.skip(1);
        assert forall|i: int| 0 <= i < tail.len() implies #[trigger] tail[i] != '"' && tail[i]
            != '#' by {
            assert(tail[i] == head[i + 1]);
        }
        lemma_code_of_quoted(tail, s, rest);
        assert(all[0] == head[0]);
        assert(all.skip(1) =~= tail + quoted + rest);
        assert(head + quoted + code(rest) =~= seq![head[0]] + (tail + quoted + code(rest)));
    }
}

proof fn lemma_code_in_quotes_of_escaped(s: Seq<char>, rest: Seq<char>)
    ensures
        code_in_quotes(escaped(s) + seq!['"'] + rest) == escaped(s) + seq!['"'] + code(rest),
    decreases s.len(),
{
    let all = escaped(s) + seq!['"'] + rest;
    if s.len() == 0 {
        assert(all[0] == '"');
        assert(all.skip(1) =~= rest);
        assert(escaped(s) + seq!['"'] + code(rest) =~= seq!['"'] + code(rest));
    } else {
        let more = escaped(s.skip(1));
        lemma_code_in_quotes_of_escaped(s.skip(1), rest);
        if s[0] == '"' || s[0] == '\\' {
            assert(all[0] == '\\');
            assert(all.take(2) =~= seq!['\\', s[0]]);
            assert(all.skip(2) =~= more + seq!['"'] + rest);
            assert(escaped(s) + seq!['"'] + code(rest) =~= seq!['\\', s[0]] + (more + seq!['"']
                + code(rest)));
        } else {
            assert(all[0] == s[0]);
            assert(all.skip(1) =~= more + seq!['"'] + rest);
            assert(escaped(s) + seq!['"'] + code(rest) =~= seq![s[0]] + (more + seq!['"'] + code(
                rest,
            )));
        }
    }
}

} // verus!
