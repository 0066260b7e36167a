//! The commands that copy files by `scp`, and what their peer may do.

use crate::error::{Error, IoErrorKind};
use crate::text::{chars_of, last_index, lemma_last_index, rfind, string_of};
use vstd::prelude::*;

verus! {

/// Options of an upload.
#[derive(Debug, Clone, Copy)]
pub struct ScpSendOptions {
    /// Copy directories too (`-r`).
    pub recursive: bool,
    /// Keep modification times (`-p`).
    pub preserve_times: bool,
}

/// Options of a download.
#[derive(Debug, Clone, Copy)]
pub struct ScpRecvOptions {
    /// Copy directories too (`-r`).
    pub recursive: bool,
    /// Keep modification times (`-p`).
    pub preserve_times: bool,
    /// The local target is a file, not a directory to put files into.
    pub target_is_file: bool,
}

/// How a transfer can go wrong.
#[derive(Debug, Clone, Copy)]
pub enum ScpFault {
    /// The transport failed.
    Io(IoErrorKind),
    /// The peer gave up.
    Remote,
    /// The peer complained.
    Warning,
    /// A header could not be parsed.
    BadHeader,
    /// A file name is not one.
    BadName,
    /// A path leads out of the target.
    PathEscape,
    /// Something came at the wrong time.
    Unexpected,
}

/// A remote path in single quotes, or why it cannot be quoted: a quote would
/// end the quoting, a newline or a NUL confuses shells, and a leading dash
/// makes an option of it.
pub open spec fn quoted_path(path: Seq<char>) -> Result<Seq<char>, Error> {
    if path.contains('\'') {
        Err(Error::Protocol("scp: remote path contains single quote"))
    } else if path.contains('\n') {
        Err(Error::Protocol("scp: remote path contains newline"))
    } else if path.contains('\0') {
        Err(Error::Protocol("scp: remote path contains NUL"))
    } else if path.len() > 0 && path[0] == '-' {
        Err(Error::Protocol("scp: remote path starts with '-'"))
    } else {
        Ok(seq!['\''] + path + seq!['\''])
    }
}

/// The command that runs the remote end of a transfer.
pub open spec fn command(
    start: Seq<char>,
    path: Seq<char>,
    recursive: bool,
    preserve_times: bool,
) -> Result<Seq<char>, Error> {
    match quoted_path(path) {
        Err(e) => Err(e),
        Ok(quoted) => Ok(
            start + (if recursive {
                " -r"@
            } else {
                Seq::empty()
            }) + (if preserve_times {
                " -p"@
            } else {
                Seq::empty()
            }) + " -- "@ + quoted,
        ),
    }
}

/// Whether a character is in a text.
fn has_char(s: &[char], c: char) -> (r: bool)
    ensures
        r == s@.contains(c),
{
    let mut i: usize = 0;
    let n: usize = s.len();
    while i < n
        invariant
            i <= n,
            n == s@.len(),
            forall|k: int| 0 <= k < i ==> s@[k] != c,
        decreases n - i,
    {
        if s[i] == c {
            assert(s@[i as int] == c);
            return true;
        }
        i += 1;
    }
    false
}

/// A remote path in single quotes.
pub fn single_quote_for_remote(p: &str) -> (r: Result<String, Error>)
    ensures
        match quoted_path(p@) {
            Ok(q) => r matches Ok(s) && s@ == q,
            Err(e) => r == Err::<String, Error>(e),
        },
{
    let chars = chars_of(p);
    if has_char(chars.as_slice(), '\'') {
        return Err(Error::Protocol("scp: remote path contains single quote"));
    }
    if has_char(chars.as_slice(), '\n') {
        return Err(Error::Protocol("scp: remote path contains newline"));
    }
    if has_char(chars.as_slice(), '\0') {
        return Err(Error::Protocol("scp: remote path contains NUL"));
    }
    if chars.len() > 0 && chars[0] == '-' {
        return Err(Error::Protocol("scp: remote path starts with '-'"));
    }
    let mut q: Vec<char> = Vec::new();
    q.push('\'');
    q.extend_from_slice(chars.as_slice());
    q.push('\'');
    assert(q@ =~= seq!['\''] + p@ + seq!['\'']);
    Ok(string_of(q.as_slice()))
}

/// The command that runs the remote end of a transfer.
fn build_command(start: &str, path: &str, recursive: bool, preserve_times: bool) -> (r: Result<
    String,
    Error,
>)
    ensures
        match command(start@, path@, recursive, preserve_times) {
            Ok(c) => r matches Ok(s) && s@ == c,
            Err(e) => r == Err::<String, Error>(e),
        },
{
    let quoted = single_quote_for_remote(path)?;
    let mut s = start.to_owned();
    if recursive {
        s.append(" -r");
    }
    if preserve_times {
        s.append(" -p");
    }
    s.append(" -- ");
    s.append(quoted.as_str());
    assert(s@ =~= command(start@, path@, recursive, preserve_times)->Ok_0);
    Ok(s)
}

/// `scp -t [-r] [-p] -- '<dest>'`.
pub fn build_scp_to_cmd(remote_dest: &str, opts: &ScpSendOptions) -> (r: Result<String, Error>)
    ensures
        match command("scp -t"@, remote_dest@, opts.recursive, opts.preserve_times) {
            Ok(c) => r matches Ok(s) && s@ == c,
            Err(e) => r == Err::<String, Error>(e),
        },
{
    build_command("scp -t", remote_dest, opts.recursive, opts.preserve_times)
}

/// `scp -f [-r] [-p] -- '<source>'`.
pub fn build_scp_from_cmd(remote_source: &str, opts: &ScpRecvOptions) -> (r: Result<String, Error>)
    ensures
        match command("scp -f"@, remote_source@, opts.recursive, opts.preserve_times) {
            Ok(c) => r matches Ok(s) && s@ == c,
            Err(e) => r == Err::<String, Error>(e),
        },
{
    build_command("scp -f", remote_source, opts.recursive, opts.preserve_times)
}

/// Whether a download writes to exactly the local path it was given, rather
/// than into a directory of that name. `local_is_dir` says whether the path
/// is a directory, if it is there at all.
pub fn target_is_file(opts: &ScpRecvOptions, local_is_dir: Option<bool>) -> (r: bool)
    ensures
        r == (opts.target_is_file || (!opts.recursive && local_is_dir != Some(true))),
{
    if opts.target_is_file {
        return true;
    }
    let is_dir = match local_is_dir {
        Some(d) => d,
        None => false,
    };
    !opts.recursive && !is_dir
}

/// What follows the last slash of a path.
pub open spec fn base_name(path: Seq<char>) -> Seq<char> {
    match last_index(path, '/') {
        Some(i) => path.skip(i + 1),
        None => path,
    }
}

/// The one name that a server may send in answer to the request for a path:
/// its last part. There is none for a directory, nor for a pattern, which
/// leaves the names to the server.
pub open spec fn sole_name(path: Seq<char>, recursive: bool) -> Option<Seq<char>> {
    let base = base_name(path);
    if recursive || base.len() == 0 || base.contains('*') || base.contains('?') || base.contains(
        '[',
    ) {
        None
    } else {
        Some(base)
    }
}

/// The one name that a server may send in answer to the request for a path.
pub fn expected_name(remote_source: &str, recursive: bool) -> (r: Option<String>)
    ensures
        match sole_name(remote_source@, recursive) {
            Some(n) => r matches Some(s) && s@ == n,
            None => r is None,
        },
{
    if recursive {
        return None;
    }
    let chars = chars_of(remote_source);
    proof {
        lemma_last_index(chars@, '/');
    }
    let start: usize = match rfind(chars.as_slice(), '/') {
        Some(i) => i + 1,
        None => 0,
    };
    let base = vstd::slice::slice_subrange(chars.as_slice(), start, chars.len());
    assert(base@ =~= base_name(remote_source@));
    if base.len() == 0 || has_char(base, '*') || has_char(base, '?') || has_char(base, '[') {
        return None;
    }
    Some(string_of(base))
}

/// The error that a failed transfer is reported as.
pub fn scp_proto(fault: ScpFault) -> (r: Error)
    ensures
        r == match fault {
            ScpFault::Io(kind) => Error::Io(kind),
            ScpFault::Remote => Error::Protocol("scp: remote fatal frame"),
            ScpFault::Warning => Error::Protocol("scp: remote warning frame"),
            ScpFault::BadHeader => Error::Protocol("scp: malformed header"),
            ScpFault::BadName => Error::Protocol("scp: invalid name"),
            ScpFault::PathEscape => Error::Protocol("scp: path escapes base"),
            ScpFault::Unexpected => Error::Protocol("scp: unexpected protocol state"),
        },
{
    match fault {
        ScpFault::Io(kind) => Error::Io(kind),
        ScpFault::Remote => Error::Protocol("scp: remote fatal frame"),
        ScpFault::Warning => Error::Protocol("scp: remote warning frame"),
        ScpFault::BadHeader => Error::Protocol("scp: malformed header"),
        ScpFault::BadName => Error::Protocol("scp: invalid name"),
        ScpFault::PathEscape => Error::Protocol("scp: path escapes base"),
        ScpFault::Unexpected => Error::Protocol("scp: unexpected protocol state"),
    }
}

/// A quoted path cannot break out of its quotes: between the first and the
/// last character there is no quote, and no newline or NUL.
pub proof fn lemma_quoting_is_closed(path: Seq<char>)
    requires
        quoted_path(path) is Ok,
    ensures
        ({
            let q = quoted_path(path)->Ok_0;
            &&& q.len() == path.len() + 2
            &&& q[0] == '\'' && q.last() == '\''
            &&& forall|i: int|
                0 < i < q.len() - 1 ==> #[trigger] q[i] != '\'' && q[i] != '\n' && q[i] != '\0'
            &&& q.subrange(1, q.len() - 1) == path
        }),
{
    let q = quoted_path(path)->Ok_0;
    assert forall|i: int| 0 < i < q.len() - 1 implies #[trigger] q[i] != '\'' && q[i] != '\n'
        && q[i] != '\0' by {
        assert(q[i] == path[i - 1]);
        assert(path.contains(path[i - 1]));
    }
    assert(q.subrange(1, q.len() - 1) =~= path);
}

/// A name that a server may send is the name of a file in the target: it
/// holds no slash.
pub proof fn lemma_sole_name_has_no_slash(path: Seq<char>, recursive: bool)
    requires
        sole_name(path, recursive) is Some,
    ensures
        !sole_name(path, recursive)->0.contains('/'),
{
    lemma_last_index(path, '/');
    let base = base_name(path);
    if base.contains('/') {
        let k = choose|k: int| 0 <= k < base.len() && base[k] == '/';
        match last_index(path, '/') {
            Some(i) => {
                assert(path[i + 1 + k] == '/');
            },
            None => {
                assert(path[k] == '/');
            },
        }
    }
}

} // verus!
