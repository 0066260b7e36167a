//! Host-key fingerprints, and what a user is told when one has changed.

use crate::text::{concat, decimal, decimal_string, string_of, views};
use vstd::prelude::*;

verus! {

/// What SHA-256 makes of some bytes.
pub uninterp spec fn sha256_digest(data: Seq<u8>) -> Seq<u8>;

/// `purecrypto::hash::sha256`: the SHA-256 digest of `data`, which depends on
/// nothing but these bytes.
#[verifier::external_body]
pub(crate) fn sha256(data: &[u8]) -> (r: [u8; 32])
    ensures
        r@ == sha256_digest(data@),
{
    purecrypto::hash::sha256(data)
}

/// The base-64 digit of a value below 64.
pub open spec fn base64_digit(v: int) -> char {
    if v < 26 {
        (65 + v) as u8 as char
    } else if v < 52 {
        (71 + v) as u8 as char
    } else if v < 62 {
        (v - 4) as u8 as char
    } else if v == 62 {
        '+'
    } else {
        '/'
    }
}

/// Base 64 without padding: every three bytes are four digits, and what is
/// left over is filled up with zero bits to the next digit.
pub open spec fn base64(s: Seq<u8>) -> Seq<char>
    decreases s.len(),
{
    if s.len() == 0 {
        Seq::empty()
    } else if s.len() == 1 {
        seq![base64_digit(s[0] as int / 4), base64_digit(s[0] as int % 4 * 16)]
    } else if s.len() == 2 {
        seq![
            base64_digit(s[0] as int / 4),
            base64_digit(s[0] as int % 4 * 16 + s[1] as int / 16),
            base64_digit(s[1] as int % 16 * 4),
        ]
    } else {
        seq![
            base64_digit(s[0] as int / 4),
            base64_digit(s[0] as int % 4 * 16 + s[1] as int / 16),
            base64_digit(s[1] as int % 16 * 4 + s[2] as int / 64),
            base64_digit(s[2] as int % 64),
        ] + base64(s.skip(3))
    }
}

/// The fingerprint of a digest, as `ssh-keygen -lf` writes it.
pub open spec fn fingerprint(digest: Seq<u8>) -> Seq<char> {
    "SHA256:"@ + base64(digest)
}

/// The base-64 digit of a value below 64.
fn digit(v: u8) -> (c: char)
    requires
        v < 64,
    ensures
        c == base64_digit(v as int),
{
    if v < 26 {
        (65 + v) as char
    } else if v < 52 {
        (71 + v) as char
    } else if v < 62 {
        (v - 4) as char
    } else if v == 62 {
        '+'
    } else {
        '/'
    }
}

/// Base 64 without padding.
pub fn base64_text(bytes: &[u8]) -> (r: String)
    ensures
        r@ == base64(bytes@),
{
    let mut out: Vec<char> = Vec::new();
    let mut i: usize = 0;
    let n: usize = bytes.len();
    assert(bytes@.skip(0) =~= bytes@);
    while n - i >= 3
        invariant
            i <= n,
            n == bytes@.len(),
            out@ + base64(bytes@.skip(i as int)) == base64(bytes@),
        decreases n - i,
    {
        let a: u8 = bytes[i];
        let b: u8 = bytes[i + 1];
        let c: u8 = bytes[i + 2];
        let ghost before = out@;
        let ghost rest = bytes@.skip(i as int);
        out.push(digit(a / 4));
        out.push(digit(a % 4 * 16 + b / 16));
        out.push(digit(b % 16 * 4 + c / 64));
        out.push(digit(c % 64));
        assert(rest.skip(3) =~= bytes@.skip(i + 3));
        assert(out@ + base64(rest.skip(3)) =~= before + base64(rest));
        i += 3;
    }
    let ghost rest = bytes@.skip(i as int);
    let ghost before = out@;
    if n - i == 1 {
        let a: u8 = bytes[i];
        out.push(digit(a / 4));
        out.push(digit(a % 4 * 16));
    } else if n - i == 2 {
        let a: u8 = bytes[i];
        let b: u8 = bytes[i + 1];
        out.push(digit(a / 4));
        out.push(digit(a % 4 * 16 + b / 16));
        out.push(digit(b % 16 * 4));
    }
    assert(out@ =~= before + base64(rest));
    string_of(out.as_slice())
}

/// The fingerprint of a digest, as `ssh-keygen -lf` writes it.
pub fn fingerprint_text(digest: &[u8]) -> (r: String)
    ensures
        r@ == fingerprint(digest@),
{
    concat("SHA256:", base64_text(digest).as_str())
}

/// The fingerprint of a public key, as `ssh-keygen -lf` writes it.
pub fn fingerprint_b64_sha256(blob: &[u8]) -> (r: String)
    ensures
        r@ == fingerprint(sha256_digest(blob@)),
{
    let digest = sha256(blob);
    fingerprint_text(digest.as_slice())
}

/// How a host is named in messages: by itself on the usual port, otherwise in
/// brackets with its port.
pub open spec fn target_name(host: Seq<char>, port: u16) -> Seq<char> {
    if port == 22 {
        host
    } else {
        "["@ + host + "]:"@ + decimal(port as nat)
    }
}

/// A line about one fingerprint.
pub open spec fn fingerprint_line(label: Seq<char>, blob: Seq<u8>, kind: Seq<char>) -> Seq<char> {
    label + fingerprint(sha256_digest(blob)) + " ("@ + kind + ")"@
}

/// The view of a key type and a key.
pub open spec fn key_view(k: (String, Vec<u8>)) -> (Seq<char>, Seq<u8>) {
    (k.0@, k.1@)
}

/// The lines about the keys that were expected.
pub open spec fn old_lines(expected: Seq<(Seq<char>, Seq<u8>)>) -> Seq<Seq<char>> {
    if expected.len() == 0 {
        seq!["Old fingerprint: <none on file>"@]
    } else {
        expected.map_values(
            |k: (Seq<char>, Seq<u8>)| fingerprint_line("Old fingerprint: "@, k.1, k.0),
        )
    }
}

/// The part of the warning that names no fingerprint.
pub open spec fn banner_head(host: Seq<char>, port: u16) -> Seq<Seq<char>> {
    seq![
        "@@@@@@@@@@@@@@@@@@@@@@@@@@@@@@@@@@@@@@@@@@@@@@@@@@@@@@@@@@@"@,
        "@    WARNING: REMOTE HOST IDENTIFICATION HAS CHANGED!     @"@,
        "@@@@@@@@@@@@@@@@@@@@@@@@@@@@@@@@@@@@@@@@@@@@@@@@@@@@@@@@@@@"@,
        "IT IS POSSIBLE THAT SOMEONE IS DOING SOMETHING NASTY!"@,
        "Someone could be eavesdropping on you right now (man-in-the-middle attack)!"@,
        "It is also possible that a host key has just been changed."@,
        "The host key for "@ + target_name(host, port)
            + " has changed; the known_hosts entry does not match what the server presented."@,
    ]
}

/// The warning about a host key that has changed.
pub open spec fn banner_lines(
    host: Seq<char>,
    port: u16,
    expected: Seq<(Seq<char>, Seq<u8>)>,
    new_type: Seq<char>,
    new_blob: Seq<u8>,
) -> Seq<Seq<char>> {
    banner_head(host, port) + old_lines(expected) + seq![
        fingerprint_line("New fingerprint: "@, new_blob, new_type),
    ]
}

/// A line about one fingerprint.
fn fingerprint_line_text(label: &str, blob: &[u8], kind: &str) -> (r: String)
    ensures
        r@ == fingerprint_line(label@, blob@, kind@),
{
    let head = concat(label, fingerprint_b64_sha256(blob).as_str());
    let tail = concat(concat(" (", kind).as_str(), ")");
    let r = concat(head.as_str(), tail.as_str());
    assert(r@ =~= fingerprint_line(label@, blob@, kind@));
    r
}

/// How a host is named in messages.
fn target_text(host: &str, port: u16) -> (r: String)
    ensures
        r@ == target_name(host@, port),
{
    if port == 22 {
        return host.to_owned();
    }
    let head = concat(concat("[", host).as_str(), "]:");
    let r = concat(head.as_str(), decimal_string(port as usize).as_str());
    assert(r@ =~= target_name(host@, port));
    r
}

/// The lines about the keys that were expected.
fn old_fingerprints(expected: &[(String, Vec<u8>)]) -> (r: Vec<String>)
    ensures
        views(r@) == old_lines(expected@.map_values(|k: (String, Vec<u8>)| key_view(k))),
{
    let ghost keys = expected@.map_values(|k: (String, Vec<u8>)| key_view(k));
    let mut out: Vec<String> = Vec::new();
    let n: usize = expected.len();
    if n == 0 {
        out.push("Old fingerprint: <none on file>".to_owned());
        assert(views(out@) =~= old_lines(keys));
        return out;
    }
    let mut i: usize = 0;
    while i < n
        invariant
            i <= n,
            n > 0,
            n == expected@.len(),
            keys == expected@.map_values(|k: (String, Vec<u8>)| key_view(k)),
            out@.len() == i,
            forall|k: int| 0 <= k < i ==> #[trigger] out@[k]@ == old_lines(keys)[k],
        decreases n - i,
    {
        let line = fingerprint_line_text(
            "Old fingerprint: ",
            expected[i].1.as_slice(),
            expected[i].0.as_str(),
        );
        assert(keys[i as int] == key_view(expected@[i as int]));
        assert(line@ == old_lines(keys)[i as int]);
        out.push(line);
        i += 1;
    }
    assert(views(out@) =~= old_lines(keys));
    out
}

/// The lines of the warning about a host key that has changed: the
/// fingerprints on file, each with its key type, and the one that the server
/// has presented.
pub fn mismatch_banner(
    host: &str,
    port: u16,
    expected: &[(String, Vec<u8>)],
    new_key_type: &str,
    new_key_blob: &[u8],
) -> (r: Vec<String>)
    ensures
        views(r@) == banner_lines(
            host@,
            port,
            expected@.map_values(|k: (String, Vec<u8>)| key_view(k)),
            new_key_type@,
            new_key_blob@,
        ),
{
    let ghost keys = expected@.map_values(|k: (String, Vec<u8>)| key_view(k));
    let mut out: Vec<String> = Vec::new();
    out.push("@@@@@@@@@@@@@@@@@@@@@@@@@@@@@@@@@@@@@@@@@@@@@@@@@@@@@@@@@@@".to_owned());
    out.push("@    WARNING: REMOTE HOST IDENTIFICATION HAS CHANGED!     @".to_owned());
    out.push("@@@@@@@@@@@@@@@@@@@@@@@@@@@@@@@@@@@@@@@@@@@@@@@@@@@@@@@@@@@".to_owned());
    out.push("IT IS POSSIBLE THAT SOMEONE IS DOING SOMETHING NASTY!".to_owned());
    out.push(
        "Someone could be eavesdropping on you right now (man-in-the-middle attack)!".to_owned(),
    );
    out.push("It is also possible that a host key has just been changed.".to_owned());
    let about = concat("The host key for ", target_text(host, port).as_str());
    out.push(
        concat(
            about.as_str(),
            " has changed; the known_hosts entry does not match what the server presented.",
        ),
    );
    let ghost head = views(out@);
    assert(head =~= banner_head(host@, port));
    let mut old_texts = old_fingerprints(expected);
    let ghost olds = views(old_texts@);
    out.append(&mut old_texts);
    assert(views(out@) =~= head + olds);
    let line = fingerprint_line_text("New fingerprint: ", new_key_blob, new_key_type);
    let ghost before = out@;
    out.push(line);
    assert(views(out@) =~= views(before) + seq![line@]);
    assert(views(out@) =~= banner_lines(host@, port, keys, new_key_type@, new_key_blob@));
    out
}

/// Different digits stand for different values.
proof fn lemma_digit_injective(a: int, b: int)
    requires
        0 <= a < 64,
        0 <= b < 64,
        base64_digit(a) == base64_digit(b),
    ensures
        a == b,
{
}

/// The digits of the first three bytes, and what follows them.
proof fn lemma_first_digits(s: Seq<u8>)
    requires
        s.len() >= 3,
    ensures
        base64(s)[0] == base64_digit(s[0] as int / 4),
        base64(s)[1] == base64_digit(s[0] as int % 4 * 16 + s[1] as int / 16),
        base64(s)[2] == base64_digit(s[1] as int % 16 * 4 + s[2] as int / 64),
        base64(s)[3] == base64_digit(s[2] as int % 64),
        base64(s).skip(4) == base64(s.skip(3)),
{
    assert(base64(s).skip(4) =~= base64(s.skip(3)));
}

/// Different bytes never have the same base-64 text: no two digests share a
/// fingerprint.
pub proof fn lemma_base64_injective(a: Seq<u8>, b: Seq<u8>)
    requires
        base64(a) == base64(b),
    ensures
        a == b,
    decreases a.len(),
{
    lemma_base64_len(a);
    lemma_base64_len(b);
    let x = base64(a);
    let y = base64(b);
    assert(x.len() == y.len());
    assert(a.len() == b.len());
    if a.len() == 1 {
        lemma_digit_injective(a[0] as int / 4, b[0] as int / 4);
        lemma_digit_injective(a[0] as int % 4 * 16, b[0] as int % 4 * 16);
        assert(x[0] == y[0] && x[1] == y[1]);
        assert(a =~= b);
    } else if a.len() == 2 {
        assert(x[0] == y[0] && x[1] == y[1] && x[2] == y[2]);
        lemma_digit_injective(a[0] as int / 4, b[0] as int / 4);
        lemma_digit_injective(
            a[0] as int % 4 * 16 + a[1] as int / 16,
            b[0] as int % 4 * 16 + b[1] as int / 16,
        );
        lemma_digit_injective(a[1] as int % 16 * 4, b[1] as int % 16 * 4);
        assert(a =~= b);
    } else if a.len() >= 3 {
        lemma_first_digits(a);
        lemma_first_digits(b);
        lemma_digit_injective(a[0] as int / 4, b[0] as int / 4);
        lemma_digit_injective(
            a[0] as int % 4 * 16 + a[1] as int / 16,
            b[0] as int % 4 * 16 + b[1] as int / 16,
        );
        lemma_digit_injective(
            a[1] as int % 16 * 4 + a[2] as int / 64,
            b[1] as int % 16 * 4 + b[2] as int / 64,
        );
        lemma_digit_injective(a[2] as int % 64, b[2] as int % 64);
        lemma_base64_injective(a.skip(3), b.skip(3));
        assert(a =~= seq![a[0], a[1], a[2]] + a.skip(3));
        assert(b =~= seq![b[0], b[1], b[2]] + b.skip(3));
    } else {
        assert(a =~= b);
    }
}

/// How long the base-64 text of some bytes is.
pub proof fn lemma_base64_len(s: Seq<u8>)
    ensures
        base64(s).len() == (4 * s.len() + 2) / 3,
    decreases s.len(),
{
    if s.len() >= 3 {
        lemma_base64_len(s.skip(3));
    }
}

} // verus!
