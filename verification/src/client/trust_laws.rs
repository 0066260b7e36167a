//! Whom a client trusts, what it shows of a key, what it copies and what it says
//! of its terminal.

use super::fingerprint::{banner_lines, base64, base64_digit, fingerprint, sha256_digest};
use super::scp::{command, sole_name};
use super::termios::{
    character_modes, control_modes, flag_modes, mode, modes, on_off, slot, Termios, TermiosLayout,
    CONTROL_CHARACTERS, INPUT_MODES, LOCAL_MODES, OUTPUT_MODES,
};
use super::verify::{
    answer, certificate_step, first_step, reply_key, verdict, HostKeyStepView, LookupResult,
};
use super::{HostKeyPolicy, KnownHostsPolicy};
use crate::channel::layout::{begins_with_bytes, begins_with_number, lemma_number_begins};
use crate::error::Error;
use crate::text::{decimal, lemma_last_index};
use vstd::prelude::*;

verus! {

/// The host key of a reply is what stands behind the message number, as long as
/// its length says.
pub proof fn lemma_reply_key_is_the_first_string(reply: Seq<u8>, key: Seq<u8>)
    requires
        reply.len() >= 1,
        key.len() <= u32::MAX,
        begins_with_bytes(reply.skip(1), key),
    ensures
        reply_key(reply) == Ok::<Seq<u8>, Error>(key),
{
    let body = reply.skip(1);
    assert(body[0] == reply[1] && body[1] == reply[2] && body[2] == reply[3] && body[3]
        == reply[4]);
    assert(reply.subrange(5, 5 + key.len() as int) =~= body.subrange(4, 4 + key.len() as int));
}

/// A key on file is accepted and nobody is bothered; a key that is not is
/// accepted, asked about or refused as the policy for unknown hosts says, and a
/// key other than the one on file as the policy for changed keys says, after a
/// warning. What is accepted without being asked about is remembered, except
/// where a changed key is tolerated.
pub proof fn lemma_policies_decide<S>(policy: KnownHostsPolicy<S>)
    ensures
        ({
            let known = verdict(policy, LookupResult::Match);
            let new = verdict(policy, LookupResult::Unknown);
            let changed = verdict(policy, LookupResult::Mismatch);
            &&& known.step is Accept && !known.warn && !known.note
            &&& !new.warn && !new.note
            &&& changed.warn
            &&& new.step is Refuse <==> policy.on_unknown is Reject
            &&& new.step is Ask <==> policy.on_unknown is Prompt
            &&& new.step is Add <==> policy.on_unknown is Accept
                || policy.on_unknown is AcceptWithWarning
            &&& changed.step is Refuse <==> policy.on_mismatch is Reject
            &&& changed.step is Ask <==> policy.on_mismatch is Prompt
            &&& changed.step is Replace <==> policy.on_mismatch is Accept
            &&& changed.step is Accept <==> policy.on_mismatch is AcceptWithWarning
            &&& changed.note <==> policy.on_mismatch is AcceptWithWarning
        }),
        answer(LookupResult::Unknown, true) is Add,
        answer(LookupResult::Mismatch, true) is Replace,
        forall|found: LookupResult| #[trigger] answer(found, false) is Refuse,
{
}

/// Which check a key goes through: none where every key is trusted, that of its
/// own digest where one is pinned, that of the store where there is one; and a
/// certificate is always looked at as one.
pub proof fn lemma_policies_check<S>(
    reply: Seq<u8>,
    policy: HostKeyPolicy<S>,
    algorithm: Seq<char>,
    host: Seq<char>,
    port: u16,
    digest: Seq<u8>,
    authorities: Seq<Seq<char>>,
)
    requires
        reply_key(reply) is Ok,
        host.len() > 0 && port != 0,
    ensures
        ({
            let step = first_step(reply, policy, Some(algorithm), host, port, digest);
            let cert = certificate_step(policy, digest, Some(authorities));
            let certified = algorithm == "ssh-ed25519-cert-v01@openssh.com"@ || algorithm
                == "ecdsa-sha2-nistp256-cert-v01@openssh.com"@ || algorithm
                == "ecdsa-sha2-nistp384-cert-v01@openssh.com"@ || algorithm
                == "ecdsa-sha2-nistp521-cert-v01@openssh.com"@ || algorithm
                == "rsa-sha2-512-cert-v01@openssh.com"@ || algorithm
                == "rsa-sha2-256-cert-v01@openssh.com"@;
            &&& certified ==> step == Ok::<HostKeyStepView, Error>(
                HostKeyStepView::ParseCertificate,
            )
            &&& !certified ==> match policy {
                HostKeyPolicy::AcceptAny => step == Ok::<HostKeyStepView, Error>(
                    HostKeyStepView::Accept,
                ),
                HostKeyPolicy::AcceptFingerprint(fp) => (step == Ok::<HostKeyStepView, Error>(
                    HostKeyStepView::Accept,
                ) <==> digest == fp@) && (digest != fp@ ==> step == Err::<HostKeyStepView, Error>(
                    Error::HostKeyRejected,
                )),
                HostKeyPolicy::KnownHosts(_) => step == Ok::<HostKeyStepView, Error>(
                    HostKeyStepView::LookUp,
                ),
            }
            &&& match policy {
                HostKeyPolicy::AcceptAny => cert == Ok::<HostKeyStepView, Error>(
                    HostKeyStepView::CheckCertificate,
                ),
                HostKeyPolicy::AcceptFingerprint(fp) => cert is Ok <==> digest == fp@,
                HostKeyPolicy::KnownHosts(_) => cert == Ok::<HostKeyStepView, Error>(
                    HostKeyStepView::VerifyCertificate { ca_algorithms: authorities },
                ),
            }
        }),
{
    let names = crate::text::views(crate::transport::kex::CERT_KEY@);
    assert(names =~= seq![
        "ssh-ed25519-cert-v01@openssh.com"@,
        "ecdsa-sha2-nistp256-cert-v01@openssh.com"@,
        "ecdsa-sha2-nistp384-cert-v01@openssh.com"@,
        "ecdsa-sha2-nistp521-cert-v01@openssh.com"@,
        "rsa-sha2-512-cert-v01@openssh.com"@,
        "rsa-sha2-256-cert-v01@openssh.com"@,
    ]);
    assert(names.contains(names[0]) && names.contains(names[1]) && names.contains(names[2])
        && names.contains(names[3]) && names.contains(names[4]) && names.contains(names[5]));
}

/// The value of a base-64 digit: letters in upper case, then in lower case, then
/// digits, `+` and `/`.
pub open spec fn digit_value(c: char) -> int {
    if 'A' <= c <= 'Z' {
        c as int - 'A' as int
    } else if 'a' <= c <= 'z' {
        c as int - 'a' as int + 26
    } else if '0' <= c <= '9' {
        c as int - '0' as int + 52
    } else if c == '+' {
        62
    } else {
        63
    }
}

proof fn lemma_digit_value(v: int)
    requires
        0 <= v < 64,
    ensures
        digit_value(base64_digit(v)) == v,
{
}

/// Four digits of base 64 are the same number as the three bytes that they stand
/// for, most significant first; what is left over at the end has its bits in the
/// front of its digits.
pub proof fn lemma_base64_is_the_same_number(s: Seq<u8>)
    requires
        s.len() > 0,
    ensures
        ({
            let t = base64(s);
            &&& s.len() >= 3 ==> {
                &&& t.len() >= 4
                &&& digit_value(t[0]) * 0x4_0000 + digit_value(t[1]) * 0x1000 + digit_value(t[2])
                    * 0x40 + digit_value(t[3]) == s[0] * 0x1_0000 + s[1] * 0x100 + s[2]
                &&& t.skip(4) == base64(s.skip(3))
            }
            &&& s.len() == 2 ==> {
                &&& t.len() == 3
                &&& digit_value(t[0]) * 0x4_0000 + digit_value(t[1]) * 0x1000 + digit_value(t[2])
                    * 0x40 == s[0] * 0x1_0000 + s[1] * 0x100
            }
            &&& s.len() == 1 ==> {
                &&& t.len() == 2
                &&& digit_value(t[0]) * 0x4_0000 + digit_value(t[1]) * 0x1000 == s[0] * 0x1_0000
            }
        }),
{
    lemma_digit_value(s[0] as int / 4);
    if s.len() == 1 {
        lemma_digit_value(s[0] as int % 4 * 16);
    } else {
        lemma_digit_value(s[0] as int % 4 * 16 + s[1] as int / 16);
        if s.len() == 2 {
            lemma_digit_value(s[1] as int % 16 * 4);
        } else {
            lemma_digit_value(s[1] as int % 16 * 4 + s[2] as int / 64);
            lemma_digit_value(s[2] as int % 64);
            assert(base64(s).skip(4) =~= base64(s.skip(3)));
        }
    }
}

/// A fingerprint is shown as the name of the digest and its base-64 text, and the
/// warning ends with that of the new key, after those of the keys on file.
pub proof fn lemma_warnings_show_both_keys(
    host: Seq<char>,
    port: u16,
    expected: Seq<(Seq<char>, Seq<u8>)>,
    new_type: Seq<char>,
    new_blob: Seq<u8>,
    i: int,
)
    ensures
        ({
            let lines = banner_lines(host, port, expected, new_type, new_blob);
            let n: int = if expected.len() == 0 {
                1
            } else {
                expected.len() as int
            };
            &&& lines.len() == 7 + n + 1
            &&& lines.last() == "New fingerprint: "@ + ("SHA256:"@ + base64(
                sha256_digest(new_blob),
            )) + " ("@ + new_type + ")"@
            &&& 0 <= i < expected.len() ==> lines[7 + i] == "Old fingerprint: "@ + ("SHA256:"@
                + base64(sha256_digest(expected[i].1))) + " ("@ + expected[i].0 + ")"@
            &&& expected.len() == 0 ==> lines[7] == "Old fingerprint: <none on file>"@
            &&& lines[6] == "The host key for "@ + (if port == 22 {
                host
            } else {
                "["@ + host + "]:"@ + decimal(port as nat)
            })
                + " has changed; the known_hosts entry does not match what the server presented."@
        }),
{
}

/// A path that a shell could take for something else is refused, and only such a
/// path; any other stands in single quotes at the end of the command, behind the
/// options that were asked for.
pub proof fn lemma_copy_commands(
    start: Seq<char>,
    path: Seq<char>,
    recursive: bool,
    preserve_times: bool,
)
    ensures
        ({
            let c = command(start, path, recursive, preserve_times);
            let odd = path.contains('\'') || path.contains('\n') || path.contains('\0') || (
            path.len() > 0 && path[0] == '-');
            let quoted = seq!['\''] + path + seq!['\''];
            &&& c is Err <==> odd
            &&& !odd && !recursive && !preserve_times ==> c->Ok_0 == start + " -- "@ + quoted
            &&& !odd && recursive && !preserve_times ==> c->Ok_0 == start + " -r"@ + " -- "@
                + quoted
            &&& !odd && !recursive && preserve_times ==> c->Ok_0 == start + " -p"@ + " -- "@
                + quoted
            &&& !odd && recursive && preserve_times ==> c->Ok_0 == start + " -r"@ + " -p"@
                + " -- "@ + quoted
        }),
{
    let none = Seq::<char>::empty();
    assert(start + none =~= start);
    assert(start + " -r"@ + none =~= start + " -r"@);
}

/// The one name that a server may send for a plain path is what stands behind the
/// last slash.
pub proof fn lemma_expected_name_is_the_last_part(dir: Seq<char>, name: Seq<char>)
    requires
        name.len() > 0,
        forall|i: int|
            0 <= i < name.len() ==> (#[trigger] name[i]) != '/' && name[i] != '*' && name[i] != '?'
                && name[i] != '[',
    ensures
        sole_name(name, false) == Some(name),
        sole_name(dir + seq!['/'] + name, false) == Some(name),
        sole_name(name, true) is None,
{
    let path = dir + seq!['/'] + name;
    let n = dir.len() as int;
    lemma_last_index(path, '/');
    lemma_last_index(name, '/');
    assert(path[n] == '/');
    assert(path.contains('/'));
    assert forall|k: int| n < k < path.len() implies path[k] != '/' by {
        assert(path[k] == name[k - n - 1]);
    }
    assert(path.skip(n + 1) =~= name);
    assert(!name.contains('/') && !name.contains('*') && !name.contains('?') && !name.contains(
        '[',
    ));
}

/// The modes of a terminal by position: each takes five bytes, its number and
/// then its value. The first 13 are the control characters, then come 11 flags
/// of input, 11 local ones and 5 of output, the character size and parity, and
/// the two speeds.
pub proof fn lemma_modes_by_position(t: Termios, layout: TermiosLayout, k: int)
    requires
        0 <= k < 46,
    ensures
        ({
            let all = modes(t, layout);
            let (op, value): (int, u32) = if k < 13 {
                (
                    if k < 10 {
                        k + 1
                    } else {
                        k + 2
                    },
                    slot(t.c_cc@, layout.slots@[k] as int),
                )
            } else if k < 24 {
                (
                    if k < 20 {
                        k - 13 + 30
                    } else {
                        k - 13 + 32
                    },
                    on_off(t.c_iflag & layout.input@[k - 13] != 0),
                )
            } else if k < 35 {
                (
                    if k < 26 {
                        k - 24 + 50
                    } else {
                        k - 24 + 51
                    },
                    on_off(t.c_lflag & layout.local@[k - 24] != 0),
                )
            } else if k < 40 {
                (
                    if k < 36 {
                        70
                    } else {
                        k - 35 + 71
                    },
                    on_off(t.c_oflag & layout.output@[k - 35] != 0),
                )
            } else if k == 40 {
                (90, on_off(t.c_cflag & layout.control@[0] == layout.control@[1]))
            } else if k == 41 {
                (91, on_off(t.c_cflag & layout.control@[0] == layout.control@[2]))
            } else if k == 42 {
                (92, on_off(t.c_cflag & layout.control@[3] != 0))
            } else if k == 43 {
                (93, on_off(t.c_cflag & layout.control@[4] != 0))
            } else if k == 44 {
                (128, 38400)
            } else {
                (129, 38400)
            };
            &&& all.len() == 231
            &&& all[5 * k] == op
            &&& begins_with_number(all.skip(5 * k + 1), value)
            &&& all[230] == 0
        }),
        on_off(true) == 1 && on_off(false) == 0,
        forall|i: int| 0 <= i < t.c_cc@.len() ==> #[trigger] slot(t.c_cc@, i) == t.c_cc@[i],
{
    super::termios::lemma_modes_shape(t, layout);
    let all = modes(t, layout);
    let a = character_modes(t.c_cc@, layout.slots@, 13);
    let b = flag_modes(INPUT_MODES@, t.c_iflag, layout.input@, 11);
    let c = flag_modes(LOCAL_MODES@, t.c_lflag, layout.local@, 11);
    let d = flag_modes(OUTPUT_MODES@, t.c_oflag, layout.output@, 5);
    lemma_characters_at(t.c_cc@, layout.slots@, 13, if k < 13 {
        k
    } else {
        0
    });
    lemma_flags_at(INPUT_MODES@, t.c_iflag, layout.input@, 11, if 13 <= k < 24 {
        k - 13
    } else {
        0
    });
    lemma_flags_at(LOCAL_MODES@, t.c_lflag, layout.local@, 11, if 24 <= k < 35 {
        k - 24
    } else {
        0
    });
    lemma_flags_at(OUTPUT_MODES@, t.c_oflag, layout.output@, 5, if 35 <= k < 40 {
        k - 35
    } else {
        0
    });
    let e = control_modes(t.c_cflag, layout.control@);
    assert(e.len() == 20);
    assert(all.len() == 231);
    let part = all.subrange(5 * k, 5 * k + 5);
    if k < 13 {
        assert(part =~= a.subrange(5 * k, 5 * k + 5));
        lemma_mode(CONTROL_CHARACTERS@[k], slot(t.c_cc@, layout.slots@[k] as int), all, 5 * k);
    } else if k < 24 {
        let j = k - 13;
        assert(part =~= b.subrange(5 * j, 5 * j + 5));
        lemma_mode(INPUT_MODES@[j], on_off(t.c_iflag & layout.input@[j] != 0), all, 5 * k);
    } else if k < 35 {
        let j = k - 24;
        assert(part =~= c.subrange(5 * j, 5 * j + 5));
        lemma_mode(LOCAL_MODES@[j], on_off(t.c_lflag & layout.local@[j] != 0), all, 5 * k);
    } else if k < 40 {
        let j = k - 35;
        assert(part =~= d.subrange(5 * j, 5 * j + 5));
        lemma_mode(OUTPUT_MODES@[j], on_off(t.c_oflag & layout.output@[j] != 0), all, 5 * k);
    } else if k == 40 {
        let v = on_off(t.c_cflag & layout.control@[0] == layout.control@[1]);
        assert(part =~= mode(90, v));
        lemma_mode(90, v, all, 5 * k);
    } else if k == 41 {
        let v = on_off(t.c_cflag & layout.control@[0] == layout.control@[2]);
        assert(part =~= mode(91, v));
        lemma_mode(91, v, all, 5 * k);
    } else if k == 42 {
        let v = on_off(t.c_cflag & layout.control@[3] != 0);
        assert(part =~= mode(92, v));
        lemma_mode(92, v, all, 5 * k);
    } else if k == 43 {
        let v = on_off(t.c_cflag & layout.control@[4] != 0);
        assert(part =~= mode(93, v));
        lemma_mode(93, v, all, 5 * k);
    } else if k == 44 {
        assert(part =~= mode(128, 38400));
        lemma_mode(128, 38400, all, 5 * k);
    } else {
        assert(part =~= mode(129, 38400));
        lemma_mode(129, 38400, all, 5 * k);
    }
}

proof fn lemma_mode(op: u8, value: u32, all: Seq<u8>, at: int)
    requires
        0 <= at && at + 5 <= all.len(),
        all.subrange(at, at + 5) == mode(op, value),
    ensures
        all[at] == op,
        begins_with_number(all.skip(at + 1), value),
{
    let part = all.subrange(at, at + 5);
    assert(part[0] == all[at]);
    lemma_number_begins(value, Seq::empty());
    let tail = all.skip(at + 1);
    assert(tail[0] == part[1] && tail[1] == part[2] && tail[2] == part[3] && tail[3] == part[4]);
    let n = crate::format::be32(value) + Seq::<u8>::empty();
    assert(n[0] == part[1] && n[1] == part[2] && n[2] == part[3] && n[3] == part[4]);
}

proof fn lemma_characters_at(cc: Seq<u8>, slots: Seq<usize>, n: nat, k: int)
    requires
        0 <= k < n,
    ensures
        character_modes(cc, slots, n).len() == 5 * n,
        character_modes(cc, slots, n).subrange(5 * k, 5 * k + 5) == mode(
            CONTROL_CHARACTERS@[k],
            slot(cc, slots[k] as int),
        ),
    decreases n,
{
    let front = character_modes(cc, slots, (n - 1) as nat);
    let last = mode(CONTROL_CHARACTERS@[n - 1], slot(cc, slots[n - 1] as int));
    let all = character_modes(cc, slots, n);
    if n == 1 {
        assert(front =~= Seq::<u8>::empty());
    } else {
        lemma_characters_at(cc, slots, (n - 1) as nat, if k < n - 1 {
            k
        } else {
            0
        });
    }
    if k == n - 1 {
        assert(all.subrange(5 * k, 5 * k + 5) =~= last);
    } else {
        assert(all.subrange(5 * k, 5 * k + 5) =~= front.subrange(5 * k, 5 * k + 5));
    }
}

proof fn lemma_flags_at(ops: Seq<u8>, flags: u64, masks: Seq<u64>, n: nat, k: int)
    requires
        0 <= k < n,
    ensures
        flag_modes(ops, flags, masks, n).len() == 5 * n,
        flag_modes(ops, flags, masks, n).subrange(5 * k, 5 * k + 5) == mode(
            ops[k],
            on_off(flags & masks[k] != 0),
        ),
    decreases n,
{
    let front = flag_modes(ops, flags, masks, (n - 1) as nat);
    let last = mode(ops[n - 1], on_off(flags & masks[n - 1] != 0));
    let all = flag_modes(ops, flags, masks, n);
    if n == 1 {
        assert(front =~= Seq::<u8>::empty());
    } else {
        lemma_flags_at(ops, flags, masks, (n - 1) as nat, if k < n - 1 {
            k
        } else {
            0
        });
    }
    if k == n - 1 {
        assert(all.subrange(5 * k, 5 * k + 5) =~= last);
    } else {
        assert(all.subrange(5 * k, 5 * k + 5) =~= front.subrange(5 * k, 5 * k + 5));
    }
}

} // verus!
