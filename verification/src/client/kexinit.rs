//! The algorithms that a client offers in its KEXINIT.

use super::{names_of, AlgoOverrides};
use crate::config::algos::{extend_with, extended, kex_methods, kex_names, owned};
use crate::text::{clone_strings, views};
use crate::transport::kex::{
    is_strict_kex_marker, strict_kex_marker, CERT_KEY, CIPHERS, COMP, HOST_KEY, KEX, MACS,
};
use purecrypto::rng::RngCore;
use vstd::prelude::*;

verus! {

/// A KEXINIT: for each of the things to agree on, what one side offers, in
/// order of preference.
#[derive(Debug)]
pub struct KexInit {
    /// Random bytes that make the exchange unique.
    pub cookie: [u8; 16],
    /// Key-exchange methods, and markers.
    pub kex: Vec<String>,
    /// Host-key algorithms.
    pub server_host_key: Vec<String>,
    /// Ciphers, client to server.
    pub ciphers_c2s: Vec<String>,
    /// Ciphers, server to client.
    pub ciphers_s2c: Vec<String>,
    /// Message authentication codes, client to server.
    pub macs_c2s: Vec<String>,
    /// Message authentication codes, server to client.
    pub macs_s2c: Vec<String>,
    /// Compression methods, client to server.
    pub comp_c2s: Vec<String>,
    /// Compression methods, server to client.
    pub comp_s2c: Vec<String>,
    /// Languages, client to server.
    pub lang_c2s: Vec<String>,
    /// Languages, server to client.
    pub lang_s2c: Vec<String>,
}

/// The lists of a [`KexInit`].
#[verifier::ext_equal]
pub ghost struct Offer {
    pub kex: Seq<Seq<char>>,
    pub server_host_key: Seq<Seq<char>>,
    pub ciphers_c2s: Seq<Seq<char>>,
    pub ciphers_s2c: Seq<Seq<char>>,
    pub macs_c2s: Seq<Seq<char>>,
    pub macs_s2c: Seq<Seq<char>>,
    pub comp_c2s: Seq<Seq<char>>,
    pub comp_s2c: Seq<Seq<char>>,
    pub lang_c2s: Seq<Seq<char>>,
    pub lang_s2c: Seq<Seq<char>>,
}

impl View for KexInit {
    type V = Offer;

    open spec fn view(&self) -> Offer {
        Offer {
            kex: views(self.kex@),
            server_host_key: views(self.server_host_key@),
            ciphers_c2s: views(self.ciphers_c2s@),
            ciphers_s2c: views(self.ciphers_s2c@),
            macs_c2s: views(self.macs_c2s@),
            macs_s2c: views(self.macs_s2c@),
            comp_c2s: views(self.comp_c2s@),
            comp_s2c: views(self.comp_s2c@),
            lang_c2s: views(self.lang_c2s@),
            lang_s2c: views(self.lang_s2c@),
        }
    }
}

/// The markers of the strict key exchange, in their order.
pub open spec fn strict_markers() -> Seq<Seq<char>> {
    views(KEX@).filter(|n: Seq<char>| strict_kex_marker(n))
}

/// An override, or the built-in list.
pub open spec fn chosen(over: Option<Seq<Seq<char>>>, default: Seq<Seq<char>>) -> Seq<Seq<char>> {
    match over {
        Some(names) => names,
        None => default,
    }
}

/// What is offered with these overrides. The strict markers follow whatever
/// key-exchange methods there are; certificates are offered ahead of plain
/// host keys, unless an override says otherwise; compression is off, unless
/// it was asked for.
pub open spec fn offer(over: AlgoOverrides) -> Offer {
    let ciphers = chosen(names_of(over.ciphers), views(CIPHERS@));
    let macs = chosen(names_of(over.macs), views(MACS@));
    let comp = if over.compression == Some(true) {
        seq!["zlib@openssh.com"@, "none"@]
    } else {
        views(COMP@)
    };
    Offer {
        kex: extended(chosen(names_of(over.kex_algorithms), kex_methods()), strict_markers()),
        server_host_key: chosen(
            names_of(over.host_key_algorithms),
            views(CERT_KEY@) + views(HOST_KEY@),
        ),
        ciphers_c2s: ciphers,
        ciphers_s2c: ciphers,
        macs_c2s: macs,
        macs_s2c: macs,
        comp_c2s: comp,
        comp_s2c: comp,
        lang_c2s: Seq::empty(),
        lang_s2c: Seq::empty(),
    }
}

/// An override, or the built-in list, as an owned list.
pub fn owned_or_default(over: &Option<Vec<String>>, default: &[&str]) -> (r: Vec<String>)
    ensures
        views(r@) == chosen(names_of(*over), views(default@)),
{
    match over {
        Some(v) => clone_strings(v.as_slice()),
        None => owned(default),
    }
}

/// The markers of the strict key exchange.
fn marker_names() -> (r: Vec<String>)
    ensures
        views(r@) == strict_markers(),
{
    let ghost keep = |n: Seq<char>| strict_kex_marker(n);
    let mut out: Vec<String> = Vec::new();
    let mut i: usize = 0;
    assert(views(KEX@).take(0) =~= Seq::<Seq<char>>::empty());
    assert(views(out@) =~= views(KEX@).take(0).filter(keep)) by {
        reveal(Seq::filter);
    }
    while i < 9
        invariant
            i <= 9,
            KEX@.len() == 9,
            keep == (|n: Seq<char>| strict_kex_marker(n)),
            views(out@) == views(KEX@).take(i as int).filter(keep),
        decreases 9 - i,
    {
        let ghost before = out@;
        let name = KEX[i];
        if is_strict_kex_marker(name) {
            out.push(name.to_owned());
            assert(views(out@) =~= views(before).push(name@));
        }
        proof {
            let next = views(KEX@).take(i + 1);
            assert(next.drop_last() =~= views(KEX@).take(i as int));
            assert(next.last() == name@);
            reveal(Seq::filter);
        }
        i += 1;
    }
    assert(views(KEX@).take(9) =~= views(KEX@));
    out
}

/// The compression methods to offer.
fn compression_names(over: &AlgoOverrides) -> (r: Vec<String>)
    ensures
        views(r@) == offer(*over).comp_c2s,
{
    if let Some(true) = over.compression {
        let mut v: Vec<String> = Vec::new();
        v.push("zlib@openssh.com".to_owned());
        v.push("none".to_owned());
        assert(views(v@) =~= seq!["zlib@openssh.com"@, "none"@]);
        v
    } else {
        owned(&COMP)
    }
}

/// The KEXINIT to send with these overrides and this cookie.
pub fn build_kexinit(over: &AlgoOverrides, cookie: [u8; 16]) -> (r: KexInit)
    ensures
        r@ == offer(*over),
        r.cookie == cookie,
{
    let methods = kex_names();
    let mut kex = owned_or_default(&over.kex_algorithms, methods.as_slice());
    let markers = marker_names();
    extend_with(&mut kex, markers.as_slice());
    let ciphers = owned_or_default(&over.ciphers, &CIPHERS);
    let macs = owned_or_default(&over.macs, &MACS);
    let server_host_key = match &over.host_key_algorithms {
        Some(v) => clone_strings(v.as_slice()),
        None => {
            let mut v = owned(&CERT_KEY);
            let ghost certs = views(v@);
            let mut plain = owned(&HOST_KEY);
            let ghost keys = views(plain@);
            v.append(&mut plain);
            assert(views(v@) =~= certs + keys);
            v
        },
    };
    let lang_c2s: Vec<String> = Vec::new();
    let lang_s2c: Vec<String> = Vec::new();
    assert(views(lang_c2s@) =~= Seq::empty());
    assert(views(lang_s2c@) =~= Seq::empty());
    KexInit {
        cookie,
        kex,
        server_host_key,
        ciphers_c2s: clone_strings(ciphers.as_slice()),
        ciphers_s2c: ciphers,
        macs_c2s: clone_strings(macs.as_slice()),
        macs_s2c: macs,
        comp_c2s: compression_names(over),
        comp_s2c: compression_names(over),
        lang_c2s,
        lang_s2c,
    }
}

/// Sixteen bytes from `purecrypto::rng::OsRng`, the generator of the
/// operating system. Nothing is claimed of them. The outside function panics
/// where the system has no randomness to give.
#[verifier::external_body]
fn random_cookie() -> (r: [u8; 16]) {
    let mut cookie = [0u8; 16];
    purecrypto::rng::OsRng.fill_bytes(&mut cookie);
    cookie
}

/// The KEXINIT to send with these overrides, under a fresh cookie.
pub fn build_default_kexinit(over: &AlgoOverrides) -> (r: KexInit)
    ensures
        r@ == offer(*over),
{
    build_kexinit(over, random_cookie())
}

/// Whatever the overrides say, both strict markers are offered: nothing that
/// is configured can turn the strict key exchange off.
pub proof fn lemma_markers_are_always_offered(over: AlgoOverrides, name: Seq<char>)
    requires
        strict_kex_marker(name),
    ensures
        offer(over).kex.contains(name),
{
    let base = chosen(names_of(over.kex_algorithms), kex_methods());
    lemma_markers_listed(name);
    crate::config::algos::lemma_extended(base, strict_markers());
}

/// Both markers are among the markers.
proof fn lemma_markers_listed(name: Seq<char>)
    requires
        strict_kex_marker(name),
    ensures
        strict_markers().contains(name),
{
    let all = views(KEX@);
    let keep = |n: Seq<char>| strict_kex_marker(n);
    assert(all[7] == "kex-strict-c-v00@openssh.com"@);
    assert(all[8] == "kex-strict-s-v00@openssh.com"@);
    assert(all.contains(name));
    all.filter_lemma(keep);
    let i = choose|i: int| 0 <= i < all.len() && all[i] == name;
    assert(keep(all[i]));
    assert(all.filter(keep).contains(all[i]));
}

/// Overriding one list leaves the others as they are, except for the two
/// directions of the same list.
pub proof fn lemma_overrides_are_independent(over: AlgoOverrides, ciphers: Option<Vec<String>>)
    ensures
        ({
            let a = offer(over);
            let b = offer(AlgoOverrides { ciphers, ..over });
            &&& b == (Offer { ciphers_c2s: b.ciphers_c2s, ciphers_s2c: b.ciphers_c2s, ..a })
            &&& ciphers matches Some(v) ==> b.ciphers_c2s == views(v@)
        }),
{
}

/// The strict variant of the exchange is announced, from both sides' names for
/// it, whatever methods are asked for.
pub proof fn lemma_strict_exchange_is_announced(over: AlgoOverrides)
    ensures
        offer(over).kex.contains("kex-strict-c-v00@openssh.com"@),
        offer(over).kex.contains("kex-strict-s-v00@openssh.com"@),
{
    lemma_markers_are_always_offered(over, "kex-strict-c-v00@openssh.com"@);
    lemma_markers_are_always_offered(over, "kex-strict-s-v00@openssh.com"@);
}

/// Whether a list of names is another one, name for name.
pub open spec fn same_names(a: Seq<String>, b: Seq<String>) -> bool {
    a.len() == b.len() && forall|i: int| 0 <= i < a.len() ==> (#[trigger] a[i])@ == b[i]@
}

/// Whether a list of names is these, name for name.
pub open spec fn these_names(a: Seq<String>, b: Seq<Seq<char>>) -> bool {
    a.len() == b.len() && forall|i: int| 0 <= i < a.len() ==> (#[trigger] a[i])@ == b[i]
}

/// A KEXINIT offers what the user has set, in the user's order and in both
/// directions, and what is built in where nothing is set.
pub proof fn lemma_overrides_are_honoured(over: AlgoOverrides, k: KexInit)
    requires
        k@ == offer(over),
    ensures
        match over.ciphers {
            Some(v) => same_names(k.ciphers_c2s@, v@) && same_names(k.ciphers_s2c@, v@),
            None => these_names(k.ciphers_c2s@, builtin_ciphers()) && these_names(
                k.ciphers_s2c@,
                builtin_ciphers(),
            ),
        },
        match over.macs {
            Some(v) => same_names(k.macs_c2s@, v@) && same_names(k.macs_s2c@, v@),
            None => these_names(k.macs_c2s@, builtin_macs()) && these_names(
                k.macs_s2c@,
                builtin_macs(),
            ),
        },
        match over.host_key_algorithms {
            Some(v) => same_names(k.server_host_key@, v@),
            None => these_names(k.server_host_key@, builtin_host_keys()),
        },
        match over.compression {
            Some(true) => these_names(k.comp_c2s@, seq!["zlib@openssh.com"@, "none"@])
                && these_names(k.comp_s2c@, seq!["zlib@openssh.com"@, "none"@]),
            _ => these_names(k.comp_c2s@, seq!["none"@]) && these_names(
                k.comp_s2c@,
                seq!["none"@],
            ),
        },
        k.lang_c2s@.len() == 0,
        k.lang_s2c@.len() == 0,
{
    lemma_views_index(k.ciphers_c2s@);
    lemma_views_index(k.ciphers_s2c@);
    lemma_views_index(k.macs_c2s@);
    lemma_views_index(k.macs_s2c@);
    lemma_views_index(k.server_host_key@);
    lemma_views_index(k.comp_c2s@);
    lemma_views_index(k.comp_s2c@);
    lemma_views_index(k.lang_c2s@);
    lemma_views_index(k.lang_s2c@);
    if let Some(v) = over.ciphers {
        lemma_views_index(v@);
    } else {
        assert(views(CIPHERS@) =~= builtin_ciphers());
    }
    if let Some(v) = over.macs {
        lemma_views_index(v@);
    } else {
        assert(views(MACS@) =~= builtin_macs());
    }
    if let Some(v) = over.host_key_algorithms {
        lemma_views_index(v@);
    } else {
        assert(views(CERT_KEY@) + views(HOST_KEY@) =~= builtin_host_keys());
    }
    assert(views(COMP@) =~= seq!["none"@]);
}

proof fn lemma_views_index(s: Seq<String>)
    ensures
        views(s).len() == s.len(),
        forall|i: int| 0 <= i < s.len() ==> (#[trigger] s[i])@ == views(s)[i],
{
}

/// The key-exchange methods that are offered are those that the user has set,
/// or else the built-in ones, first and in their order; behind them stand the
/// two markers of the strict exchange, and nothing else.
pub proof fn lemma_methods_come_first(over: AlgoOverrides, k: KexInit)
    requires
        k@ == offer(over),
    ensures
        ({
            let methods = match over.kex_algorithms {
                Some(v) => Seq::new(v@.len(), |i: int| v@[i]@),
                None => builtin_methods(),
            };
            &&& k.kex@.len() >= methods.len()
            &&& forall|i: int| 0 <= i < methods.len() ==> (#[trigger] k.kex@[i])@ == methods[i]
            &&& forall|i: int|
                methods.len() <= i < k.kex@.len() ==> (#[trigger] k.kex@[i])@
                    == "kex-strict-c-v00@openssh.com"@ || k.kex@[i]@
                    == "kex-strict-s-v00@openssh.com"@
        }),
{
    let methods = match over.kex_algorithms {
        Some(v) => Seq::new(v@.len(), |i: int| v@[i]@),
        None => builtin_methods(),
    };
    let base = chosen(names_of(over.kex_algorithms), kex_methods());
    lemma_builtin_methods();
    assert(base =~= methods);
    let all = offer(over).kex;
    lemma_extension_is_new(base, strict_markers());
    crate::config::algos::lemma_extended(base, strict_markers());
    lemma_views_index(k.kex@);
    assert forall|i: int| methods.len() <= i < k.kex@.len() implies (#[trigger] k.kex@[i])@
        == "kex-strict-c-v00@openssh.com"@ || k.kex@[i]@ == "kex-strict-s-v00@openssh.com"@ by {
        assert(strict_markers().contains(all[i]));
        let keep = |n: Seq<char>| strict_kex_marker(n);
        views(KEX@).filter_lemma(keep);
        let j = strict_markers().index_of(all[i]);
        assert(keep(views(KEX@).filter(keep)[j]));
    }
}

/// What stands behind the list that was extended comes from the extension.
proof fn lemma_extension_is_new(base: Seq<Seq<char>>, more: Seq<Seq<char>>)
    ensures
        ({
            let all = extended(base, more);
            &&& all.len() >= base.len()
            &&& forall|i: int| base.len() <= i < all.len() ==> more.contains(#[trigger] all[i])
        }),
    decreases more.len(),
{
    if more.len() > 0 {
        let rest = more.skip(1);
        let grown = if base.contains(more[0]) {
            base
        } else {
            base.push(more[0])
        };
        lemma_extension_is_new(grown, rest);
        crate::config::algos::lemma_extended(grown, rest);
        let all = extended(base, more);
        assert forall|i: int| base.len() <= i < all.len() implies more.contains(
            #[trigger] all[i],
        ) by {
            if i < grown.len() {
                assert(all[i] == grown[i]);
                assert(more[0] == all[i]);
            } else {
                let j = rest.index_of(all[i]);
                assert(more[j + 1] == all[i]);
            }
        }
    }
}

/// The built-in methods are the names in the catalogue, without the markers.
pub proof fn lemma_builtin_methods()
    ensures
        kex_methods() == builtin_methods(),
{
    let keep = |n: Seq<char>| !strict_kex_marker(n);
    let all = views(KEX@);
    reveal_strlit("kex-strict-c-v00@openssh.com");
    reveal_strlit("kex-strict-s-v00@openssh.com");
    reveal_strlit("curve25519-sha256");
    reveal_strlit("curve25519-sha256@libssh.org");
    reveal_strlit("ecdh-sha2-nistp256");
    reveal_strlit("ecdh-sha2-nistp384");
    reveal_strlit("ecdh-sha2-nistp521");
    reveal_strlit("diffie-hellman-group16-sha512");
    reveal_strlit("diffie-hellman-group14-sha256");
    assert("kex-strict-c-v00@openssh.com"@[0] == 'k');
    assert("kex-strict-s-v00@openssh.com"@[0] == 'k');
    let methods = builtin_methods();
    assert forall|i: int| 0 <= i < 7 implies #[trigger] methods[i][0] != 'k' by {
        assert("curve25519-sha256"@[0] == 'c');
        assert("curve25519-sha256@libssh.org"@[0] == 'c');
        assert("ecdh-sha2-nistp256"@[0] == 'e');
        assert("ecdh-sha2-nistp384"@[0] == 'e');
        assert("ecdh-sha2-nistp521"@[0] == 'e');
        assert("diffie-hellman-group16-sha512"@[0] == 'd');
        assert("diffie-hellman-group14-sha256"@[0] == 'd');
    }
    assert(all =~= methods + seq![
        "kex-strict-c-v00@openssh.com"@,
        "kex-strict-s-v00@openssh.com"@,
    ]);
    assert forall|n: int| 0 <= n <= 7 implies #[trigger] all.take(n).filter(keep)
        == methods.take(n) by {
        lemma_all_kept(all.take(n), keep);
        assert(all.take(n) =~= methods.take(n));
    }
    reveal_with_fuel(Seq::filter, 3);
    assert(all.drop_last().drop_last() =~= all.take(7));
    assert(all.take(7).filter(keep) == methods.take(7));
    assert(methods.take(7) =~= methods);
    assert(!keep(all.last()));
    assert(!keep(all.drop_last().last()));
    assert(all.drop_last().filter(keep) == all.drop_last().drop_last().filter(keep));
    assert(all.filter(keep) == all.drop_last().filter(keep));
}

proof fn lemma_all_kept(s: Seq<Seq<char>>, keep: spec_fn(Seq<char>) -> bool)
    requires
        forall|i: int| 0 <= i < s.len() ==> keep(#[trigger] s[i]),
    ensures
        s.filter(keep) == s,
    decreases s.len(),
{
    reveal(Seq::filter);
    if s.len() > 0 {
        lemma_all_kept(s.drop_last(), keep);
        assert(s =~= s.drop_last().push(s.last()));
    } else {
        assert(s.filter(keep) =~= s);
    }
}

/// The ciphers that are built in, in order of preference.
pub open spec fn builtin_ciphers() -> Seq<Seq<char>> {
    seq![
        "chacha20-poly1305@openssh.com"@,
        "aes256-gcm@openssh.com"@,
        "aes128-gcm@openssh.com"@,
        "aes256-ctr"@,
        "aes192-ctr"@,
        "aes128-ctr"@,
    ]
}

/// The message authentication codes that are built in.
pub open spec fn builtin_macs() -> Seq<Seq<char>> {
    seq![
        "hmac-sha2-256-etm@openssh.com"@,
        "hmac-sha2-512-etm@openssh.com"@,
        "hmac-sha2-256"@,
        "hmac-sha2-512"@,
    ]
}

/// The host-key algorithms that are built in: certificates before plain keys.
pub open spec fn builtin_host_keys() -> Seq<Seq<char>> {
    seq![
        "ssh-ed25519-cert-v01@openssh.com"@,
        "ecdsa-sha2-nistp256-cert-v01@openssh.com"@,
        "ecdsa-sha2-nistp384-cert-v01@openssh.com"@,
        "ecdsa-sha2-nistp521-cert-v01@openssh.com"@,
        "rsa-sha2-512-cert-v01@openssh.com"@,
        "rsa-sha2-256-cert-v01@openssh.com"@,
        "ssh-ed25519"@,
        "ecdsa-sha2-nistp256"@,
        "ecdsa-sha2-nistp384"@,
        "ecdsa-sha2-nistp521"@,
        "rsa-sha2-512"@,
        "rsa-sha2-256"@,
    ]
}

/// The key-exchange methods that are built in.
pub open spec fn builtin_methods() -> Seq<Seq<char>> {
    seq![
        "curve25519-sha256"@,
        "curve25519-sha256@libssh.org"@,
        "ecdh-sha2-nistp256"@,
        "ecdh-sha2-nistp384"@,
        "ecdh-sha2-nistp521"@,
        "diffie-hellman-group16-sha512"@,
        "diffie-hellman-group14-sha256"@,
    ]
}

} // verus!
