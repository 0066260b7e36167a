//! What the suites compute, byte by byte, from the key, the IV or the sequence
//! number, and the data.

use super::chachapoly::{packet_nonce, ChaChaPolyView};
use super::ctr::CtrView;
use super::gcm::{lemma_first_nonce_is_the_iv, GcmView};
use super::primitives::{
    aes128_block, aes192_block, aes256_block, chacha20_block, gcm128_tag, gcm256_tag, poly1305_tag,
};
use super::{geometry, started, SshCipherView};
use crate::format::{
    big_endian, big_endian_value, lemma_big_endian_len, lemma_value_of_big_endian8,
};
use vstd::prelude::*;

verus! {

/// AES-GCM takes the length field, or whatever else it is given to go with a
/// packet, as associated data: the tag of a packet is the GCM tag of the key,
/// the nonce, that data and the ciphertext, and this tag alone is accepted.
pub proof fn lemma_gcm_tag_covers_the_associated_data(
    state: GcmView,
    aad: Seq<u8>,
    payload: Seq<u8>,
    ciphertext: Seq<u8>,
    tag: Seq<u8>,
)
    requires
        state.valid(),
    ensures
        state.key.len() == 16 ==> state.sealed(aad, payload).1 == gcm128_tag(
            state.key,
            state.nonce(),
            aad,
            state.sealed(aad, payload).0,
        ),
        state.key.len() == 32 ==> state.sealed(aad, payload).1 == gcm256_tag(
            state.key,
            state.nonce(),
            aad,
            state.sealed(aad, payload).0,
        ),
        state.key.len() == 16 ==> (state.opened(aad, ciphertext, tag) is Some <==> tag
            == gcm128_tag(state.key, state.nonce(), aad, ciphertext)),
        state.key.len() == 32 ==> (state.opened(aad, ciphertext, tag) is Some <==> tag
            == gcm256_tag(state.key, state.nonce(), aad, ciphertext)),
{
}

/// AES-GCM encrypts each byte with the keystream that the nonce and a 32-bit
/// block counter give, which begins at 2, and decrypts it with the same.
pub proof fn lemma_gcm_keystream(
    state: GcmView,
    aad: Seq<u8>,
    payload: Seq<u8>,
    tag: Seq<u8>,
    i: int,
)
    requires
        state.valid(),
        0 <= i < payload.len(),
        payload.len() < 0x10_0000_0000 - 32,
    ensures
        ({
            let counter = state.nonce() + big_endian((2 + i / 16) as nat, 4);
            let key_byte = if state.key.len() == 16 {
                aes128_block(state.key, counter)[i % 16]
            } else {
                aes256_block(state.key, counter)[i % 16]
            };
            &&& state.sealed(aad, payload).0.len() == payload.len()
            &&& state.sealed(aad, payload).0[i] == payload[i] ^ key_byte
            &&& state.opened(aad, payload, tag) matches Some(plain) ==> plain.len()
                == payload.len() && plain[i] == payload[i] ^ key_byte
        }),
{
    assert((2 + i / 16) % 0x1_0000_0000 == 2 + i / 16);
}

/// The nonces of AES-GCM: the first is the IV, and each packet's is the one
/// before, with the number in its last eight bytes one higher.
pub proof fn lemma_gcm_nonces(key: Seq<u8>, iv: Seq<u8>, state: GcmView)
    requires
        iv.len() == 12,
        state.valid(),
        !state.exhausted(),
    ensures
        GcmView::start(key, iv).nonce() == iv,
        GcmView::start(key, iv).key == key,
        state.nonce().len() == 12,
        state.next().key == state.key,
        state.next().nonce().take(4) == state.nonce().take(4),
        big_endian_value(state.next().nonce().skip(4)) == big_endian_value(state.nonce().skip(4))
            + 1,
        state.exhausted() <==> big_endian_value(state.nonce().skip(4)) == u64::MAX,
{
    lemma_first_nonce_is_the_iv(key, iv);
    let a = state.invocation;
    let b = state.next().invocation;
    lemma_big_endian_len(a as nat, 8);
    lemma_big_endian_len(b as nat, 8);
    lemma_value_of_big_endian8(a);
    lemma_value_of_big_endian8(b);
    assert(state.nonce().take(4) =~= state.fixed);
    assert(state.next().nonce().take(4) =~= state.fixed);
    assert(state.nonce().skip(4) =~= big_endian(a as nat, 8));
    assert(state.next().nonce().skip(4) =~= big_endian(b as nat, 8));
}

/// AES-CTR encrypts byte `i` of a connection with byte `i % 16` of the AES
/// encryption of the IV, taken as a 128-bit number, plus `i / 16`, however many
/// calls the bytes before it came in.
pub proof fn lemma_ctr_keystream(key: Seq<u8>, iv: Seq<u8>, before: int, data: Seq<u8>, i: int)
    requires
        iv.len() == 16,
        key.len() == 16 || key.len() == 24 || key.len() == 32,
        0 <= before,
        0 <= i < data.len(),
    ensures
        ({
            let at = before + i;
            let counter = big_endian(
                ((big_endian_value(iv) as u128 + at / 16) % (u128::MAX + 1)) as nat,
                16,
            );
            let key_byte = if key.len() == 16 {
                aes128_block(key, counter)[at % 16]
            } else if key.len() == 24 {
                aes192_block(key, counter)[at % 16]
            } else {
                aes256_block(key, counter)[at % 16]
            };
            let out = CtrView::start(key, iv).after(before).apply(data);
            &&& out.len() == data.len()
            &&& out[i] == data[i] ^ key_byte
        }),
{
    let start = CtrView::start(key, iv);
    let first = Seq::new(before as nat, |k: int| 0u8);
    super::ctr::lemma_stream_runs_on(start, first, data);
    let whole = first + data;
    assert(start.apply(whole)[before + i] == start.after(before).apply(data)[i]);
    assert(whole[before + i] == data[i]);
    reveal(CtrView::byte);
}

/// The nonce of ChaCha20-Poly1305 is twelve bytes: four zeros, and the sequence
/// number in eight.
pub proof fn lemma_packet_nonce(seq: u64)
    ensures
        packet_nonce(seq).len() == 12,
        forall|i: int| 0 <= i < 4 ==> packet_nonce(seq)[i] == 0,
        big_endian_value(packet_nonce(seq).skip(4)) == seq,
{
    lemma_big_endian_len(seq as nat, 8);
    lemma_value_of_big_endian8(seq);
    assert(packet_nonce(seq).skip(4) =~= big_endian(seq as nat, 8));
}

/// ChaCha20-Poly1305: the second half of the key encrypts length fields with
/// the keystream from its beginning, the first half payloads from its second
/// block on, and the first 32 bytes of the first block are the key of the tag,
/// which covers the encrypted length and then the encrypted payload.
pub proof fn lemma_chacha_poly_bytes(
    key: Seq<u8>,
    seq: u64,
    data: Seq<u8>,
    i: int,
    enc_len: Seq<u8>,
    enc_payload: Seq<u8>,
)
    requires
        key.len() == 64,
        0 <= i < data.len(),
        data.len() < 0x3f_0000_0000,
    ensures
        ({
            let c = ChaChaPolyView::start(key);
            let payload_key = key.subrange(0, 32);
            let length_key = key.subrange(32, 64);
            let nonce = packet_nonce(seq);
            &&& c.length(seq, data).len() == data.len()
            &&& c.length(seq, data)[i] == data[i] ^ chacha20_block(
                length_key,
                nonce,
                (i / 64) as u32,
            )[i % 64]
            &&& c.payload(seq, data).len() == data.len()
            &&& c.payload(seq, data)[i] == data[i] ^ chacha20_block(
                payload_key,
                nonce,
                (1 + i / 64) as u32,
            )[i % 64]
            &&& c.tag(seq, enc_len, enc_payload) == poly1305_tag(
                chacha20_block(payload_key, nonce, 0).subrange(0, 32),
                enc_len + enc_payload,
            )
        }),
{
    assert(key.take(32) =~= key.subrange(0, 32));
    assert(key.skip(32) =~= key.subrange(32, 64));
    let block = chacha20_block(key.take(32), packet_nonce(seq), 0);
    assert(block.take(32) =~= block.subrange(0, 32));
}

/// Each name starts its own suite, with the key and the IV as they are, and
/// takes a key of its own length alone.
pub proof fn lemma_names_start_their_suites(key: Seq<u8>, iv: Seq<u8>)
    ensures
        started("aes128-ctr"@, key, iv) is Ok <==> key.len() == 16 && iv.len() == 16,
        started("aes192-ctr"@, key, iv) is Ok <==> key.len() == 24 && iv.len() == 16,
        started("aes256-ctr"@, key, iv) is Ok <==> key.len() == 32 && iv.len() == 16,
        started("aes128-gcm@openssh.com"@, key, iv) is Ok <==> key.len() == 16 && iv.len() == 12,
        started("aes256-gcm@openssh.com"@, key, iv) is Ok <==> key.len() == 32 && iv.len() == 12,
        started("chacha20-poly1305@openssh.com"@, key, iv) is Ok <==> key.len() == 64,
        started("aes128-ctr"@, key, iv) matches Ok(c) ==> c == SshCipherView::Ctr(
            CtrView::start(key, iv),
        ),
        started("aes192-ctr"@, key, iv) matches Ok(c) ==> c == SshCipherView::Ctr(
            CtrView::start(key, iv),
        ),
        started("aes256-ctr"@, key, iv) matches Ok(c) ==> c == SshCipherView::Ctr(
            CtrView::start(key, iv),
        ),
        started("aes128-gcm@openssh.com"@, key, iv) matches Ok(c) ==> c == SshCipherView::Gcm(
            GcmView::start(key, iv),
        ),
        started("aes256-gcm@openssh.com"@, key, iv) matches Ok(c) ==> c == SshCipherView::Gcm(
            GcmView::start(key, iv),
        ),
        started("chacha20-poly1305@openssh.com"@, key, iv) matches Ok(c) ==> c
            == SshCipherView::ChaChaPoly(ChaChaPolyView::start(key)),
{
    lemma_suite_names();
}

/// The catalogue tells a suite's key and IV by the lengths that start it, its
/// blocks by the cipher in its name, and its tags by whether it has any.
pub proof fn lemma_catalogue_is_right(name: Seq<char>, key: Seq<u8>, iv: Seq<u8>)
    ensures
        match geometry(name) {
            None => started(name, key, iv) is Err,
            Some(g) => {
                &&& started(name, key, iv) is Ok ==> key.len() == g.key_len
                &&& started(name, key, iv) is Ok && name != "chacha20-poly1305@openssh.com"@
                    ==> iv.len() == g.iv_len
                &&& key.len() == g.key_len && iv.len() == g.iv_len ==> started(name, key, iv) is Ok
                &&& started(name, key, iv) matches Ok(c) ==> (g.aead <==> !(c is Ctr))
                &&& g.block_size == if name == "chacha20-poly1305@openssh.com"@ {
                    8int
                } else {
                    16
                }
                &&& g.tag_len == if g.aead {
                    16int
                } else {
                    0
                }
                &&& name == "chacha20-poly1305@openssh.com"@ ==> g.iv_len == 8
            },
        },
        geometry("aes128-ctr"@) is Some,
        geometry("aes192-ctr"@) is Some,
        geometry("aes256-ctr"@) is Some,
        geometry("aes128-gcm@openssh.com"@) is Some,
        geometry("aes256-gcm@openssh.com"@) is Some,
        geometry("chacha20-poly1305@openssh.com"@) is Some,
{
    lemma_suite_names();
}

proof fn lemma_suite_names()
    ensures
        "aes128-ctr"@ != "aes192-ctr"@,
        "aes128-ctr"@ != "aes256-ctr"@,
        "aes192-ctr"@ != "aes256-ctr"@,
        "aes128-gcm@openssh.com"@ != "aes256-gcm@openssh.com"@,
        "aes128-ctr"@.len() == 10,
        "aes192-ctr"@.len() == 10,
        "aes256-ctr"@.len() == 10,
        "aes128-gcm@openssh.com"@.len() == 22,
        "aes256-gcm@openssh.com"@.len() == 22,
        "chacha20-poly1305@openssh.com"@.len() == 29,
{
    reveal_strlit("chacha20-poly1305@openssh.com");
    reveal_strlit("aes256-gcm@openssh.com");
    reveal_strlit("aes128-gcm@openssh.com");
    reveal_strlit("aes256-ctr");
    reveal_strlit("aes192-ctr");
    reveal_strlit("aes128-ctr");
    assert("aes256-gcm@openssh.com"@[3] == '2');
    assert("aes128-gcm@openssh.com"@[3] == '1');
    assert("aes256-ctr"@[3] == '2');
    assert("aes192-ctr"@[4] == '9');
    assert("aes128-ctr"@[3] == '1' && "aes128-ctr"@[4] == '2');
}

/// The bytes of a number come most significant first: the last is what is left
/// over by 256, and those before it are the rest.
pub proof fn lemma_most_significant_first(n: nat, width: nat, s: Seq<u8>, b: u8)
    requires
        width > 0,
    ensures
        big_endian(n, width).len() == width,
        big_endian(n, width).last() == n % 256,
        big_endian(n, width).drop_last() == big_endian(n / 256, (width - 1) as nat),
        big_endian_value(s.push(b)) == 256 * big_endian_value(s) + b,
        big_endian_value(Seq::<u8>::empty()) == 0,
{
    crate::format::lemma_big_endian_len(n, width);
    assert(big_endian(n, width).drop_last() =~= big_endian(n / 256, (width - 1) as nat));
    assert(s.push(b).drop_last() =~= s);
}

} // verus!
