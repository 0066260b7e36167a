use puressh::cipher::chachapoly::ChaChaPoly;
use puressh::cipher::gcm::GcmState;
use puressh::cipher::{all, cipher_by_name, SshCipher};
use puressh::Error;

fn h(s: &str) -> Vec<u8> {
    let digits: Vec<u32> = s.chars().filter_map(|c| c.to_digit(16)).collect();
    digits.chunks(2).map(|d| (d[0] * 16 + d[1]) as u8).collect()
}

#[test]
fn factory_dispatches_known_names() {
    for spec in all() {
        let key = vec![0u8; spec.key_len];
        let iv = vec![0u8; spec.iv_len];
        let r = cipher_by_name(spec.name, &key, &iv).expect("known");
        r.unwrap();
    }
}

#[test]
fn factory_rejects_unknown() {
    assert!(cipher_by_name("nope", &[], &[]).is_none());
}

#[test]
fn ctr_roundtrip_via_trait() {
    let key = [0x42u8; 16];
    let iv = [0x10u8; 16];
    let mut enc = SshCipher::new("aes128-ctr", &key, &iv).unwrap();
    let mut dec = SshCipher::new("aes128-ctr", &key, &iv).unwrap();
    let plain = b"hello ssh world!".to_vec();
    let mut buf = plain.clone();
    enc.stream(&mut buf).unwrap();
    assert_ne!(buf, plain);
    dec.stream(&mut buf).unwrap();
    assert_eq!(buf, plain);
}

#[test]
fn gcm_roundtrip_via_trait() {
    let key = [0x01u8; 16];
    let iv = [0x02u8; 12];
    let mut enc = SshCipher::new("aes128-gcm@openssh.com", &key, &iv).unwrap();
    let mut dec = SshCipher::new("aes128-gcm@openssh.com", &key, &iv).unwrap();
    let aad = [0u8, 0, 0, 16];
    let plain = [0xabu8; 16];
    let mut buf = plain;
    let tag = enc.aead_seal_len_aad(&aad, &mut buf).unwrap();
    dec.aead_open_len_aad(&aad, &mut buf, &tag).unwrap();
    assert_eq!(buf, plain);
}

#[test]
fn chachapoly_roundtrip_via_trait() {
    let mut key = [0u8; 64];
    for (i, b) in key.iter_mut().enumerate() {
        *b = i as u8;
    }
    let enc = SshCipher::new("chacha20-poly1305@openssh.com", &key, &[]).unwrap();
    let dec = SshCipher::new("chacha20-poly1305@openssh.com", &key, &[]).unwrap();

    let seq = 42u64;
    let mut len_buf = [0u8, 0, 0, 16];
    let plain_len = len_buf;
    enc.cp_xor_length(seq, &mut len_buf).unwrap();
    assert_ne!(len_buf, plain_len);

    let mut payload = [0xa5u8; 16];
    let plain_payload = payload;
    enc.cp_xor_payload(seq, &mut payload).unwrap();
    let tag = enc.cp_tag(seq, &len_buf, &payload).unwrap();

    dec.cp_verify_tag(seq, &len_buf, &payload, &tag).unwrap();
    dec.cp_xor_payload(seq, &mut payload).unwrap();
    assert_eq!(payload, plain_payload);
    dec.cp_xor_length(seq, &mut len_buf).unwrap();
    assert_eq!(len_buf, plain_len);
}

#[test]
fn cross_kind_ops_return_unsupported() {
    let mut g = SshCipher::new("aes128-gcm@openssh.com", &[0u8; 16], &[0u8; 12]).unwrap();
    assert!(matches!(g.stream(&mut []), Err(Error::Unsupported(_))));
    let mut c = SshCipher::new("aes128-ctr", &[0u8; 16], &[0u8; 16]).unwrap();
    assert!(matches!(
        c.aead_seal_len_aad(&[], &mut []),
        Err(Error::Unsupported(_))
    ));
}

// McGrew & Viega AES-128-GCM test case 3.
#[test]
fn aes128_gcm_tc3() {
    let key = h("feffe9928665731c6d6a8f9467308308");
    let mut iv = [0u8; 12];
    iv.copy_from_slice(&h("cafebabefacedbaddecaf888"));

    let mut g = GcmState::new_128(&key, &iv).unwrap();
    let mut buf = h(
        "d9313225f88406e5a55909c5aff5269a86a7a9531534f7da2e4c303d8a318a72\
         1c3c0c95956809532fcf0e2449a6b525b16aedf5aa0de657ba637b391aafd255",
    );
    let tag = g.seal(&[], &mut buf).unwrap();
    assert_eq!(
        buf,
        h(
            "42831ec2217774244b7221b784d0d49ce3aa212f2c02a4e035c17e2329aca12e\
             21d514b25466931c7d8f6a5aac84aa051ba30b396a0aac973d58e091473f5985"
        )
    );
    assert_eq!(tag.to_vec(), h("4d5c2af327cd64a62cf35abd2ba6fab4"));
}

#[test]
fn roundtrip_with_aad_increments_counter() {
    let key = h("feffe9928665731c6d6a8f9467308308");
    let iv = h("cafebabefacedbaddecaf888");
    let mut enc = GcmState::new_128(&key, &iv).unwrap();
    let mut dec = GcmState::new_128(&key, &iv).unwrap();

    for pkt in 0..3u8 {
        let aad = [0, 0, 0, 32u8];
        let plain = [pkt; 32];
        let mut buf = plain;
        let tag = enc.seal(&aad, &mut buf).unwrap();
        dec.open(&aad, &mut buf, &tag).unwrap();
        assert_eq!(buf, plain);
    }
}

#[test]
fn bad_tag_rejected_and_counter_held() {
    let key = h("feffe9928665731c6d6a8f9467308308");
    let iv = h("cafebabefacedbaddecaf888");
    let mut enc = GcmState::new_128(&key, &iv).unwrap();
    let mut dec = GcmState::new_128(&key, &iv).unwrap();

    let aad = [0, 0, 0, 16u8];
    let plain = [0xaau8; 16];
    let mut buf = plain;
    let tag = enc.seal(&aad, &mut buf).unwrap();
    let mut bad = tag;
    bad[0] ^= 1;
    assert!(matches!(dec.open(&aad, &mut buf, &bad), Err(Error::BadTag)));
    // Counter must not have advanced — opening with the real tag still works.
    dec.open(&aad, &mut buf, &tag).unwrap();
    assert_eq!(buf, plain);
}

#[test]
fn invocation_counter_wraps_into_nonce() {
    let key = [0u8; 16];
    let mut iv = [0u8; 12];
    iv[..4].copy_from_slice(&[0xde, 0xad, 0xbe, 0xef]);
    iv[4..].copy_from_slice(&u64::MAX.to_be_bytes());
    let g = GcmState::new_128(&key, &iv).unwrap();
    let n = g.nonce();
    assert_eq!(&n[..4], &[0xde, 0xad, 0xbe, 0xef]);
    assert_eq!(&n[4..], &u64::MAX.to_be_bytes());
}

// draft-ietf-sshm-chacha20-poly1305 worked example. Note the draft swaps
// the K_1/K_2 labels from openssh's PROTOCOL.chacha20poly1305 but both
// agree that bytes 0..32 of the key encrypt the payload and bytes 32..64
// encrypt the length field. Sequence number is 7.
//
// 64-byte key: bytes 0..32 (payload + Poly1305 OTK derivation),
//              bytes 32..64 (length field).
//
// The draft prints them in the wire-encoded "K_1 first, K_2 second" order
// matching this same byte layout — so we feed the bytes verbatim.
#[test]
fn openssh_worked_example() {
    let key = h("8b bf f6 85  5f c1 02 33  8c 37 3e 73  aa c0 c9 14
         f0 76 a9 05  b2 44 4a 32  ee ca ff ea  e2 2b ec c5
         e9 b7 a7 a5  82 5a 82 49  34 6e c1 c2  83 01 cf 39
         45 43 fc 75  69 88 7d 76  e1 68 f3 75  62 ac 07 40");
    let cp = ChaChaPoly::new(&key).unwrap();
    let seq = 7u64;

    // Plaintext length field: 0x00000048 (72 bytes).
    let mut len_buf = [0x00u8, 0x00, 0x00, 0x48];
    cp.xor_length(seq, &mut len_buf);
    assert_eq!(len_buf, [0x2c, 0x3e, 0xcc, 0xe4]);

    let plaintext = h("06 5e 00 00  00 00 00 00  00 38 4c 6f
         72 65 6d 20  69 70 73 75  6d 20 64 6f  6c 6f 72 20
         73 69 74 20  61 6d 65 74  2c 20 63 6f  6e 73 65 63
         74 65 74 75  72 20 61 64  69 70 69 73  69 63 69 6e
         67 20 65 6c  69 74 4e 43  e8 04 dc 6c");
    let mut payload = plaintext.clone();
    cp.xor_payload(seq, &mut payload);
    let expected_ct = h("a5 bc 05 89  5b f0 7a 7b  a9 56 b6 c6  88 29 ac 7c
         83 b7 80 b7  00 0e cd e7  45 af c7 05  bb c3 78 ce
         03 a2 80 23  6b 87 b5 3b  ed 58 39 66  23 02 b1 64
         b6 28 6a 48  cd 1e 09 71  38 e3 cb 90  9b 8b 2b 82
         9d d1 8d 2a  35 ff 82 d9");
    assert_eq!(payload, expected_ct);

    let tag = cp.tag(seq, &len_buf, &payload);
    assert_eq!(
        tag.to_vec(),
        h("95 34 9e 85  5b f0 2c 29  8e f7 75 f2  d1 a7 e8 b8")
    );

    cp.verify_tag(seq, &len_buf, &payload, &tag).unwrap();
    cp.xor_payload(seq, &mut payload);
    assert_eq!(payload, plaintext);
}

#[test]
fn bad_tag_rejected() {
    let key = h("8b bf f6 85  5f c1 02 33  8c 37 3e 73  aa c0 c9 14
         f0 76 a9 05  b2 44 4a 32  ee ca ff ea  e2 2b ec c5
         e9 b7 a7 a5  82 5a 82 49  34 6e c1 c2  83 01 cf 39
         45 43 fc 75  69 88 7d 76  e1 68 f3 75  62 ac 07 40");
    let cp = ChaChaPoly::new(&key).unwrap();
    let len = [0x2c, 0x3e, 0xcc, 0xe4];
    let payload = [0u8; 16];
    let bad = [0u8; 16];
    assert!(matches!(
        cp.verify_tag(7, &len, &payload, &bad),
        Err(Error::BadTag)
    ));
}

#[test]
fn bad_key_length_is_format_error() {
    assert!(matches!(ChaChaPoly::new(&[0u8; 63]), Err(Error::Format(_))));
}

// NIST SP 800-38A, F.5.1: CTR-AES128.
#[test]
fn ctr_matches_the_standard_vector() {
    let key = h("2b7e151628aed2a6abf7158809cf4f3c");
    let iv = h("f0f1f2f3f4f5f6f7f8f9fafbfcfdfeff");
    let plain = h("6bc1bee22e409f96e93d7e117393172aae2d8a571e03ac9c9eb76fac45af8e51");
    let want = h("874d6191b620e3261bef6864990db6ce9806f66b7970fdff8617187bb9fffdff");
    let mut c = SshCipher::new("aes128-ctr", &key, &iv).unwrap();
    let mut buf = plain.clone();
    c.stream(&mut buf).unwrap();
    assert_eq!(buf, want);
}

// NIST SP 800-38A, F.5.3 and F.5.5: CTR-AES192 and CTR-AES256.
#[test]
fn longer_ctr_keys_match_the_standard_vectors() {
    let iv = h("f0f1f2f3f4f5f6f7f8f9fafbfcfdfeff");
    let plain = h("6bc1bee22e409f96e93d7e117393172a");
    let key = h("8e73b0f7da0e6452c810f32b809079e562f8ead2522c6b7b");
    let mut c = SshCipher::new("aes192-ctr", &key, &iv).unwrap();
    let mut buf = plain.clone();
    c.stream(&mut buf).unwrap();
    assert_eq!(buf, h("1abc932417521ca24f2b0459fe7e6e0b"));
    let key = h("603deb1015ca71be2b73aef0857d77811f352c073b6108d72d9810a30914dff4");
    let mut c = SshCipher::new("aes256-ctr", &key, &iv).unwrap();
    let mut buf = plain.clone();
    c.stream(&mut buf).unwrap();
    assert_eq!(buf, h("601ec313775789a5b7a7f504bbf3d228"));
}

#[test]
fn ctr_keystream_runs_on_across_calls() {
    let key = [7u8; 32];
    // The counter wraps around within the message.
    let iv = [0xffu8; 16];
    let plain: Vec<u8> = (0..100u8).collect();
    let mut whole = plain.clone();
    SshCipher::new("aes256-ctr", &key, &iv)
        .unwrap()
        .stream(&mut whole)
        .unwrap();
    for cuts in [vec![100], vec![1, 99], vec![16, 84], vec![5, 6, 5, 20, 64], vec![0, 33, 67]] {
        let mut c = SshCipher::new("aes256-ctr", &key, &iv).unwrap();
        let mut out = Vec::new();
        let mut at = 0;
        for n in cuts {
            let mut piece = plain[at..at + n].to_vec();
            c.stream(&mut piece).unwrap();
            out.extend(piece);
            at += n;
        }
        assert_eq!(out, whole);
    }
}

// McGrew & Viega AES-256-GCM test case 14.
#[test]
fn aes256_gcm_tc14() {
    let mut g = GcmState::new_256(&[0u8; 32], &[0u8; 12]).unwrap();
    let mut buf = [0u8; 16];
    let tag = g.seal(&[], &mut buf).unwrap();
    assert_eq!(buf.to_vec(), h("cea7403d4d606b6e074ec5d3baf39d18"));
    assert_eq!(tag.to_vec(), h("d0d1c8a799996bf0265b98b5d48ab919"));
    let mut other = GcmState::new_256(&[0u8; 32], &[0u8; 12]).unwrap();
    other.open(&[], &mut buf, &tag).unwrap();
    assert_eq!(buf, [0u8; 16]);
}

#[test]
fn gcm_counter_never_wraps() {
    let mut iv = [0u8; 12];
    iv[4..].copy_from_slice(&u64::MAX.to_be_bytes());
    let mut g = GcmState::new_128(&[0u8; 16], &iv).unwrap();
    let mut buf = [1u8; 16];
    match g.seal(&[], &mut buf) {
        Err(Error::Crypto(m)) => assert_eq!(m, "aes-gcm invocation counter exhausted"),
        other => panic!("{other:?}"),
    }
    assert_eq!(&g.nonce()[4..], &u64::MAX.to_be_bytes());
}

#[test]
fn gcm_nonce_goes_up_by_one() {
    let iv = h("0102030400000000000000ff");
    let mut g = GcmState::new_128(&[0u8; 16], &iv).unwrap();
    assert_eq!(g.nonce().to_vec(), iv);
    g.seal(&[], &mut [0u8; 4]).unwrap();
    assert_eq!(g.nonce().to_vec(), h("010203040000000000000100"));
}

#[test]
fn wrong_lengths_are_format_errors() {
    let err = |name, k: usize, i: usize| {
        match SshCipher::new(name, &vec![0u8; k], &vec![0u8; i]) {
            Err(Error::Format(m)) => m,
            _ => panic!("{name} {k} {i}"),
        }
    };
    assert_eq!(err("aes128-ctr", 15, 16), "aes128-ctr key len");
    assert_eq!(err("aes192-ctr", 25, 16), "aes192-ctr key len");
    assert_eq!(err("aes256-ctr", 31, 16), "aes256-ctr key len");
    assert_eq!(err("aes256-ctr", 32, 15), "aes-ctr iv len");
    assert_eq!(err("aes128-gcm@openssh.com", 17, 12), "aes128-gcm key len");
    assert_eq!(err("aes256-gcm@openssh.com", 16, 12), "aes256-gcm key len");
    assert_eq!(err("aes256-gcm@openssh.com", 32, 16), "aes-gcm iv len");
    assert_eq!(
        err("chacha20-poly1305@openssh.com", 65, 0),
        "chacha20-poly1305 key len"
    );
    let mut g = SshCipher::new("aes128-gcm@openssh.com", &[0u8; 16], &[0u8; 12]).unwrap();
    match g.aead_open_len_aad(&[], &mut [0u8; 4], &[0u8; 15]) {
        Err(Error::Format(m)) => assert_eq!(m, "aes-gcm tag len"),
        other => panic!("{other:?}"),
    }
    let c = SshCipher::new("chacha20-poly1305@openssh.com", &[0u8; 64], &[]).unwrap();
    match c.cp_verify_tag(0, &[], &[], &[0u8; 17]) {
        Err(Error::Format(m)) => assert_eq!(m, "chacha20-poly1305 tag len"),
        other => panic!("{other:?}"),
    }
}

#[test]
fn suites_say_what_they_are() {
    for spec in all() {
        let c = SshCipher::new(spec.name, &vec![0u8; spec.key_len], &vec![0u8; spec.iv_len])
            .unwrap();
        assert_eq!(c.is_aead(), spec.aead, "{}", spec.name);
        assert_eq!(c.encrypts_length(), !spec.name.contains("gcm"));
        assert_eq!(spec.tag_len, if spec.aead { 16 } else { 0 });
    }
    let names: Vec<&str> = all().iter().map(|s| s.name).collect();
    assert_eq!(
        names,
        [
            "chacha20-poly1305@openssh.com",
            "aes256-gcm@openssh.com",
            "aes128-gcm@openssh.com",
            "aes256-ctr",
            "aes192-ctr",
            "aes128-ctr"
        ]
    );
}

#[test]
fn operations_of_another_suite_are_unsupported() {
    let mut c = SshCipher::new("aes128-ctr", &[0u8; 16], &[0u8; 16]).unwrap();
    let mut buf = [9u8; 4];
    assert!(matches!(
        c.aead_open_len_aad(&[], &mut buf, &[0u8; 16]),
        Err(Error::Unsupported("GCM open on non-GCM cipher"))
    ));
    let want = "chacha20-poly1305 op on other cipher";
    assert!(matches!(c.cp_xor_length(0, &mut buf), Err(Error::Unsupported(m)) if m == want));
    assert!(matches!(c.cp_xor_payload(0, &mut buf), Err(Error::Unsupported(m)) if m == want));
    assert!(matches!(c.cp_tag(0, &[], &[]), Err(Error::Unsupported(m)) if m == want));
    assert!(matches!(c.cp_verify_tag(0, &[], &[], &[]), Err(Error::Unsupported(m)) if m == want));
    assert_eq!(buf, [9u8; 4]);
}
