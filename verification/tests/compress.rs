use puressh::compress::codec::{CodecStatus, CodecStep};
use puressh::compress::zlib::{after_decode, after_encode, after_flush, Round};
use puressh::compress::{
    compress_by_name, decompress_by_name, Compress, Decompress, NoneCompress, NoneDecompress,
    ZlibCompress, ZlibDecompress, ZlibOpenSshCompress, ZlibOpenSshDecompress,
};
use puressh::Error;

#[test]
fn none_round_trip() {
    let mut c = NoneCompress;
    let mut d = NoneDecompress;
    for payload in [&b""[..], b"x", b"hello world"].iter() {
        let on_wire = c.compress(payload).unwrap();
        assert_eq!(on_wire.as_slice(), *payload);
        let back = d.decompress(&on_wire).unwrap();
        assert_eq!(back.as_slice(), *payload);
    }
}

#[test]
fn factory_returns_named_instances() {
    assert!(compress_by_name("none").is_some());
    assert!(decompress_by_name("none").is_some());
    assert!(compress_by_name("garbage").is_none());
    assert!(decompress_by_name("garbage").is_none());
    assert_eq!(compress_by_name("none").unwrap().name(), "none");
    assert_eq!(decompress_by_name("none").unwrap().name(), "none");
}

#[test]
fn factory_recognises_zlib_variants() {
    assert!(compress_by_name("zlib").is_some());
    assert!(compress_by_name("zlib@openssh.com").is_some());
    assert!(decompress_by_name("zlib").is_some());
    assert!(decompress_by_name("zlib@openssh.com").is_some());

    let zlib_dyn = compress_by_name("zlib@openssh.com").unwrap();
    assert!(!zlib_dyn.active());
}

/// A `zlib@openssh.com` stream from a live session whose last packet inflates
/// to just over two staging chunks.
#[test]
fn inflate_does_not_truncate_at_chunk_boundary() {
    // Length-prefixed (`u32` BE) compressed packets from a live
    // `zlib@openssh.com` session against OpenSSH sshd.
    const STREAM: &[u8] = &[
        0x00, 0x00, 0x00, 0x55, 0x78, 0x9c, 0x0a, 0x60, 0x60, 0x60, 0x10, 0xcf, 0xc8, 0x2f,
        0x2e, 0xc9, 0x4e, 0xad, 0x2c, 0xd6, 0x35, 0x30, 0x70, 0xc8, 0x2f, 0x48, 0xcd, 0x2b,
        0x2e, 0xce, 0xd0, 0x4b, 0xce, 0xcf, 0x05, 0x4a, 0x31, 0x18, 0x03, 0x31, 0x37, 0x90,
        0xaf, 0x9b, 0x9a, 0x62, 0x64, 0x6a, 0x6a, 0x68, 0x09, 0xe4, 0x2a, 0xe4, 0x1d, 0xe9,
        0xda, 0x30, 0x6b, 0x72, 0x78, 0xf3, 0x97, 0xa4, 0x06, 0x4d, 0x93, 0x73, 0x16, 0xba,
        0xbb, 0x16, 0x15, 0xdd, 0x39, 0xf3, 0xd7, 0xf0, 0x90, 0x22, 0xf3, 0xe3, 0x27, 0x99,
        0x8e, 0x37, 0x15, 0x00, 0x02, 0x00, 0x00, 0x00, 0x86, 0x50, 0x39, 0x06, 0x39, 0x08,
        0x83, 0x50, 0x10, 0xdd, 0x78, 0x10, 0x2e, 0xd0, 0x7c, 0x68, 0xd4, 0x52, 0xce, 0xe1,
        0x9e, 0xa0, 0xfd, 0x45, 0x12, 0x0b, 0xe4, 0x43, 0x5b, 0xe9, 0x69, 0x3c, 0xaa, 0xb0,
        0xd3, 0xd9, 0x4c, 0x26, 0x93, 0xc9, 0xbc, 0x53, 0x1b, 0x7e, 0x60, 0x33, 0x04, 0x73,
        0x78, 0x4d, 0x48, 0x09, 0xe4, 0x1d, 0xe2, 0x22, 0x07, 0x5e, 0xfc, 0x28, 0x96, 0x91,
        0x1f, 0xfd, 0xb6, 0x93, 0x1f, 0x8a, 0xbc, 0xf2, 0x85, 0x57, 0x59, 0x0f, 0x37, 0x88,
        0x2b, 0x61, 0x7d, 0xd2, 0xd8, 0xa3, 0xbe, 0xf0, 0x51, 0xea, 0xb3, 0x00, 0xb3, 0xe6,
        0x67, 0x20, 0x77, 0xe0, 0xa4, 0x1b, 0xa0, 0x12, 0x8a, 0x55, 0x67, 0x21, 0x66, 0x17,
        0x7c, 0x52, 0xcc, 0x58, 0xf4, 0xb9, 0x9b, 0x03, 0xed, 0x86, 0x26, 0xe7, 0x2d, 0x8b,
        0x81, 0xfe, 0x73, 0x2e, 0x6c, 0x4d, 0x48, 0x1d, 0x3d, 0xd8, 0x5b, 0x88, 0x9f, 0xaa,
        0x41, 0x7e, 0x05, 0x00, 0x00, 0x00, 0x05, 0xd0, 0xd0, 0x71, 0x29, 0x40, 0x00, 0x00,
        0x00, 0x09, 0x00, 0x45, 0x33, 0xa0, 0x80, 0x06, 0x06, 0x80, 0x00, 0x00, 0x00, 0x00,
        0x08, 0x8a, 0x05, 0xd3, 0x0a, 0x0c, 0x0c, 0x00, 0x01, 0x00, 0x00, 0x00, 0x05, 0x94,
        0x0c, 0xa2, 0x01, 0x02, 0x00, 0x00, 0x00, 0x65, 0xb0, 0x33, 0x37, 0x29, 0x14, 0x81,
        0x01, 0x00, 0x45, 0x8d, 0xed, 0xe5, 0xab, 0xe7, 0x9f, 0x99, 0x95, 0x18, 0x90, 0xf2,
        0x52, 0x44, 0xc4, 0xf2, 0xbd, 0x7a, 0x7b, 0x30, 0x3a, 0xd3, 0x7b, 0xea, 0x76, 0xff,
        0xdc, 0x46, 0xc7, 0x34, 0x86, 0xed, 0xfc, 0x0e, 0x73, 0xe8, 0xf7, 0xf5, 0x5a, 0x7e,
        0x97, 0x3b, 0x7c, 0x92, 0x34, 0xcb, 0x8b, 0xb2, 0xaa, 0x9b, 0x18, 0x63, 0x8c, 0x31,
        0xc6, 0x18, 0x63, 0x8c, 0x31, 0xc6, 0x18, 0x63, 0x8c, 0x31, 0xc6, 0x18, 0x63, 0x8c,
        0x31, 0xc6, 0x18, 0x63, 0x8c, 0x31, 0xc6, 0x18, 0x63, 0x8c, 0x31, 0xc6, 0x18, 0x63,
        0x8c, 0x31, 0xc6, 0x18, 0x63, 0x8c, 0x31, 0xc6, 0x2f, 0xf0, 0x23,
    ];

    let mut d = ZlibOpenSshDecompress::new();
    d.activate();
    let mut i = 0usize;
    let mut sizes = Vec::new();
    while i + 4 <= STREAM.len() {
        let n = u32::from_be_bytes([STREAM[i], STREAM[i + 1], STREAM[i + 2], STREAM[i + 3]])
            as usize;
        i += 4;
        let out = d.decompress(&STREAM[i..i + n]).expect("decompress packet");
        sizes.push(out.len());
        i += n;
    }
    // The 7th packet is the large one.
    assert_eq!(
        sizes.last().copied(),
        Some(16393),
        "packet inflated sizes: {sizes:?}"
    );
}

#[test]
fn zlib_round_trip_streaming() {
    let mut c = ZlibCompress::new();
    let mut d = ZlibDecompress::new();

    let small = b"hello".to_vec();
    let medium: Vec<u8> = (0..10_000u32).map(|i| (i & 0xff) as u8).collect();
    let mut large = Vec::with_capacity(100_000);
    let chunk = b"the quick brown fox jumps over the lazy dog -- ";
    while large.len() < 100_000 {
        large.extend_from_slice(chunk);
    }

    for payload in [&small[..], &medium[..], &large[..]] {
        let on_wire = c.compress(payload).unwrap();
        let back = d.decompress(&on_wire).unwrap();
        assert_eq!(back.as_slice(), payload);
    }
}

#[test]
fn zlib_dictionary_carries_state() {
    let mut c = ZlibCompress::new();
    let payload = b"repeated payload repeated payload repeated payload";

    let first = c.compress(payload).unwrap();
    let second = c.compress(payload).unwrap();
    assert_ne!(
        first, second,
        "second packet must differ once the dictionary contains the first"
    );

    let mut d = ZlibDecompress::new();
    assert_eq!(d.decompress(&first).unwrap(), payload);
    assert_eq!(d.decompress(&second).unwrap(), payload);
}

#[test]
fn zlib_openssh_delayed_activation() {
    let mut inactive = ZlibOpenSshCompress::new();
    let mut activated = ZlibOpenSshCompress::new();
    let payload = b"some bytes to compare";

    assert!(!inactive.active());
    let pass = inactive.compress(payload).unwrap();
    assert_eq!(pass.as_slice(), payload);

    activated.activate();
    assert!(activated.active());
    let compressed = activated.compress(payload).unwrap();
    assert_ne!(compressed.as_slice(), payload);

    let mut d = ZlibOpenSshDecompress::new();
    d.activate();
    assert_eq!(d.decompress(&compressed).unwrap(), payload);

    let mut d2 = ZlibOpenSshDecompress::new();
    assert_eq!(d2.decompress(payload).unwrap(), payload);
}

#[test]
fn zlib_openssh_activated_matches_zlib() {
    let mut a = ZlibOpenSshCompress::new();
    a.activate();
    let mut b = ZlibCompress::new();
    let payload = b"identical setup, identical output";
    let oa = a.compress(payload).unwrap();
    let ob = b.compress(payload).unwrap();
    assert_eq!(oa, ob);
}

#[test]
fn cross_instance_loses_state_after_first_packet() {
    let mut c = ZlibCompress::new();
    let payload = b"shared dictionary payload shared dictionary payload";
    let first = c.compress(payload).unwrap();
    let _second = c.compress(payload).unwrap();

    let mut d_fresh = ZlibDecompress::new();
    let back_first = d_fresh.decompress(&first).unwrap();
    assert_eq!(back_first.as_slice(), payload);
}

#[test]
fn factory_round_trip_through_boxed_traits() {
    let mut c = compress_by_name("zlib").unwrap();
    let mut d = decompress_by_name("zlib").unwrap();
    let payload = b"payload through trait objects";
    let on_wire = c.compress(payload).unwrap();
    assert_eq!(d.decompress(&on_wire).unwrap().as_slice(), payload);
}

#[test]
fn decompress_bomb_cap_rejects_oversized_output() {
    // Compress a highly-compressible 256 KiB blob — its inflated size
    // dwarfs the 1 KiB cap we install below.
    let mut c = ZlibCompress::new();
    let big = vec![b'A'; 256 * 1024];
    let on_wire = c.compress(&big).unwrap();
    assert!(on_wire.len() < big.len());

    let mut d = ZlibDecompress::new();
    d.set_max_output_size(1024);
    let err = d.decompress(&on_wire).unwrap_err();
    match err {
        Error::Format(msg) => assert_eq!(msg, "zlib decompressed too large"),
        other => panic!("expected Format(\"...too large\"), got {other:?}"),
    }
}

#[test]
fn openssh_decompress_bomb_cap_survives_activation() {
    let mut c = ZlibOpenSshCompress::new();
    c.activate();
    let big = vec![b'B'; 64 * 1024];
    let on_wire = c.compress(&big).unwrap();

    let mut d = ZlibOpenSshDecompress::new();
    d.set_max_output_size(512);
    d.activate();
    let err = d.decompress(&on_wire).unwrap_err();
    match err {
        Error::Format(msg) => assert_eq!(msg, "zlib decompressed too large"),
        other => panic!("expected Format(\"...too large\"), got {other:?}"),
    }
}

fn step(consumed: usize, written: usize, status: CodecStatus) -> Option<CodecStep> {
    Some(CodecStep {
        consumed,
        written,
        status,
    })
}

fn failure(r: Round) -> &'static str {
    match r {
        Round::Fail(Error::Crypto(m)) | Round::Fail(Error::Format(m)) => m,
        other => panic!("{other:?}"),
    }
}

#[test]
fn codec_outcomes_while_compressing() {
    assert!(matches!(after_encode(step(5, 0, CodecStatus::InputEmpty)), Round::Done));
    assert!(matches!(after_encode(step(0, 1, CodecStatus::OutputFull)), Round::Again));
    assert!(matches!(after_encode(step(1, 0, CodecStatus::OutputFull)), Round::Again));
    assert_eq!(failure(after_encode(None)), "zlib compress failed");
    assert_eq!(
        failure(after_encode(step(0, 0, CodecStatus::OutputFull))),
        "zlib compress stalled"
    );
    assert_eq!(
        failure(after_encode(step(3, 3, CodecStatus::StreamEnd))),
        "zlib compress closed"
    );
    assert!(matches!(after_flush(step(0, 9, CodecStatus::InputEmpty), 10), Round::Done));
    assert!(matches!(after_flush(step(0, 10, CodecStatus::InputEmpty), 10), Round::Again));
    assert!(matches!(after_flush(step(0, 1, CodecStatus::OutputFull), 10), Round::Again));
    assert_eq!(failure(after_flush(None, 10)), "zlib compress failed");
    assert_eq!(
        failure(after_flush(step(0, 0, CodecStatus::OutputFull), 10)),
        "zlib compress stalled"
    );
    assert_eq!(
        failure(after_flush(step(0, 0, CodecStatus::StreamEnd), 10)),
        "zlib compress closed"
    );
}

#[test]
fn codec_outcomes_while_decompressing() {
    let ok = |s| after_decode(s, 10, 20, 30);
    assert!(matches!(ok(step(4, 9, CodecStatus::InputEmpty)), Round::Done));
    assert!(matches!(ok(step(4, 10, CodecStatus::InputEmpty)), Round::Again));
    assert!(matches!(ok(step(1, 0, CodecStatus::OutputFull)), Round::Again));
    assert_eq!(failure(ok(None)), "zlib decompress failed");
    assert_eq!(
        failure(ok(step(0, 0, CodecStatus::OutputFull))),
        "zlib decompress stalled"
    );
    assert_eq!(
        failure(ok(step(0, 0, CodecStatus::StreamEnd))),
        "zlib decompress closed"
    );
    assert_eq!(
        failure(after_decode(step(0, 11, CodecStatus::InputEmpty), 20, 20, 30)),
        "zlib decompressed too large"
    );
    assert_eq!(
        failure(after_decode(step(0, 1, CodecStatus::InputEmpty), 20, usize::MAX, usize::MAX)),
        "zlib decompressed too large"
    );
}

#[test]
fn garbage_does_not_decompress() {
    let mut d = ZlibDecompress::new();
    match d.decompress(b"this is no zlib stream") {
        Err(Error::Format(m)) => assert_eq!(m, "zlib decompress failed"),
        other => panic!("{other:?}"),
    }
}

#[test]
fn a_finished_stream_is_an_error() {
    // An empty stream with its final block and its checksum.
    let whole = [0x78, 0x9c, 0x03, 0x00, 0x00, 0x00, 0x00, 0x01];
    let mut d = ZlibDecompress::new();
    match d.decompress(&whole) {
        Err(Error::Format(m)) => assert_eq!(m, "zlib decompress closed"),
        other => panic!("{other:?}"),
    }
}

#[test]
fn a_finished_stream_stays_finished() {
    let whole = [0x78, 0x9c, 0x03, 0x00, 0x00, 0x00, 0x00, 0x01];
    let mut d = ZlibDecompress::new();
    assert!(d.decompress(&whole).is_err());
    match d.decompress(b"") {
        Err(Error::Format(m)) => assert_eq!(m, "zlib decompress closed"),
        other => panic!("{other:?}"),
    }
}

#[test]
fn a_failed_stream_stays_failed() {
    let mut c = ZlibCompress::new();
    let mut d = ZlibDecompress::new();
    let good = c.compress(b"good").unwrap();
    assert_eq!(d.decompress(&good).unwrap(), b"good");
    // A block of a type that there is none of.
    for bad in [&[0x06][..], &[][..], &c.compress(b"more").unwrap()[..]] {
        match d.decompress(bad) {
            Err(Error::Format(m)) => assert_eq!(m, "zlib decompress failed"),
            other => panic!("{other:?}"),
        }
    }
}

#[test]
fn a_preset_dictionary_is_not_to_be_had() {
    let head = [0x78, 0xbb, 0x00, 0x00, 0x00, 0x01];
    let mut d = ZlibDecompress::new();
    assert_eq!(d.decompress(&head).unwrap(), b"");
    match d.decompress(b"") {
        Err(Error::Format(m)) => assert_eq!(m, "zlib decompress failed"),
        other => panic!("{other:?}"),
    }
    let mut d = ZlibDecompress::new();
    match d.decompress(&[&head[..], &[0x03][..]].concat()) {
        Err(Error::Format(m)) => assert_eq!(m, "zlib decompress failed"),
        other => panic!("{other:?}"),
    }
}

#[test]
fn packets_of_every_size_pass() {
    let mut c = ZlibCompress::new();
    let mut d = ZlibDecompress::new();
    let mut seed: u32 = 1;
    // Bytes that do not compress fill several chunks, and one of these sizes
    // fills the last one to its end.
    for size in (8150..8200).chain([16_384, 65_536, 70_000, 300_000]) {
        let mut packet = Vec::with_capacity(size);
        for _ in 0..size {
            seed = seed.wrapping_mul(1_664_525).wrapping_add(1_013_904_223);
            packet.push((seed >> 24) as u8);
        }
        let wire = c.compress(&packet).unwrap();
        assert_eq!(wire[wire.len() - 4..], [0x00, 0x00, 0xff, 0xff]);
        assert_eq!(d.decompress(&wire).unwrap(), packet);
    }
}

#[test]
fn a_packet_as_large_as_the_limit_passes() {
    let mut c = ZlibCompress::new();
    let mut d = ZlibDecompress::new();
    d.set_max_output_size(20_000);
    let exact = vec![7u8; 20_000];
    let wire = c.compress(&exact).unwrap();
    assert_eq!(d.decompress(&wire).unwrap(), exact);
    let over = vec![7u8; 20_001];
    let wire = c.compress(&over).unwrap();
    assert!(d.decompress(&wire).is_err());
}

#[test]
fn empty_packets_pass() {
    let mut c = ZlibCompress::default();
    let mut d = ZlibDecompress::default();
    let wire = c.compress(b"").unwrap();
    assert!(!wire.is_empty());
    assert_eq!(d.decompress(&wire).unwrap(), b"");
    let wire = c.compress(b"next").unwrap();
    assert_eq!(d.decompress(&wire).unwrap(), b"next");
}

#[test]
fn activation_matters_to_the_delayed_variant_alone() {
    for name in ["none", "zlib"] {
        let mut c = compress_by_name(name).unwrap();
        let mut d = decompress_by_name(name).unwrap();
        assert!(c.active() && d.active());
        c.activate();
        d.activate();
        let wire = c.compress(b"payload").unwrap();
        assert_eq!(d.decompress(&wire).unwrap(), b"payload");
    }
    let mut c = compress_by_name("zlib@openssh.com").unwrap();
    assert_eq!(c.name(), "zlib@openssh.com");
    assert!(!c.active());
    assert_eq!(c.compress(b"plain").unwrap(), b"plain");
    c.activate();
    assert!(c.active());
    let first = c.compress(b"plain").unwrap();
    // Activating again does not start over.
    c.activate();
    assert_ne!(c.compress(b"plain").unwrap(), first);
}
