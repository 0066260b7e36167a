//! `zlib` and `zlib@openssh.com`: RFC 1950 zlib with a sync flush after each
//! packet.
//!
//! One stream runs for the lifetime of the connection, so that a packet can
//! refer back to earlier ones. Each packet is flushed, so that it decodes on
//! its own.

use super::codec::{
    decode, decoder_made, decoder_state, decoder_taken, encode, encoder_fed, encoder_flushing,
    encoder_held, encoder_open, encoder_owed, encoder_sent, flush, new_decoder, new_encoder,
    zlib_decoded, CodecStatus, CodecStep, DecoderState, ZlibDecoded, DICTIONARY_HEAD,
};
use super::{lemma_names_differ, Compress, CompressView, Decompress, DecompressView};
use crate::error::Error;
use vstd::prelude::*;

verus! {

/// How many bytes are staged at a time.
pub const CHUNK: usize = 8192;

/// How many bytes a packet may decompress to, unless set otherwise: a small
/// packet from a malicious peer could otherwise grow to gigabytes.
pub const DEFAULT_MAX_INFLATE_OUTPUT: usize = 2_240_000;

/// The two ends of a compressing stream: what went in, and what came out.
#[verifier::ext_equal]
pub ghost struct DeflateView {
    pub fed: Seq<u8>,
    pub sent: Seq<u8>,
    pub open: bool,
}

impl DeflateView {
    /// A new stream.
    pub open spec fn start() -> DeflateView {
        DeflateView { fed: Seq::empty(), sent: Seq::empty(), open: true }
    }

    /// The stream after a packet that came out as `wire`.
    pub open spec fn after(self, input: Seq<u8>, wire: Seq<u8>) -> DeflateView {
        DeflateView { fed: self.fed + input, sent: self.sent + wire, open: self.open }
    }

    /// Whether everything that went in can be decoded from what came out.
    pub open spec fn flushed(self) -> bool {
        zlib_decoded(self.sent) == ZlibDecoded::Sound(self.fed)
    }
}

/// The two ends of a decompressing stream, how it stands, and how much one
/// packet may decompress to.
#[verifier::ext_equal]
pub ghost struct InflateView {
    pub taken: Seq<u8>,
    pub made: Seq<u8>,
    pub state: DecoderState,
    pub cap: usize,
}

impl InflateView {
    /// A new stream.
    pub open spec fn start(cap: usize) -> InflateView {
        InflateView { taken: Seq::empty(), made: Seq::empty(), state: DecoderState::Open, cap }
    }

    /// The stream after a packet that came out as `out`.
    pub open spec fn after(self, input: Seq<u8>, out: Seq<u8>) -> InflateView {
        InflateView { taken: self.taken + input, made: self.made + out, ..self }
    }

    /// Whether one packet may bring the stream to `all`.
    pub open spec fn admits(self, all: Seq<u8>) -> bool {
        all.len() - self.made.len() <= self.cap
    }
}

/// What to do after one call of a codec.
#[derive(Debug, Clone, Copy)]
pub enum Round {
    /// Call again.
    Again,
    /// The packet is through.
    Done,
    /// Give up.
    Fail(Error),
}

/// What to do after a call that takes plain bytes in.
pub open spec fn encode_round(step: Option<CodecStep>) -> Round {
    match step {
        None => Round::Fail(Error::Crypto("zlib compress failed")),
        Some(s) => match s.status {
            CodecStatus::InputEmpty => Round::Done,
            CodecStatus::OutputFull => if s.consumed == 0 && s.written == 0 {
                Round::Fail(Error::Crypto("zlib compress stalled"))
            } else {
                Round::Again
            },
            CodecStatus::StreamEnd => Round::Fail(Error::Crypto("zlib compress closed")),
        },
    }
}

/// What to do after a call that flushes, with `room` bytes to write in. If it
/// filled them all, there may be more to come.
pub open spec fn flush_round(step: Option<CodecStep>, room: usize) -> Round {
    match step {
        None => Round::Fail(Error::Crypto("zlib compress failed")),
        Some(s) => match s.status {
            CodecStatus::InputEmpty => if s.written == room {
                Round::Again
            } else {
                Round::Done
            },
            CodecStatus::OutputFull => if s.written == 0 {
                Round::Fail(Error::Crypto("zlib compress stalled"))
            } else {
                Round::Again
            },
            CodecStatus::StreamEnd => Round::Fail(Error::Crypto("zlib compress closed")),
        },
    }
}

/// What to do after a call that decompresses, with `room` bytes to write in
/// and `made` bytes of the packet there already.
pub open spec fn decode_round(
    step: Option<CodecStep>,
    room: usize,
    made: usize,
    cap: usize,
) -> Round {
    match step {
        None => Round::Fail(Error::Format("zlib decompress failed")),
        Some(s) => if made + s.written > usize::MAX || made + s.written > cap {
            Round::Fail(Error::Format("zlib decompressed too large"))
        } else {
            match s.status {
                CodecStatus::InputEmpty => if s.written == room {
                    Round::Again
                } else {
                    Round::Done
                },
                CodecStatus::OutputFull => if s.consumed == 0 && s.written == 0 {
                    Round::Fail(Error::Format("zlib decompress stalled"))
                } else {
                    Round::Again
                },
                CodecStatus::StreamEnd => Round::Fail(Error::Format("zlib decompress closed")),
            }
        },
    }
}

/// What to do after a call that takes plain bytes in.
pub fn after_encode(step: Option<CodecStep>) -> (r: Round)
    ensures
        r == encode_round(step),
{
    match step {
        None => Round::Fail(Error::Crypto("zlib compress failed")),
        Some(s) => match s.status {
            CodecStatus::InputEmpty => Round::Done,
            CodecStatus::OutputFull => if s.consumed == 0 && s.written == 0 {
                Round::Fail(Error::Crypto("zlib compress stalled"))
            } else {
                Round::Again
            },
            CodecStatus::StreamEnd => Round::Fail(Error::Crypto("zlib compress closed")),
        },
    }
}

/// What to do after a call that flushes, with `room` bytes to write in.
pub fn after_flush(step: Option<CodecStep>, room: usize) -> (r: Round)
    ensures
        r == flush_round(step, room),
{
    match step {
        None => Round::Fail(Error::Crypto("zlib compress failed")),
        Some(s) => match s.status {
            CodecStatus::InputEmpty => if s.written == room {
                Round::Again
            } else {
                Round::Done
            },
            CodecStatus::OutputFull => if s.written == 0 {
                Round::Fail(Error::Crypto("zlib compress stalled"))
            } else {
                Round::Again
            },
            CodecStatus::StreamEnd => Round::Fail(Error::Crypto("zlib compress closed")),
        },
    }
}

/// What to do after a call that decompresses, with `room` bytes to write in
/// and `made` bytes of the packet there already.
pub fn after_decode(step: Option<CodecStep>, room: usize, made: usize, cap: usize) -> (r: Round)
    ensures
        r == decode_round(step, room, made, cap),
{
    match step {
        None => Round::Fail(Error::Format("zlib decompress failed")),
        Some(s) => {
            let total = match made.checked_add(s.written) {
                Some(total) => total,
                None => {
                    return Round::Fail(Error::Format("zlib decompressed too large"));
                },
            };
            if total > cap {
                return Round::Fail(Error::Format("zlib decompressed too large"));
            }
            match s.status {
                CodecStatus::InputEmpty => if s.written == room {
                    Round::Again
                } else {
                    Round::Done
                },
                CodecStatus::OutputFull => if s.consumed == 0 && s.written == 0 {
                    Round::Fail(Error::Format("zlib decompress stalled"))
                } else {
                    Round::Again
                },
                CodecStatus::StreamEnd => Round::Fail(Error::Format("zlib decompress closed")),
            }
        },
    }
}

/// Add the first `n` bytes of a chunk.
fn append_prefix(out: &mut Vec<u8>, chunk: &[u8], n: usize)
    requires
        n <= chunk@.len(),
    ensures
        final(out)@ == old(out)@ + chunk@.take(n as int),
{
    let mut i: usize = 0;
    assert(out@ + chunk@.take(0) =~= out@);
    while i < n
        invariant
            i <= n <= chunk@.len(),
            out@ == old(out)@ + chunk@.take(i as int),
        decreases n - i,
    {
        out.push(chunk[i]);
        assert(old(out)@ + chunk@.take(i + 1) =~= (old(out)@ + chunk@.take(i as int)).push(
            chunk@[i as int],
        ));
        i += 1;
    }
}

/// A compressing stream.
struct ZlibDeflate {
    enc: compcol::zlib::Encoder,
}

impl View for ZlibDeflate {
    type V = DeflateView;

    closed spec fn view(&self) -> DeflateView {
        DeflateView {
            fed: encoder_fed(self.enc),
            sent: encoder_sent(self.enc),
            open: encoder_open(self.enc) && !encoder_flushing(self.enc),
        }
    }
}

impl ZlibDeflate {
    fn new() -> (r: Self)
        ensures
            r@ == DeflateView::start(),
    {
        ZlibDeflate { enc: new_encoder() }
    }

    /// Compress one packet: take it in, and flush.
    fn step(&mut self, input: &[u8]) -> (r: Result<Vec<u8>, Error>)
        requires
            old(self)@.open,
        ensures
            r matches Ok(wire) && final(self)@ == old(self)@.after(input@, wire@),
            final(self)@.flushed(),
    {
        let mut out: Vec<u8> = Vec::new();
        let mut chunk = [0u8; 8192];
        let mut consumed: usize = 0;
        let ghost start = self@;
        assert(start.fed + input@.take(0) =~= start.fed);
        assert(start.sent + out@ =~= start.sent);
        while consumed < input.len()
            invariant
                consumed <= input@.len(),
                chunk@.len() == 8192,
                start == old(self)@,
                start.open,
                self@ == start.after(input@.take(consumed as int), out@),
            decreases input@.len() - consumed, encoder_held(self.enc),
        {
            let step = encode(&mut self.enc, input, consumed, &mut chunk);
            match step {
                Some(s) => {
                    let ghost before = out@;
                    let ghost taken = input@.take(consumed as int);
                    append_prefix(&mut out, &chunk, s.written);
                    proof {
                        let more = input@.subrange(consumed as int, consumed + s.consumed);
                        assert(input@.take(consumed + s.consumed) =~= taken + more);
                        assert(start.fed + (taken + more) =~= start.fed + taken + more);
                        let written = chunk@.take(s.written as int);
                        assert(start.sent + (before + written) =~= start.sent + before + written);
                    }
                    consumed = consumed + s.consumed;
                },
                None => {},
            }
            match after_encode(step) {
                Round::Again => {},
                Round::Done => {},
                Round::Fail(e) => {
                    return Err(e);
                },
            }
        }
        assert(input@.take(consumed as int) =~= input@);
        loop
            invariant
                chunk@.len() == 8192,
                start == old(self)@,
                start.open,
                self@.fed == start.fed + input@,
                self@.sent == start.sent + out@,
                encoder_open(self.enc),
            decreases encoder_owed(self.enc),
        {
            let step = flush(&mut self.enc, &mut chunk);
            match step {
                Some(s) => {
                    let ghost before = out@;
                    append_prefix(&mut out, &chunk, s.written);
                    proof {
                        let written = chunk@.take(s.written as int);
                        assert(start.sent + (before + written) =~= start.sent + before + written);
                    }
                },
                None => {},
            }
            match after_flush(step, 8192) {
                Round::Again => {},
                Round::Done => {
                    return Ok(out);
                },
                Round::Fail(e) => {
                    return Err(e);
                },
            }
        }
    }
}

/// A decompressing stream.
struct ZlibInflate {
    dec: compcol::zlib::Decoder,
    max_output_size: usize,
}

impl View for ZlibInflate {
    type V = InflateView;

    closed spec fn view(&self) -> InflateView {
        InflateView {
            taken: decoder_taken(self.dec),
            made: decoder_made(self.dec),
            state: decoder_state(self.dec),
            cap: self.max_output_size,
        }
    }
}

/// What decompressing a packet gives. In a sound stream it is what the packet
/// adds. It is an error where that is too large, where the stream ends, where
/// it has an error, and from then on. If a stream has an error after more bytes
/// than a packet may have, either error can come first.
///
/// A stream that asks for a preset dictionary fails no sooner than by the byte
/// after its head.
pub open spec fn inflated(
    before: InflateView,
    input: Seq<u8>,
    r: Result<Vec<u8>, Error>,
    after: InflateView,
) -> bool {
    let large = Err::<Vec<u8>, Error>(Error::Format("zlib decompressed too large"));
    let closed = Err::<Vec<u8>, Error>(Error::Format("zlib decompress closed"));
    let failed = Err::<Vec<u8>, Error>(Error::Format("zlib decompress failed"));
    &&& after.cap == before.cap
    &&& match before.state {
        DecoderState::Open => match zlib_decoded(before.taken + input) {
            ZlibDecoded::Sound(all) => if before.admits(all) {
                r matches Ok(out) && before.made + out@ == all && after == before.after(input, out@)
            } else {
                r == large
            },
            ZlibDecoded::Ended(all) => if before.admits(all) {
                r == closed && after.state is Ended
            } else {
                r == large
            },
            ZlibDecoded::Corrupt(all) => {
                ||| r == failed && after.state is Stopped
                ||| r == large && !before.admits(all)
            },
            ZlibDecoded::Dictionary => after.state is Stopped && if (before.taken + input).len()
                == DICTIONARY_HEAD {
                r matches Ok(out) && out@.len() == 0
            } else {
                r == failed
            },
        },
        DecoderState::Ended => r == closed && after.state is Ended,
        DecoderState::Stopped => r == failed && after.state is Stopped,
        DecoderState::Primed => true,
    }
}

impl ZlibInflate {
    fn new(max_output_size: usize) -> (r: Self)
        ensures
            r@ == InflateView::start(max_output_size),
    {
        ZlibInflate { dec: new_decoder(), max_output_size }
    }

    fn set_max_output_size(&mut self, n: usize)
        ensures
            final(self)@ == (InflateView { cap: n, ..old(self)@ }),
    {
        self.max_output_size = n;
    }

    /// Decompress one packet.
    fn step(&mut self, input: &[u8]) -> (r: Result<Vec<u8>, Error>)
        ensures
            inflated(old(self)@, input@, r, final(self)@),
    {
        let cap = self.max_output_size;
        let mut out: Vec<u8> = Vec::new();
        let mut chunk = [0u8; 8192];
        let mut consumed: usize = 0;
        let n: usize = input.len();
        let ghost start = self@;
        let ghost whole = start.taken + input@;
        assert(start.taken + input@.take(0) =~= start.taken);
        assert(start.made + out@ =~= start.made);
        loop
            invariant
                consumed <= n,
                n == input@.len(),
                chunk@.len() == 8192,
                start == old(self)@,
                cap == start.cap,
                out@.len() <= cap,
                self@.cap == start.cap,
                self@.taken == start.taken + input@.take(consumed as int),
                self@.made == start.made + out@,
                whole == start.taken + input@,
                start.state is Open && !(zlib_decoded(whole) is Dictionary) ==> self@.state is Open,
                start.state is Open && zlib_decoded(whole) is Dictionary ==> {
                    &&& out@.len() == 0
                    &&& self@.state is Open || {
                        &&& self@.state is Stopped
                        &&& self@.taken.len() == DICTIONARY_HEAD
                        &&& consumed < n
                    }
                },
                start.state is Ended || start.state is Stopped ==> self@.state == start.state,
            decreases n - consumed + cap - out@.len(),
        {
            let ghost before = self@;
            let ghost made = out@;
            let ghost taken = input@.take(consumed as int);
            assert(before.taken + input@.skip(consumed as int) =~= whole);
            let step = decode(&mut self.dec, input, consumed, &mut chunk);
            proof {
                if let Some(s) = step {
                    let more = input@.subrange(consumed as int, consumed + s.consumed);
                    let written = chunk@.take(s.written as int);
                    assert(input@.take(consumed + s.consumed) =~= taken + more);
                    assert(start.taken + (taken + more) =~= start.taken + taken + more);
                    assert(start.made + (made + written) =~= start.made + made + written);
                }
            }
            let round = after_decode(step, 8192, out.len(), cap);
            match round {
                Round::Fail(e) => {
                    return Err(e);
                },
                _ => {},
            }
            match step {
                Some(s) => {
                    append_prefix(&mut out, &chunk, s.written);
                    consumed = consumed + s.consumed;
                },
                None => {},
            }
            match round {
                Round::Done => {
                    assert(input@.take(consumed as int) =~= input@);
                    return Ok(out);
                },
                _ => {},
            }
        }
    }
}

/// `zlib`: compression from the start.
pub struct ZlibCompress {
    inner: ZlibDeflate,
}

impl ZlibCompress {
    /// A new stream.
    pub fn new() -> (r: Self)
        ensures
            r.state() == CompressView::zlib(),
    {
        Self { inner: ZlibDeflate::new() }
    }
}

impl Default for ZlibCompress {
    fn default() -> (r: Self)
        ensures
            r.state() == CompressView::zlib(),
    {
        Self::new()
    }
}

impl Compress for ZlibCompress {
    closed spec fn state(&self) -> CompressView {
        CompressView { name: "zlib"@, stream: Some(self.inner@) }
    }

    fn name(&self) -> (r: &'static str) {
        "zlib"
    }

    fn compress(&mut self, input: &[u8]) -> (r: Result<Vec<u8>, Error>) {
        self.inner.step(input)
    }

    fn active(&self) -> (r: bool) {
        true
    }

    fn activate(&mut self) {
    }
}

/// `zlib`: the counterpart of [`ZlibCompress`].
pub struct ZlibDecompress {
    inner: ZlibInflate,
}

impl ZlibDecompress {
    /// A new stream.
    pub fn new() -> (r: Self)
        ensures
            r.state() == DecompressView::zlib(),
    {
        Self { inner: ZlibInflate::new(DEFAULT_MAX_INFLATE_OUTPUT) }
    }

    /// Set how many bytes a packet may decompress to.
    pub fn set_max_output_size(&mut self, n: usize)
        ensures
            final(self).state() == old(self).state().with_cap(n),
    {
        self.inner.set_max_output_size(n);
    }
}

impl Default for ZlibDecompress {
    fn default() -> (r: Self)
        ensures
            r.state() == DecompressView::zlib(),
    {
        Self::new()
    }
}

impl Decompress for ZlibDecompress {
    closed spec fn state(&self) -> DecompressView {
        DecompressView {
            name: "zlib"@,
            stream: Some(self.inner@),
            cap: self.inner@.cap,
        }
    }

    fn name(&self) -> (r: &'static str) {
        "zlib"
    }

    fn decompress(&mut self, input: &[u8]) -> (r: Result<Vec<u8>, Error>) {
        self.inner.step(input)
    }

    fn active(&self) -> (r: bool) {
        true
    }

    fn activate(&mut self) {
    }
}

/// `zlib@openssh.com`: as `none` until it is activated, then as `zlib`. The
/// stream starts at activation, with nothing carried over from before.
pub struct ZlibOpenSshCompress {
    inner: Option<ZlibDeflate>,
}

impl ZlibOpenSshCompress {
    /// An inactive channel.
    pub fn new() -> (r: Self)
        ensures
            r.state() == CompressView::delayed(),
    {
        Self { inner: None }
    }
}

impl Default for ZlibOpenSshCompress {
    fn default() -> (r: Self)
        ensures
            r.state() == CompressView::delayed(),
    {
        Self::new()
    }
}

impl Compress for ZlibOpenSshCompress {
    closed spec fn state(&self) -> CompressView {
        CompressView {
            name: "zlib@openssh.com"@,
            stream: match self.inner {
                Some(s) => Some(s@),
                None => None,
            },
        }
    }

    fn name(&self) -> (r: &'static str) {
        "zlib@openssh.com"
    }

    fn compress(&mut self, input: &[u8]) -> (r: Result<Vec<u8>, Error>) {
        match &mut self.inner {
            None => Ok(vstd::slice::slice_to_vec(input)),
            Some(s) => s.step(input),
        }
    }

    fn active(&self) -> (r: bool) {
        proof {
            lemma_names_differ();
        }
        self.inner.is_some()
    }

    fn activate(&mut self) {
        if self.inner.is_none() {
            self.inner = Some(ZlibDeflate::new());
        }
    }
}

/// `zlib@openssh.com`: the counterpart of [`ZlibOpenSshCompress`].
pub struct ZlibOpenSshDecompress {
    inner: Option<ZlibInflate>,
    max_output_size: usize,
}

impl ZlibOpenSshDecompress {
    /// An inactive channel.
    pub fn new() -> (r: Self)
        ensures
            r.state() == DecompressView::delayed(),
    {
        Self { inner: None, max_output_size: DEFAULT_MAX_INFLATE_OUTPUT }
    }

    /// Set how many bytes a packet may decompress to, before activation or
    /// after it.
    pub fn set_max_output_size(&mut self, n: usize)
        ensures
            final(self).state() == old(self).state().with_cap(n),
    {
        self.max_output_size = n;
        match &mut self.inner {
            Some(s) => s.set_max_output_size(n),
            None => {},
        }
    }
}

impl Default for ZlibOpenSshDecompress {
    fn default() -> (r: Self)
        ensures
            r.state() == DecompressView::delayed(),
    {
        Self::new()
    }
}

impl Decompress for ZlibOpenSshDecompress {
    closed spec fn state(&self) -> DecompressView {
        DecompressView {
            name: "zlib@openssh.com"@,
            stream: match self.inner {
                Some(s) => Some(s@),
                None => None,
            },
            cap: self.max_output_size,
        }
    }

    fn name(&self) -> (r: &'static str) {
        "zlib@openssh.com"
    }

    fn decompress(&mut self, input: &[u8]) -> (r: Result<Vec<u8>, Error>) {
        match &mut self.inner {
            None => Ok(vstd::slice::slice_to_vec(input)),
            Some(s) => s.step(input),
        }
    }

    fn active(&self) -> (r: bool) {
        proof {
            lemma_names_differ();
        }
        self.inner.is_some()
    }

    fn activate(&mut self) {
        if self.inner.is_none() {
            self.inner = Some(ZlibInflate::new(self.max_output_size));
        }
    }
}

/// A packet comes back as it was, and the two ends stay in step: whatever came
/// out of one end, and was taken in by the other, decodes to what went in.
pub proof fn lemma_zlib_round_trip(
    sender: DeflateView,
    receiver: InflateView,
    packet: Seq<u8>,
    wire: Seq<u8>,
    r: Result<Vec<u8>, Error>,
    receiver_after: InflateView,
)
    requires
        receiver.state is Open && receiver.taken == sender.sent && receiver.made == sender.fed,
        sender.after(packet, wire).flushed(),
        inflated(receiver, wire, r, receiver_after),
    ensures
        packet.len() <= receiver.cap ==> {
            &&& r matches Ok(out) && out@ == packet
            &&& receiver_after.state is Open
            &&& receiver_after.taken == sender.after(packet, wire).sent
            &&& receiver_after.made == sender.after(packet, wire).fed
        },
        packet.len() > receiver.cap ==> r == Err::<Vec<u8>, Error>(
            Error::Format("zlib decompressed too large"),
        ),
{
    let all = sender.fed + packet;
    assert(zlib_decoded(receiver.taken + wire) == ZlibDecoded::Sound(all));
    if let Ok(out) = r {
        if packet.len() <= receiver.cap {
            assert(out@ =~= (receiver.made + out@).skip(receiver.made.len() as int));
            assert(packet =~= all.skip(sender.fed.len() as int));
        }
    }
}

} // verus!
