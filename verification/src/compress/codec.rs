//! The zlib streams of `compcol`.

use vstd::prelude::*;

verus! {

/// `compcol::zlib::Encoder`.
#[verifier::external_type_specification]
#[verifier::external_body]
pub struct ExEncoder(compcol::zlib::Encoder);

/// `compcol::zlib::Decoder`.
#[verifier::external_type_specification]
#[verifier::external_body]
pub struct ExDecoder(compcol::zlib::Decoder);

/// The bytes that an encoder has taken in.
pub uninterp spec fn encoder_fed(e: compcol::zlib::Encoder) -> Seq<u8>;

/// The bytes that an encoder has given out.
pub uninterp spec fn encoder_sent(e: compcol::zlib::Encoder) -> Seq<u8>;

/// Whether an encoder was made with the default settings and its stream is not
/// finished.
pub uninterp spec fn encoder_open(e: compcol::zlib::Encoder) -> bool;

/// Whether an encoder is in the middle of a flush.
pub uninterp spec fn encoder_flushing(e: compcol::zlib::Encoder) -> bool;

/// How many bytes an encoder gives out before it has to take more in.
pub uninterp spec fn encoder_held(e: compcol::zlib::Encoder) -> nat;

/// How many bytes an encoder gives out before a flush is done.
pub uninterp spec fn encoder_owed(e: compcol::zlib::Encoder) -> nat;

/// The bytes that a decoder has taken in.
pub uninterp spec fn decoder_taken(d: compcol::zlib::Decoder) -> Seq<u8>;

/// The bytes that a decoder has given out.
pub uninterp spec fn decoder_made(d: compcol::zlib::Decoder) -> Seq<u8>;

/// How a decoder stands.
pub uninterp spec fn decoder_state(d: compcol::zlib::Decoder) -> DecoderState;

/// What bytes are to a decoder that has not seen any others.
pub uninterp spec fn zlib_decoded(bytes: Seq<u8>) -> ZlibDecoded;

/// How a decoder stands.
pub ghost enum DecoderState {
    /// It takes more in, and has no preset dictionary.
    Open,
    /// It has come to the end of its stream.
    Ended,
    /// It has met an error, or waits for a preset dictionary.
    Stopped,
    /// It takes more in, and has a preset dictionary.
    Primed,
}

/// What some bytes are, read as a zlib stream.
#[verifier::ext_equal]
pub ghost enum ZlibDecoded {
    /// The start of a stream, which decodes to these bytes as far as it goes.
    Sound(Seq<u8>),
    /// A whole stream, which decodes to these bytes.
    Ended(Seq<u8>),
    /// The start of a stream, which decodes to these bytes before an error.
    Corrupt(Seq<u8>),
    /// The start of a stream that wants a preset dictionary.
    Dictionary,
}

/// How long the head of a stream that wants a preset dictionary is.
pub const DICTIONARY_HEAD: usize = 6;

/// Why a codec came back.
#[derive(Debug, Clone, Copy, PartialEq, Eq, Structural)]
pub enum CodecStatus {
    /// It used up its input.
    InputEmpty,
    /// It needs more room.
    OutputFull,
    /// The stream is at its end.
    StreamEnd,
}

/// What one call of a codec did.
#[derive(Debug, Clone, Copy, PartialEq, Eq, Structural)]
pub struct CodecStep {
    /// How many bytes of input it took.
    pub consumed: usize,
    /// How many bytes of output it wrote.
    pub written: usize,
    /// Why it came back.
    pub status: CodecStatus,
}

/// `compcol::zlib::Encoder::new` has taken in and given out nothing.
#[verifier::external_body]
pub(crate) fn new_encoder() -> (r: compcol::zlib::Encoder)
    ensures
        encoder_fed(r) == Seq::<u8>::empty(),
        encoder_sent(r) == Seq::<u8>::empty(),
        encoder_open(r),
        !encoder_flushing(r),
{
    compcol::zlib::Encoder::new()
}

/// `compcol::zlib::Decoder::new` has taken in and given out nothing.
#[verifier::external_body]
pub(crate) fn new_decoder() -> (r: compcol::zlib::Decoder)
    ensures
        decoder_taken(r) == Seq::<u8>::empty(),
        decoder_made(r) == Seq::<u8>::empty(),
        decoder_state(r) is Open,
{
    compcol::zlib::Decoder::new()
}

/// `compcol::Encoder::encode`: takes in some of the input from `from` on, and
/// gives out some bytes. An open encoder does not fail and stays open. It comes
/// back with input left only once it has filled the room, and if it took
/// nothing in, then with bytes that it held. In the middle of a flush it must
/// not be called: the flush would not know of it.
#[verifier::external_body]
pub(crate) fn encode(
    enc: &mut compcol::zlib::Encoder,
    input: &[u8],
    from: usize,
    chunk: &mut [u8],
) -> (r: Option<CodecStep>)
    requires
        from <= input@.len(),
        encoder_open(*old(enc)),
        !encoder_flushing(*old(enc)),
    ensures
        final(chunk)@.len() == old(chunk)@.len(),
        encoder_open(*final(enc)),
        !encoder_flushing(*final(enc)),
        r is Some,
        r matches Some(step) ==> {
            &&& from + step.consumed <= input@.len()
            &&& step.written <= final(chunk)@.len()
            &&& encoder_fed(*final(enc)) == encoder_fed(*old(enc)) + input@.subrange(
                from as int,
                from + step.consumed,
            )
            &&& encoder_sent(*final(enc)) == encoder_sent(*old(enc)) + final(chunk)@.take(
                step.written as int,
            )
            &&& step.status !is StreamEnd
            &&& step.status is InputEmpty ==> from + step.consumed == input@.len()
            &&& step.status is OutputFull ==> step.written == final(chunk)@.len()
            &&& step.status is OutputFull && step.consumed == 0 ==> encoder_held(*final(enc))
                + step.written == encoder_held(*old(enc))
        },
{
    let (p, s) = compcol::Encoder::encode(enc, &input[from..], chunk).ok()?;
    let status = match s {
        compcol::Status::InputEmpty => CodecStatus::InputEmpty,
        compcol::Status::OutputFull => CodecStatus::OutputFull,
        compcol::Status::StreamEnd => CodecStatus::StreamEnd,
    };
    Some(CodecStep { consumed: p.consumed, written: p.written, status })
}

/// `compcol::Encoder::flush` with `Flush::Sync`: gives out bytes it holds back,
/// and a marker. Once that is done, what it gave out decodes to what it took
/// in, and another flush would give out a marker alone, which is five bytes. An
/// open encoder does not fail and stays open. It comes back undone only once it
/// has filled the room.
#[verifier::external_body]
pub(crate) fn flush(enc: &mut compcol::zlib::Encoder, chunk: &mut [u8]) -> (r: Option<CodecStep>)
    requires
        encoder_open(*old(enc)),
    ensures
        final(chunk)@.len() == old(chunk)@.len(),
        encoder_open(*final(enc)),
        r is Some,
        r matches Some(step) ==> {
            &&& step.consumed == 0
            &&& step.written <= final(chunk)@.len()
            &&& encoder_fed(*final(enc)) == encoder_fed(*old(enc))
            &&& encoder_sent(*final(enc)) == encoder_sent(*old(enc)) + final(chunk)@.take(
                step.written as int,
            )
            &&& step.status !is StreamEnd
            &&& step.status is InputEmpty ==> {
                &&& zlib_decoded(encoder_sent(*final(enc))) == ZlibDecoded::Sound(
                    encoder_fed(*final(enc)),
                )
                &&& !encoder_flushing(*final(enc))
                &&& step.written == encoder_owed(*old(enc))
                &&& encoder_owed(*final(enc)) == 5
            }
            &&& step.status is OutputFull ==> {
                &&& step.written == final(chunk)@.len()
                &&& encoder_owed(*final(enc)) + step.written == encoder_owed(*old(enc))
            }
        },
{
    let (p, s) = compcol::Encoder::flush(enc, chunk, compcol::Flush::Sync).ok()?;
    let status = match s {
        compcol::Status::InputEmpty => CodecStatus::InputEmpty,
        compcol::Status::OutputFull => CodecStatus::OutputFull,
        compcol::Status::StreamEnd => CodecStatus::StreamEnd,
    };
    Some(CodecStep { consumed: p.consumed, written: p.written, status })
}

/// `compcol::Decoder::decode`: takes in some of the input from `from` on, and
/// gives out some bytes. An open decoder fails, ends, or asks for a preset
/// dictionary only where the stream has an error, ends, or asks for one; it
/// gives out no more than the stream decodes to; and with room to write in it
/// gets ahead. Once the input is used up and room is left, it has given out all
/// that can be decoded. After the end it says so again, and after an error it
/// fails again. Of a decoder that has a preset dictionary only the counts are
/// claimed.
#[verifier::external_body]
pub(crate) fn decode(
    dec: &mut compcol::zlib::Decoder,
    input: &[u8],
    from: usize,
    chunk: &mut [u8],
) -> (r: Option<CodecStep>)
    requires
        from <= input@.len(),
    ensures
        final(chunk)@.len() == old(chunk)@.len(),
        match decoder_state(*old(dec)) {
            DecoderState::Open => match zlib_decoded(
                decoder_taken(*old(dec)) + input@.skip(from as int),
            ) {
                ZlibDecoded::Sound(all) => {
                    &&& r matches Some(step) && step.status !is StreamEnd
                    &&& decoder_state(*final(dec)) is Open
                    &&& decoder_made(*final(dec)).is_prefix_of(all)
                },
                ZlibDecoded::Ended(all) => {
                    &&& r is Some
                    &&& if r->0.status is StreamEnd {
                        &&& decoder_state(*final(dec)) is Ended
                        &&& decoder_made(*final(dec)) == all
                    } else {
                        &&& decoder_state(*final(dec)) is Open
                        &&& decoder_made(*final(dec)).is_prefix_of(all)
                    }
                },
                ZlibDecoded::Corrupt(all) => match r {
                    None => decoder_state(*final(dec)) is Stopped,
                    Some(step) => {
                        &&& step.status !is StreamEnd
                        &&& decoder_state(*final(dec)) is Open
                        &&& decoder_made(*final(dec)).is_prefix_of(all)
                    },
                },
                ZlibDecoded::Dictionary => {
                    &&& r matches Some(step) && step.status !is StreamEnd && step.written == 0
                    &&& decoder_state(*final(dec)) is Stopped
                    &&& decoder_taken(*final(dec)).len() == DICTIONARY_HEAD
                    &&& decoder_made(*final(dec)).len() == 0
                },
            },
            DecoderState::Ended => {
                &&& r matches Some(step) && step.status is StreamEnd && step.written == 0
                &&& decoder_state(*final(dec)) is Ended
            },
            DecoderState::Stopped => r is None && decoder_state(*final(dec)) is Stopped,
            DecoderState::Primed => true,
        },
        decoder_state(*old(dec)) is Open && old(chunk)@.len() > 0 && r is Some
            && r->0.status is OutputFull ==> r->0.consumed > 0 || r->0.written > 0,
        r matches Some(step) ==> {
            &&& from + step.consumed <= input@.len()
            &&& step.written <= final(chunk)@.len()
            &&& decoder_taken(*final(dec)) == decoder_taken(*old(dec)) + input@.subrange(
                from as int,
                from + step.consumed,
            )
            &&& decoder_made(*final(dec)) == decoder_made(*old(dec)) + final(chunk)@.take(
                step.written as int,
            )
            &&& step.status is InputEmpty ==> from + step.consumed == input@.len()
            &&& step.status is OutputFull && step.written < final(chunk)@.len() ==> from
                + step.consumed < input@.len()
            &&& decoder_state(*final(dec)) is Open && step.status is InputEmpty && step.written
                < final(chunk)@.len() ==> zlib_decoded(decoder_taken(*final(dec)))
                == ZlibDecoded::Sound(decoder_made(*final(dec)))
        },
{
    let (p, s) = compcol::Decoder::decode(dec, &input[from..], chunk).ok()?;
    let status = match s {
        compcol::Status::InputEmpty => CodecStatus::InputEmpty,
        compcol::Status::OutputFull => CodecStatus::OutputFull,
        compcol::Status::StreamEnd => CodecStatus::StreamEnd,
    };
    Some(CodecStep { consumed: p.consumed, written: p.written, status })
}

} // verus!
