//! What compression is for: whatever a channel of some name makes of packets, a
//! channel of the same name at the other end makes the packets of again.

use super::codec::zlib_decoded;
use super::zlib::lemma_zlib_round_trip;
use super::{
    compress_for, compressed, decompress_for, decompressed, lemma_names_differ, CompressView,
    DecompressView,
};
use crate::error::Error;
use vstd::prelude::*;

verus! {

/// Whether the channel at one end has sent what the channel at the other end has
/// taken in.
pub open spec fn in_step(sender: CompressView, receiver: DecompressView) -> bool {
    &&& sender.name == receiver.name
    &&& sender.stream is Some <==> receiver.stream is Some
    &&& sender.stream is Some ==> {
        &&& receiver.stream->0.state is Open
        &&& receiver.stream->0.taken == sender.stream->0.sent
        &&& receiver.stream->0.made == sender.stream->0.fed
        &&& receiver.stream->0.cap == receiver.cap
    }
}

/// Three names stand for channels, at both ends alike, and no others do. A
/// channel has the name that was asked for. `none` never has a stream, `zlib` has
/// one from the start, and `zlib@openssh.com` has one once it is activated. One
/// packet may become as much as 64 of the largest packets, if there is a stream.
pub proof fn lemma_names_stand_for_channels(name: Seq<char>)
    ensures
        compress_for(name) is Some <==> name == "none"@ || name == "zlib"@ || name
            == "zlib@openssh.com"@,
        decompress_for(name) is Some <==> compress_for(name) is Some,
        compress_for(name) matches Some(c) ==> {
            let d = decompress_for(name)->0;
            &&& c.name == name && d.name == name
            &&& in_step(c, d)
            &&& c.stream is Some <==> name == "zlib"@
            &&& c.active() <==> name != "zlib@openssh.com"@
            &&& d.active() <==> name != "zlib@openssh.com"@
            &&& c.activated().stream is Some <==> name != "none"@
            &&& d.activated().stream is Some <==> name != "none"@
            &&& c.activated().active() && d.activated().active()
            &&& name != "none"@ ==> d.cap == 64 * 35_000
            &&& name == "none"@ ==> d.cap == usize::MAX
            &&& c.stream is Some ==> c.stream->0.fed.len() == 0 && c.stream->0.sent.len() == 0
        },
{
    lemma_names_differ();
}

/// Activation keeps two ends in step, changes nothing the second time, and keeps
/// the limit.
pub proof fn lemma_activation_keeps_step(sender: CompressView, receiver: DecompressView)
    requires
        in_step(sender, receiver),
    ensures
        in_step(sender.activated(), receiver.activated()),
        sender.activated().activated() == sender.activated(),
        receiver.activated().activated() == receiver.activated(),
        receiver.activated().cap == receiver.cap,
        sender.stream is Some ==> sender.activated() == sender && receiver.activated() == receiver,
{
}

/// Setting a limit keeps two ends in step, and it is the limit from then on.
pub proof fn lemma_limit_keeps_step(sender: CompressView, receiver: DecompressView, cap: usize)
    requires
        in_step(sender, receiver),
    ensures
        in_step(sender, receiver.with_cap(cap)),
        receiver.with_cap(cap).cap == cap,
        receiver.with_cap(cap).activated().cap == cap,
        receiver.with_cap(cap).activated().stream is Some ==> receiver.with_cap(
            cap,
        ).activated().stream->0.cap == cap,
{
}

/// Between two ends that are in step, each packet within the limit arrives as it
/// was, and the two ends are in step again. One that is larger is an error.
pub proof fn lemma_packets_arrive_as_they_were(
    sender: CompressView,
    receiver: DecompressView,
    packet: Seq<u8>,
    wire: Vec<u8>,
    sender_after: CompressView,
    r: Result<Vec<u8>, Error>,
    receiver_after: DecompressView,
)
    requires
        in_step(sender, receiver),
        compressed(sender, packet, Ok(wire), sender_after),
        decompressed(receiver, wire@, r, receiver_after),
    ensures
        sender.stream is None || packet.len() <= receiver.cap ==> {
            &&& r is Ok && r->Ok_0@ == packet
            &&& in_step(sender_after, receiver_after)
        },
        sender.stream is Some && packet.len() > receiver.cap ==> r is Err,
        sender.stream is None ==> wire@ == packet,
{
    if sender.stream is Some {
        lemma_zlib_round_trip(
            sender.stream->0,
            receiver.stream->0,
            packet,
            wire@,
            r,
            receiver_after.stream->0,
        );
    }
}

/// A stream that has ended or has an error gives nothing more.
pub proof fn lemma_broken_streams_give_nothing(
    before: DecompressView,
    input: Seq<u8>,
    r: Result<Vec<u8>, Error>,
    after: DecompressView,
)
    requires
        before.stream is Some,
        decompressed(before, input, r, after),
        ({
            let s = before.stream->0;
            ||| s.state is Ended
            ||| s.state is Stopped
            ||| s.state is Open && zlib_decoded(s.taken + input) is Ended
            ||| s.state is Open && zlib_decoded(s.taken + input) is Corrupt
        }),
    ensures
        r is Err,
{
}

} // verus!
