//! Wire primitives of RFC 4251 section 5: bytes, booleans, big-endian
//! 32-bit integers and length-prefixed strings.

use crate::error::Error;
use vstd::prelude::*;

verus! {

/// The four bytes of `v`, most significant first.
pub open spec fn be32(v: u32) -> Seq<u8> {
    seq![
        (v / 0x100_0000) as u8,
        ((v / 0x1_0000) % 0x100) as u8,
        ((v / 0x100) % 0x100) as u8,
        (v % 0x100) as u8,
    ]
}

/// The integer that four bytes stand for, most significant first.
pub open spec fn be32_value(a: u8, b: u8, c: u8, d: u8) -> u32 {
    (a * 0x100_0000 + b * 0x1_0000 + c * 0x100 + d) as u32
}

/// A length-prefixed string.
pub open spec fn wire_string(s: Seq<u8>) -> Seq<u8> {
    be32(s.len() as u32) + s
}

/// A boolean.
pub open spec fn wire_bool(b: bool) -> Seq<u8> {
    seq![if b { 1u8 } else { 0u8 }]
}

/// What reading one byte from the front of `s` gives: the byte and the rest.
pub open spec fn get_u8(s: Seq<u8>) -> Option<(u8, Seq<u8>)> {
    if s.len() >= 1 {
        Some((s[0], s.skip(1)))
    } else {
        None
    }
}

/// What reading a boolean gives: every non-zero byte is true.
pub open spec fn get_bool(s: Seq<u8>) -> Option<(bool, Seq<u8>)> {
    if s.len() >= 1 {
        Some((s[0] != 0, s.skip(1)))
    } else {
        None
    }
}

/// What reading a 32-bit integer gives.
pub open spec fn get_u32(s: Seq<u8>) -> Option<(u32, Seq<u8>)> {
    if s.len() >= 4 {
        Some((be32_value(s[0], s[1], s[2], s[3]), s.skip(4)))
    } else {
        None
    }
}

/// What taking `n` bytes gives.
pub open spec fn get_bytes(s: Seq<u8>, n: nat) -> Option<(Seq<u8>, Seq<u8>)> {
    if n <= s.len() {
        Some((s.take(n as int), s.skip(n as int)))
    } else {
        None
    }
}

/// What reading a length-prefixed string gives.
pub open spec fn get_string(s: Seq<u8>) -> Option<(Seq<u8>, Seq<u8>)> {
    match get_u32(s) {
        Some((n, rest)) => get_bytes(rest, n as nat),
        None => None,
    }
}

/// The error for a buffer that ends inside a field.
pub open spec fn truncated() -> Error {
    Error::Format("unexpected end of buffer")
}

/// Reading back the four bytes of an integer gives the integer.
pub proof fn lemma_be32_round_trip(v: u32)
    ensures
        be32_value(be32(v)[0], be32(v)[1], be32(v)[2], be32(v)[3]) == v,
{
    let a: u32 = v / 0x100_0000;
    let b: u32 = (v / 0x1_0000) % 0x100;
    let c: u32 = (v / 0x100) % 0x100;
    let d: u32 = v % 0x100;
    assert(a < 0x100);
    assert(v == a * 0x100_0000 + b * 0x1_0000 + c * 0x100 + d);
}

/// A 32-bit integer that was written is read back, and nothing after it is
/// touched.
pub proof fn lemma_get_put_u32(v: u32, tail: Seq<u8>)
    ensures
        get_u32(be32(v) + tail) == Some((v, tail)),
{
    lemma_be32_round_trip(v);
    assert((be32(v) + tail).skip(4) =~= tail);
}

/// A boolean that was written is read back.
pub proof fn lemma_get_put_bool(b: bool, tail: Seq<u8>)
    ensures
        get_bool(wire_bool(b) + tail) == Some((b, tail)),
{
    assert((wire_bool(b) + tail).skip(1) =~= tail);
}

/// A byte that was written is read back.
pub proof fn lemma_get_put_u8(b: u8, tail: Seq<u8>)
    ensures
        get_u8(seq![b] + tail) == Some((b, tail)),
{
    assert((seq![b] + tail).skip(1) =~= tail);
}

/// A string that was written is read back, provided its length fits the
/// 32-bit prefix.
pub proof fn lemma_get_put_string(s: Seq<u8>, tail: Seq<u8>)
    requires
        s.len() <= u32::MAX,
    ensures
        get_string(wire_string(s) + tail) == Some((s, tail)),
{
    assert(wire_string(s) + tail =~= be32(s.len() as u32) + (s + tail));
    lemma_get_put_u32(s.len() as u32, s + tail);
    assert((s + tail).take(s.len() as int) =~= s);
    assert((s + tail).skip(s.len() as int) =~= tail);
}

/// Four parts joined from the left are the same bytes as joined from the right.
pub proof fn lemma_regroup4(a: Seq<u8>, b: Seq<u8>, c: Seq<u8>, d: Seq<u8>)
    ensures
        a + b + c + d == a + (b + (c + (d + Seq::empty()))),
{
    assert(a + b + c + d =~= a + (b + (c + (d + Seq::empty()))));
}

/// A cursor over the unread part of a buffer.
pub struct Reader<'a> {
    buf: &'a [u8],
    pos: usize,
}

impl<'a> View for Reader<'a> {
    type V = Seq<u8>;

    /// The bytes that have not been read yet.
    closed spec fn view(&self) -> Seq<u8> {
        self.buf@.skip(self.pos as int)
    }
}

impl<'a> Reader<'a> {
    #[verifier::type_invariant]
    spec fn well_formed(self) -> bool {
        self.pos <= self.buf@.len()
    }

    /// A cursor at the start of `buf`.
    pub fn new(buf: &'a [u8]) -> (r: Self)
        ensures
            r@ == buf@,
    {
        let r = Reader { buf, pos: 0 };
        assert(r@ =~= buf@);
        r
    }

    /// How many bytes have not been read yet.
    pub fn remaining(&self) -> (n: usize)
        ensures
            n == self@.len(),
    {
        proof {
            use_type_invariant(self);
        }
        self.buf.len() - self.pos
    }

    /// Take the next `n` bytes.
    pub fn take(&mut self, n: usize) -> (r: Result<&'a [u8], Error>)
        ensures
            match get_bytes(old(self)@, n as nat) {
                Some((bytes, rest)) => r matches Ok(b) && b@ == bytes && final(self)@ == rest,
                None => r == Err::<&'a [u8], Error>(truncated()) && final(self)@ == old(self)@,
            },
    {
        proof {
            use_type_invariant(&*self);
        }
        if n > self.buf.len() - self.pos {
            return Err(Error::Format("unexpected end of buffer"));
        }
        let start: usize = self.pos;
        let end: usize = start + n;
        let out = vstd::slice::slice_subrange(self.buf, start, end);
        self.pos = end;
        proof {
            assert(out@ =~= old(self)@.take(n as int));
            assert(self@ =~= old(self)@.skip(n as int));
        }
        Ok(out)
    }

    /// Read one byte.
    pub fn read_u8(&mut self) -> (r: Result<u8, Error>)
        ensures
            match get_u8(old(self)@) {
                Some((v, rest)) => r == Ok::<u8, Error>(v) && final(self)@ == rest,
                None => r == Err::<u8, Error>(truncated()) && final(self)@ == old(self)@,
            },
    {
        let b = self.take(1)?;
        Ok(b[0])
    }

    /// Read a boolean.
    pub fn read_bool(&mut self) -> (r: Result<bool, Error>)
        ensures
            match get_bool(old(self)@) {
                Some((v, rest)) => r == Ok::<bool, Error>(v) && final(self)@ == rest,
                None => r == Err::<bool, Error>(truncated()) && final(self)@ == old(self)@,
            },
    {
        let b = self.take(1)?;
        Ok(b[0] != 0)
    }

    /// Read a big-endian 32-bit integer.
    pub fn read_u32(&mut self) -> (r: Result<u32, Error>)
        ensures
            match get_u32(old(self)@) {
                Some((v, rest)) => r == Ok::<u32, Error>(v) && final(self)@ == rest,
                None => r == Err::<u32, Error>(truncated()) && final(self)@ == old(self)@,
            },
    {
        let b = self.take(4)?;
        Ok(
            b[0] as u32 * 0x100_0000 + b[1] as u32 * 0x1_0000 + b[2] as u32 * 0x100 + b[3] as u32,
        )
    }

    /// Read a length-prefixed string. On a short buffer nothing after the
    /// length prefix is consumed.
    pub fn read_string(&mut self) -> (r: Result<&'a [u8], Error>)
        ensures
            match get_string(old(self)@) {
                Some((bytes, rest)) => r matches Ok(b) && b@ == bytes && final(self)@ == rest,
                None => r == Err::<&'a [u8], Error>(truncated()) && final(self)@ == (
                match get_u32(old(self)@) {
                    Some((_, rest)) => rest,
                    None => old(self)@,
                }),
            },
    {
        let n: u32 = self.read_u32()?;
        self.take(n as usize)
    }
}

/// A growing output buffer.
pub struct Writer {
    buf: Vec<u8>,
}

impl View for Writer {
    type V = Seq<u8>;

    /// The bytes written so far.
    closed spec fn view(&self) -> Seq<u8> {
        self.buf@
    }
}

impl Writer {
    /// An empty buffer.
    pub fn new() -> (w: Self)
        ensures
            w@ == Seq::<u8>::empty(),
    {
        Writer { buf: Vec::new() }
    }

    /// Append one byte.
    pub fn write_u8(&mut self, v: u8)
        ensures
            final(self)@ == old(self)@ + seq![v],
    {
        self.buf.push(v);
        assert(self@ =~= old(self)@ + seq![v]);
    }

    /// Append a boolean.
    pub fn write_bool(&mut self, v: bool)
        ensures
            final(self)@ == old(self)@ + wire_bool(v),
    {
        self.write_u8(if v { 1 } else { 0 });
    }

    /// Append a big-endian 32-bit integer.
    pub fn write_u32(&mut self, v: u32)
        ensures
            final(self)@ == old(self)@ + be32(v),
    {
        self.buf.push((v / 0x100_0000) as u8);
        self.buf.push(((v / 0x1_0000) % 0x100) as u8);
        self.buf.push(((v / 0x100) % 0x100) as u8);
        self.buf.push((v % 0x100) as u8);
        assert(self@ =~= old(self)@ + be32(v));
    }

    /// Append bytes as they are.
    pub fn write_raw(&mut self, bytes: &[u8])
        ensures
            final(self)@ == old(self)@ + bytes@,
    {
        self.buf.extend_from_slice(bytes);
        assert(self@ =~= old(self)@ + bytes@);
    }

    /// Append a length-prefixed string. The prefix holds the length modulo
    /// 2^32.
    pub fn write_string(&mut self, bytes: &[u8])
        ensures
            final(self)@ == old(self)@ + wire_string(bytes@),
    {
        let n: usize = bytes.len();
        self.write_u32(
            #[verifier::truncate]
            (n as u32),
        );
        self.write_raw(bytes);
        assert(self@ =~= old(self)@ + wire_string(bytes@));
    }

    /// The bytes written so far.
    pub fn as_slice(&self) -> (s: &[u8])
        ensures
            s@ == self@,
    {
        self.buf.as_slice()
    }

    /// Hand over the bytes written so far.
    pub fn into_vec(self) -> (v: Vec<u8>)
        ensures
            v@ == self@,
    {
        self.buf
    }
}

/// The `width` bytes of `n`, most significant first.
pub open spec fn big_endian(n: nat, width: nat) -> Seq<u8>
    decreases width,
{
    if width == 0 {
        Seq::empty()
    } else {
        big_endian(n / 0x100, (width - 1) as nat).push((n % 0x100) as u8)
    }
}

/// The number that bytes stand for, most significant first.
pub open spec fn big_endian_value(s: Seq<u8>) -> nat
    decreases s.len(),
{
    if s.len() == 0 {
        0
    } else {
        big_endian_value(s.drop_last()) * 0x100 + s.last() as nat
    }
}

/// `width` bytes are `width` bytes.
pub proof fn lemma_big_endian_len(n: nat, width: nat)
    ensures
        big_endian(n, width).len() == width,
    decreases width,
{
    if width > 0 {
        lemma_big_endian_len(n / 0x100, (width - 1) as nat);
    }
}

/// Writing the number that bytes stand for gives the bytes.
pub proof fn lemma_big_endian_of_value(s: Seq<u8>)
    ensures
        big_endian(big_endian_value(s), s.len()) == s,
    decreases s.len(),
{
    if s.len() > 0 {
        lemma_big_endian_of_value(s.drop_last());
        let n = big_endian_value(s);
        assert(n / 0x100 == big_endian_value(s.drop_last()));
        assert(n % 0x100 == s.last());
        assert(s =~= s.drop_last().push(s.last()));
    } else {
        assert(s =~= Seq::<u8>::empty());
    }
}

/// The eight bytes of a number stand for it.
pub proof fn lemma_value_of_big_endian8(n: u64)
    ensures
        big_endian_value(big_endian(n as nat, 8)) == n,
{
    lemma_value_of_big_endian(n as nat, 8);
    assert(n / 0x100_0000_0000_0000 < 0x100);
    reveal_with_fuel(low_part, 9);
}

/// What is left of a number that is written in `width` bytes.
spec fn low_part(n: nat, width: nat) -> nat
    decreases width,
{
    if width == 0 {
        0
    } else {
        low_part(n / 0x100, (width - 1) as nat) * 0x100 + n % 0x100
    }
}

proof fn lemma_value_of_big_endian(n: nat, width: nat)
    ensures
        big_endian_value(big_endian(n, width)) == low_part(n, width),
    decreases width,
{
    if width > 0 {
        lemma_value_of_big_endian(n / 0x100, (width - 1) as nat);
        assert(big_endian(n, width).drop_last() =~= big_endian(n / 0x100, (width - 1) as nat));
    }
}

} // verus!
