//! Wire primitives: big-endian 16-bit integers, length-prefixed blocks, and a
//! cursor over a byte slice.
//!
//! Multi-byte integers are in network byte order.  The conversion between a
//! `u16` and its two bytes is done by the `byteorder` crate; everything
//! around it (bounds checks, advancing the cursor, framing) is verified here.
use crate::errors::Error;
use byteorder::{BigEndian, ByteOrder};
use vstd::prelude::*;
use vstd::slice::{slice_subrange, slice_to_vec};

verus! {

/// The integer whose big-endian encoding is the first two bytes of `bytes`.
pub open spec fn u16_from_be(bytes: Seq<u8>) -> u16
    recommends
        bytes.len() >= 2,
{
    (bytes[0] as int * 256 + bytes[1] as int) as u16
}

/// The two bytes that encode `n` in big-endian order.
pub open spec fn u16_to_be(n: u16) -> Seq<u8> {
    seq![(n / 256) as u8, (n % 256) as u8]
}

/// Encoding a `u16` and decoding the result gives the integer back, whatever
/// bytes follow.
pub proof fn lemma_u16_be_round_trip(n: u16, rest: Seq<u8>)
    ensures
        u16_from_be(u16_to_be(n) + rest) == n,
        u16_to_be(n).len() == 2,
{
}

/// Decoding two bytes and encoding the result gives the two bytes back.
pub proof fn lemma_u16_be_canonical(bytes: Seq<u8>)
    requires
        bytes.len() >= 2,
    ensures
        u16_to_be(u16_from_be(bytes)) == bytes.subrange(0, 2),
{
    assert(u16_to_be(u16_from_be(bytes)) =~= bytes.subrange(0, 2));
}

/// What a decoder makes of an input: the value it found or the reason it
/// stopped, and how many bytes it consumed on the way.
pub struct Decoded<T> {
    pub result: Result<T, Error>,
    pub consumed: nat,
}

impl<T> Decoded<T> {
    /// The same outcome, its value wrapped by `wrap`.
    pub open spec fn map<U>(self, wrap: spec_fn(T) -> U) -> Decoded<U> {
        Decoded {
            result: match self.result {
                Ok(value) => Ok(wrap(value)),
                Err(e) => Err(e),
            },
            consumed: self.consumed,
        }
    }

    /// The same outcome, seen from `n` bytes earlier in the input.
    pub open spec fn after(self, n: nat) -> Decoded<T> {
        Decoded { result: self.result, consumed: n + self.consumed }
    }
}

/// The result `r` of a call is the `expected` one: the same error, or a value
/// whose view is the expected value.
pub open spec fn agrees<T: View>(r: Result<T, Error>, expected: Result<T::V, Error>) -> bool {
    match r {
        Ok(value) => expected == Ok::<T::V, Error>(value@),
        Err(e) => expected == Err::<T::V, Error>(e),
    }
}

/// Reading a big-endian `u16` off the front of `input`.
pub open spec fn spec_read_u16(input: Seq<u8>) -> Decoded<u16> {
    if input.len() >= 2 {
        Decoded { result: Ok(u16_from_be(input)), consumed: 2 }
    } else {
        Decoded { result: Err(Error::UnexpectedEof), consumed: 0 }
    }
}

/// Reading exactly `n` bytes off the front of `input`.
pub open spec fn spec_read_exact(input: Seq<u8>, n: nat) -> Decoded<Seq<u8>> {
    if input.len() >= n {
        Decoded { result: Ok(input.take(n as int)), consumed: n }
    } else {
        Decoded { result: Err(Error::UnexpectedEof), consumed: 0 }
    }
}

/// Whether a payload can be framed: its length must fit the 16-bit length
/// field.
pub open spec fn fits_length_field(payload: Seq<u8>) -> bool {
    payload.len() <= 0xFFFF
}

/// A block as it travels: the length of the payload as a 16-bit integer,
/// then the payload.  Defined for the payloads that fit the length field.
pub open spec fn length_prefixed(payload: Seq<u8>) -> Seq<u8>
    recommends
        fits_length_field(payload),
{
    u16_to_be(payload.len() as u16) + payload
}

/// Reading a block off the front of `input`: a 16-bit length, then that many
/// bytes.  When the bytes are not all there, the length stays consumed.
pub open spec fn spec_read_length_prefixed(input: Seq<u8>) -> Decoded<Seq<u8>> {
    let length = spec_read_u16(input);
    match length.result {
        Err(e) => Decoded { result: Err(e), consumed: length.consumed },
        Ok(n) => {
            let payload = spec_read_exact(input.skip(2), n as nat);
            Decoded { result: payload.result, consumed: 2 + payload.consumed }
        },
    }
}

/// The length field of a block holds the length of its payload.  So a block
/// that fits the length field is read back as it was written, whatever bytes
/// follow it, and reading it consumes the block and nothing else.
pub proof fn lemma_length_prefixed_round_trip(payload: Seq<u8>, rest: Seq<u8>)
    requires
        fits_length_field(payload),
    ensures
        u16_from_be(length_prefixed(payload) + rest) == payload.len(),
        spec_read_length_prefixed(length_prefixed(payload) + rest) == (Decoded {
            result: Ok(payload),
            consumed: length_prefixed(payload).len(),
        }),
        length_prefixed(payload).len() == 2 + payload.len(),
{
    let n = payload.len() as u16;
    let input = length_prefixed(payload) + rest;
    lemma_u16_be_round_trip(n, payload + rest);
    assert(input =~= u16_to_be(n) + (payload + rest));
    assert(input.skip(2) =~= payload + rest);
    assert((payload + rest).take(payload.len() as int) =~= payload);
}

/// A block that was read is written back as the bytes it was read from.
pub proof fn lemma_length_prefixed_canonical(input: Seq<u8>)
    requires
        spec_read_length_prefixed(input).result is Ok,
    ensures
        length_prefixed(spec_read_length_prefixed(input).result->Ok_0) == input.take(
            spec_read_length_prefixed(input).consumed as int,
        ),
        fits_length_field(spec_read_length_prefixed(input).result->Ok_0),
        spec_read_length_prefixed(input).consumed <= input.len(),
{
    let block = spec_read_length_prefixed(input);
    let payload = block.result->Ok_0;
    lemma_u16_be_canonical(input);
    assert(length_prefixed(payload) =~= input.take(block.consumed as int));
}

/// How many more bytes must follow `prefix` before the block that `prefix`
/// begins can be read: first the length, then the payload that the length
/// announces.  Zero when they are all there.
pub open spec fn spec_length_prefixed_bytes_needed(prefix: Seq<u8>) -> nat {
    if prefix.len() < 2 {
        (2 - prefix.len()) as nat
    } else if prefix.len() < 2 + u16_from_be(prefix) {
        (2 + u16_from_be(prefix) - prefix.len()) as nat
    } else {
        0
    }
}

/// Bytes added behind the first two do not change the integer that the
/// first two encode, and what follows the first two is what followed them
/// before, with the added bytes behind.
pub proof fn lemma_header_of_prefix(prefix: Seq<u8>, more: Seq<u8>)
    requires
        prefix.len() >= 2,
    ensures
        u16_from_be(prefix + more) == u16_from_be(prefix),
        (prefix + more).skip(2) == prefix.skip(2) + more,
{
    assert((prefix + more).skip(2) =~= prefix.skip(2) + more);
}

/// While bytes are asked for, the block cannot be read yet, not from the
/// prefix and not from the prefix with fewer bytes added than were asked for.
pub proof fn lemma_length_prefixed_needed_bytes_are_missing(prefix: Seq<u8>, more: Seq<u8>)
    requires
        more.len() < spec_length_prefixed_bytes_needed(prefix),
    ensures
        spec_read_length_prefixed(prefix + more).result == Err::<Seq<u8>, Error>(
            Error::UnexpectedEof,
        ),
{
    if prefix.len() >= 2 {
        lemma_header_of_prefix(prefix, more);
    }
}

/// Once nothing is asked for, the block is all there and is read.  And a
/// prefix that was completed by fetching exactly what was asked for is
/// consumed whole.
pub proof fn lemma_length_prefixed_nothing_needed_means_complete(prefix: Seq<u8>, more: Seq<u8>)
    requires
        spec_length_prefixed_bytes_needed(prefix + more) == 0,
    ensures
        spec_read_length_prefixed(prefix + more).result is Ok,
        spec_length_prefixed_bytes_needed(prefix) == more.len() && more.len() > 0
            ==> spec_read_length_prefixed(prefix + more).consumed == (prefix + more).len(),
{
    if prefix.len() >= 2 {
        lemma_header_of_prefix(prefix, more);
    }
}

/// Fetching ends: once the length is there, fetching what is asked for
/// completes the block.
pub proof fn lemma_length_prefixed_fetch_completes(prefix: Seq<u8>, more: Seq<u8>)
    requires
        prefix.len() >= 2,
        spec_length_prefixed_bytes_needed(prefix) == more.len(),
    ensures
        spec_length_prefixed_bytes_needed(prefix + more) == 0,
{
    lemma_header_of_prefix(prefix, more);
}

/// Trusted: `byteorder::BigEndian::read_u16`.  It reads the first two bytes
/// of `buf` as a big-endian integer and panics on a shorter slice, which the
/// precondition rules out.
#[verifier::external_body]
fn be_read_u16(buf: &[u8]) -> (n: u16)
    requires
        buf@.len() >= 2,
    ensures
        n == u16_from_be(buf@),
{
    BigEndian::read_u16(buf)
}

/// Trusted: `byteorder::BigEndian::write_u16`.  It overwrites the first two
/// bytes of `buf` with the big-endian encoding of `n`, leaves the others as
/// they were, and panics on a shorter slice, which the precondition rules
/// out.
#[verifier::external_body]
fn be_write_u16(buf: &mut [u8], n: u16)
    requires
        old(buf)@.len() >= 2,
    ensures
        final(buf)@ == u16_to_be(n) + old(buf)@.skip(2),
{
    BigEndian::write_u16(buf, n)
}

/// Appends the big-endian encoding of `n` to `writer`.
pub fn put_u16(writer: &mut Vec<u8>, n: u16)
    ensures
        final(writer)@ == old(writer)@ + u16_to_be(n),
{
    let mut buf: [u8; 2] = [0, 0];
    be_write_u16(&mut buf, n);
    writer.push(buf[0]);
    writer.push(buf[1]);
    assert(writer@ =~= old(writer)@ + u16_to_be(n));
}

/// A cursor over a byte slice: the bytes already consumed lie before it, the
/// bytes still to be read after it.
///
/// A read that cannot be satisfied consumes nothing.
pub struct ByteReader<'a> {
    data: &'a [u8],
    pos: usize,
}

impl<'a> View for ByteReader<'a> {
    type V = Seq<u8>;

    /// The bytes that have not been consumed yet.
    closed spec fn view(&self) -> Seq<u8> {
        self.data@.subrange(self.pos as int, self.data@.len() as int)
    }
}

impl<'a> ByteReader<'a> {
    #[verifier::type_invariant]
    spec fn within_bounds(self) -> bool {
        self.pos <= self.data@.len()
    }

    /// How many bytes have been consumed since the reader was made.
    pub closed spec fn consumed(self) -> nat {
        self.pos as nat
    }

    /// `after` is `self` moved forward by `n` bytes.
    pub open spec fn advances_to(self, after: Self, n: nat) -> bool {
        &&& n <= self@.len()
        &&& after@ == self@.skip(n as int)
        &&& after.consumed() == self.consumed() + n
    }

    /// A reader positioned at the start of `data`.
    pub fn new(data: &'a [u8]) -> (reader: Self)
        ensures
            reader@ == data@,
            reader.consumed() == 0,
    {
        let reader = ByteReader { data, pos: 0 };
        assert(reader@ =~= data@);
        reader
    }

    /// The number of bytes consumed so far.
    pub fn position(&self) -> (pos: usize)
        ensures
            pos == self.consumed(),
    {
        self.pos
    }

    /// The number of bytes left to read.
    pub fn remaining(&self) -> (n: usize)
        ensures
            n == self@.len(),
    {
        proof {
            use_type_invariant(self);
        }
        self.data.len() - self.pos
    }

    /// A call that returned `r` and moved the reader from `self` to `after`
    /// did what `expected` says: it consumed that many bytes and returned
    /// that result.
    pub open spec fn yields<T: View>(
        self,
        after: Self,
        r: Result<T, Error>,
        expected: Decoded<T::V>,
    ) -> bool {
        &&& self.advances_to(after, expected.consumed)
        &&& agrees(r, expected.result)
    }

    /// Reads a big-endian `u16`.
    pub fn read_u16(&mut self) -> (r: Result<u16, Error>)
        ensures
            old(self).yields(*final(self), r, spec_read_u16(old(self)@)),
    {
        proof {
            use_type_invariant(&*self);
        }
        if self.data.len() - self.pos < 2 {
            assert(self@ =~= self@.skip(0));
            return Err(Error::UnexpectedEof);
        }
        let n = be_read_u16(slice_subrange(self.data, self.pos, self.data.len()));
        self.pos = self.pos + 2;
        assert(self@ =~= old(self)@.skip(2));
        Ok(n)
    }

    /// Reads exactly `n` bytes.
    pub fn read_exact(&mut self, n: usize) -> (r: Result<Vec<u8>, Error>)
        ensures
            old(self).yields(*final(self), r, spec_read_exact(old(self)@, n as nat)),
    {
        proof {
            use_type_invariant(&*self);
        }
        if self.data.len() - self.pos < n {
            assert(self@ =~= self@.skip(0));
            return Err(Error::UnexpectedEof);
        }
        let bytes = slice_to_vec(slice_subrange(self.data, self.pos, self.pos + n));
        self.pos = self.pos + n;
        assert(self@ =~= old(self)@.skip(n as int));
        assert(bytes@ =~= old(self)@.take(n as int));
        Ok(bytes)
    }

    /// Reads a block: a 16-bit length, then that many bytes.
    pub fn read_length_prefixed(&mut self) -> (r: Result<Vec<u8>, Error>)
        ensures
            old(self).yields(*final(self), r, spec_read_length_prefixed(old(self)@)),
    {
        let n = match self.read_u16() {
            Ok(n) => n,
            Err(e) => {
                return Err(e);
            },
        };
        let r = self.read_exact(n as usize);
        assert(self@ =~= old(self)@.skip(spec_read_length_prefixed(old(self)@).consumed as int));
        r
    }
}

/// Appends `payload` to `writer` as a block: its length as a 16-bit
/// integer, then the payload itself.  A payload of more than 65535 bytes has
/// no such length: it is refused with `InvalidEncoding` and nothing is
/// written.
pub fn put_length_prefixed(writer: &mut Vec<u8>, payload: &[u8]) -> (r: Result<(), Error>)
    ensures
        r is Ok <==> fits_length_field(payload@),
        r is Ok ==> final(writer)@ == old(writer)@ + length_prefixed(payload@),
        r is Err ==> r == Err::<(), Error>(Error::InvalidEncoding) && final(writer)@ == old(
            writer,
        )@,
{
    if payload.len() > 0xFFFF {
        return Err(Error::InvalidEncoding);
    }
    put_u16(writer, payload.len() as u16);
    writer.extend_from_slice(payload);
    assert(writer@ =~= old(writer)@ + length_prefixed(payload@));
    Ok(())
}

/// Tells a caller that takes its bytes from a stream how many to fetch next,
/// given the bytes of one block fetched so far.
pub fn length_prefixed_bytes_needed(prefix: &[u8]) -> (n: usize)
    ensures
        n == spec_length_prefixed_bytes_needed(prefix@),
{
    let have = prefix.len();
    if have < 2 {
        return 2 - have;
    }
    let announced = be_read_u16(prefix) as usize;
    if have - 2 < announced {
        announced - (have - 2)
    } else {
        0
    }
}

} // verus!
