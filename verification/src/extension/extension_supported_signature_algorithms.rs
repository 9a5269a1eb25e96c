//! The supported signature algorithms extension.
//!
//! The body is a 16-bit length followed by that many bytes.  The bytes are
//! the list that the extension carries, in wire form; this crate frames the
//! list and leaves reading its entries to the handshake layer.
use crate::errors::Error;
use crate::extension::ExtensionValue;
use crate::wire::{
    fits_length_field, length_prefixed, length_prefixed_bytes_needed, put_length_prefixed,
    spec_length_prefixed_bytes_needed, spec_read_length_prefixed, ByteReader, Decoded,
};
use vstd::prelude::*;

verus! {

/// The list of signature algorithms an endpoint supports, in wire form.
#[derive(Clone, Debug, PartialEq, Eq)]
pub struct ExtensionSupportedSignatureAlgorithms {
    pub payload: Vec<u8>,
}

impl View for ExtensionSupportedSignatureAlgorithms {
    type V = Seq<u8>;

    /// The list, in wire form.
    open spec fn view(&self) -> Seq<u8> {
        self.payload@
    }
}

impl ExtensionSupportedSignatureAlgorithms {
    /// The lists that have a body: those of at most 65535 bytes.
    pub open spec fn is_encodable(payload: Seq<u8>) -> bool {
        fits_length_field(payload)
    }

    /// The body of an encodable list: the payload as a length-prefixed block.
    pub open spec fn spec_marshal(payload: Seq<u8>) -> Seq<u8>
        recommends
            Self::is_encodable(payload),
    {
        length_prefixed(payload)
    }

    /// Decoding a body: a length-prefixed block.
    pub open spec fn spec_unmarshal(input: Seq<u8>) -> Decoded<Seq<u8>> {
        spec_read_length_prefixed(input)
    }

    /// How many more bytes must follow `prefix` before the body that
    /// `prefix` begins can be decoded.
    pub open spec fn spec_bytes_needed(prefix: Seq<u8>) -> nat {
        spec_length_prefixed_bytes_needed(prefix)
    }

    /// The identity under which this payload travels.
    pub fn extension_value(&self) -> (id: ExtensionValue)
        ensures
            id == ExtensionValue::SupportedSignatureAlgorithms,
    {
        ExtensionValue::SupportedSignatureAlgorithms
    }

    /// Appends the body to `writer`.  A list of more than 65535 bytes is
    /// refused with `InvalidEncoding`, and nothing is written.
    pub fn marshal(&self, writer: &mut Vec<u8>) -> (r: Result<(), Error>)
        ensures
            r is Ok <==> Self::is_encodable(self@),
            r is Ok ==> final(writer)@ == old(writer)@ + Self::spec_marshal(self@),
            r is Err ==> r == Err::<(), Error>(Error::InvalidEncoding) && final(writer)@ == old(
                writer,
            )@,
    {
        put_length_prefixed(writer, self.payload.as_slice())
    }

    /// Reads a body from `reader`.
    pub fn unmarshal(reader: &mut ByteReader) -> (r: Result<Self, Error>)
        ensures
            old(reader).yields(*final(reader), r, Self::spec_unmarshal(old(reader)@)),
    {
        match reader.read_length_prefixed() {
            Ok(payload) => Ok(ExtensionSupportedSignatureAlgorithms { payload }),
            Err(e) => Err(e),
        }
    }

    /// Tells a caller that takes its bytes from a stream how many to fetch
    /// next, given the bytes of one body fetched so far.
    pub fn bytes_needed(prefix: &[u8]) -> (n: usize)
        ensures
            n == Self::spec_bytes_needed(prefix@),
    {
        length_prefixed_bytes_needed(prefix)
    }
}

} // verus!
