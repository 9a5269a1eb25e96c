//! The server name extension: the host name the client wants to reach.
//!
//! The body is a 16-bit length followed by that many bytes, which must be
//! the UTF-8 encoding of the name.  There is no name-type byte in front of
//! the name.
use crate::errors::Error;
use crate::extension::ExtensionValue;
use crate::wire::{
    fits_length_field, lemma_length_prefixed_needed_bytes_are_missing,
    lemma_length_prefixed_nothing_needed_means_complete, lemma_length_prefixed_round_trip,
    length_prefixed, length_prefixed_bytes_needed, put_length_prefixed,
    spec_length_prefixed_bytes_needed, spec_read_length_prefixed, ByteReader, Decoded,
};
use std::string::FromUtf8Error;
use vstd::prelude::*;
use vstd::utf8::{decode_utf8, encode_utf8, valid_utf8};

verus! {

/// The error of `String::from_utf8`; nothing is read from it.
#[verifier::external_type_specification]
#[verifier::external_body]
pub struct ExFromUtf8Error(std::string::FromUtf8Error);

/// Trusted: `String::from_utf8` succeeds exactly on valid UTF-8, and the
/// string it then returns is made of the bytes it was given.
pub assume_specification[ String::from_utf8 ](vec: Vec<u8>) -> (r: Result<String, FromUtf8Error>)
    ensures
        r is Ok <==> valid_utf8(vec@),
        r matches Ok(s) ==> encode_utf8(s@) == vec@,
;

/// The host name the client asks for.
#[derive(Clone, Debug, PartialEq, Eq)]
pub struct ExtensionServerName {
    pub server_name: String,
}

impl View for ExtensionServerName {
    type V = Seq<char>;

    /// The name, as a sequence of characters.
    open spec fn view(&self) -> Seq<char> {
        self.server_name@
    }
}

impl ExtensionServerName {
    /// The names that have a body: those whose UTF-8 encoding has at most
    /// 65535 bytes, so that its length fits the 16-bit length field.
    pub open spec fn is_encodable(name: Seq<char>) -> bool {
        fits_length_field(encode_utf8(name))
    }

    /// The body of an encodable name: the length of its UTF-8 encoding in
    /// bytes, then those bytes.
    pub open spec fn spec_marshal(name: Seq<char>) -> Seq<u8>
        recommends
            Self::is_encodable(name),
    {
        length_prefixed(encode_utf8(name))
    }

    /// Decoding a body: a length-prefixed block whose payload must be valid
    /// UTF-8.  An invalid payload is consumed before it is rejected.
    pub open spec fn spec_unmarshal(input: Seq<u8>) -> Decoded<Seq<char>> {
        let block = spec_read_length_prefixed(input);
        match block.result {
            Err(e) => Decoded { result: Err(e), consumed: block.consumed },
            Ok(payload) => Decoded {
                result: if valid_utf8(payload) {
                    Ok(decode_utf8(payload))
                } else {
                    Err(Error::InvalidEncoding)
                },
                consumed: block.consumed,
            },
        }
    }

    /// How many more bytes must follow `prefix` before the body that
    /// `prefix` begins can be decoded: first the length, then the bytes of
    /// the name.
    pub open spec fn spec_bytes_needed(prefix: Seq<u8>) -> nat {
        spec_length_prefixed_bytes_needed(prefix)
    }

    /// The identity under which this payload travels.
    pub fn extension_value(&self) -> (id: ExtensionValue)
        ensures
            id == ExtensionValue::ServerName,
    {
        ExtensionValue::ServerName
    }

    /// Appends the body to `writer`.  A name of more than 65535 bytes is
    /// refused with `InvalidEncoding`, and nothing is written.
    pub fn marshal(&self, writer: &mut Vec<u8>) -> (r: Result<(), Error>)
        ensures
            r is Ok <==> Self::is_encodable(self@),
            r is Ok ==> final(writer)@ == old(writer)@ + Self::spec_marshal(self@),
            r is Err ==> r == Err::<(), Error>(Error::InvalidEncoding) && final(writer)@ == old(
                writer,
            )@,
    {
        put_length_prefixed(writer, self.server_name.as_str().as_bytes())
    }

    /// Reads a body from `reader`.
    pub fn unmarshal(reader: &mut ByteReader) -> (r: Result<Self, Error>)
        ensures
            old(reader).yields(*final(reader), r, Self::spec_unmarshal(old(reader)@)),
    {
        let payload = match reader.read_length_prefixed() {
            Ok(payload) => payload,
            Err(e) => {
                return Err(e);
            },
        };
        match String::from_utf8(payload) {
            Ok(server_name) => {
                proof {
                    vstd::utf8::encode_utf8_decode_utf8(server_name@);
                }
                Ok(ExtensionServerName { server_name })
            },
            Err(_) => Err(Error::InvalidEncoding),
        }
    }

    /// Tells a caller that takes its bytes from a stream how many to fetch
    /// next, given the bytes of one body fetched so far.
    pub fn bytes_needed(prefix: &[u8]) -> (n: usize)
        ensures
            n == Self::spec_bytes_needed(prefix@),
    {
        length_prefixed_bytes_needed(prefix)
    }
}

/// An encodable name is read back as it was written, whatever bytes follow,
/// and reading it consumes the body and nothing else.
pub proof fn lemma_server_name_round_trip(name: Seq<char>, rest: Seq<u8>)
    requires
        ExtensionServerName::is_encodable(name),
    ensures
        ExtensionServerName::spec_unmarshal(ExtensionServerName::spec_marshal(name) + rest)
            == (Decoded {
            result: Ok(name),
            consumed: ExtensionServerName::spec_marshal(name).len(),
        }),
{
    lemma_length_prefixed_round_trip(encode_utf8(name), rest);
    vstd::utf8::encode_utf8_valid_utf8(name);
    vstd::utf8::encode_utf8_decode_utf8(name);
}

/// A body whose payload is not valid UTF-8 is rejected as wrongly encoded,
/// and no name comes out of it.
pub proof fn lemma_invalid_utf8_rejected(input: Seq<u8>)
    requires
        spec_read_length_prefixed(input).result matches Ok(payload) && !valid_utf8(payload),
    ensures
        ExtensionServerName::spec_unmarshal(input).result == Err::<Seq<char>, Error>(
            Error::InvalidEncoding,
        ),
{
}

/// While bytes are asked for, the body cannot be decoded yet, not from the
/// prefix and not from the prefix with fewer bytes added than were asked for.
pub proof fn lemma_server_name_needed_bytes_are_missing(prefix: Seq<u8>, more: Seq<u8>)
    requires
        more.len() < ExtensionServerName::spec_bytes_needed(prefix),
    ensures
        ExtensionServerName::spec_unmarshal(prefix + more).result == Err::<Seq<char>, Error>(
            Error::UnexpectedEof,
        ),
{
    lemma_length_prefixed_needed_bytes_are_missing(prefix, more);
}

/// Once nothing is asked for, the body is all there: decoding it does not
/// run out of input.  And a prefix that was completed by fetching exactly
/// what was asked for is consumed whole.
pub proof fn lemma_server_name_nothing_needed_means_complete(prefix: Seq<u8>, more: Seq<u8>)
    requires
        ExtensionServerName::spec_bytes_needed(prefix + more) == 0,
    ensures
        ExtensionServerName::spec_unmarshal(prefix + more).result != Err::<Seq<char>, Error>(
            Error::UnexpectedEof,
        ),
        ExtensionServerName::spec_bytes_needed(prefix) == more.len() && more.len() > 0
            ==> ExtensionServerName::spec_unmarshal(prefix + more).consumed == (prefix
            + more).len(),
{
    lemma_length_prefixed_nothing_needed_means_complete(prefix, more);
}

} // verus!
