//! The extension type registry and the envelope that dispatches on it.
pub mod extension_server_name;
pub mod extension_supported_elliptic_curves;
pub mod extension_supported_point_formats;
pub mod extension_supported_signature_algorithms;
pub mod extension_use_extended_master_secret;
pub mod extension_use_srtp;

use crate::errors::Error;
use crate::extension::extension_server_name::{lemma_server_name_round_trip, ExtensionServerName};
use crate::extension::extension_use_extended_master_secret::lemma_extended_master_secret_bytes_needed;
use crate::extension::extension_supported_elliptic_curves::ExtensionSupportedEllipticCurves;
use crate::extension::extension_supported_point_formats::ExtensionSupportedPointFormats;
use crate::extension::extension_supported_signature_algorithms::ExtensionSupportedSignatureAlgorithms;
use crate::extension::extension_use_extended_master_secret::ExtensionUseExtendedMasterSecret;
use crate::extension::extension_use_srtp::ExtensionUseSRTP;
use crate::wire::{
    lemma_header_of_prefix, lemma_length_prefixed_canonical,
    lemma_length_prefixed_fetch_completes, lemma_length_prefixed_needed_bytes_are_missing,
    lemma_length_prefixed_nothing_needed_means_complete, lemma_length_prefixed_round_trip,
    lemma_u16_be_canonical, lemma_u16_be_round_trip, put_u16, spec_read_length_prefixed,
    spec_read_u16, u16_from_be, u16_to_be, ByteReader, Decoded,
};
use vstd::slice::slice_subrange;
use vstd::prelude::*;
use vstd::std_specs::convert::FromSpecImpl;
use vstd::utf8::decode_utf8_encode_utf8;

verus! {

/// The identity of an extension type.  Six types are known; every other tag
/// is `Unsupported`.
#[derive(Clone, Copy, Debug, PartialEq, Eq, Structural)]
pub enum ExtensionValue {
    ServerName,
    SupportedEllipticCurves,
    SupportedPointFormats,
    SupportedSignatureAlgorithms,
    UseSRTP,
    UseExtendedMasterSecret,
    Unsupported,
}

impl ExtensionValue {
    /// The identity that a 16-bit tag stands for.  Total: a tag that is not
    /// registered stands for `Unsupported`.
    pub open spec fn identity_of(tag: u16) -> ExtensionValue {
        if tag == 0 {
            ExtensionValue::ServerName
        } else if tag == 10 {
            ExtensionValue::SupportedEllipticCurves
        } else if tag == 11 {
            ExtensionValue::SupportedPointFormats
        } else if tag == 13 {
            ExtensionValue::SupportedSignatureAlgorithms
        } else if tag == 14 {
            ExtensionValue::UseSRTP
        } else if tag == 23 {
            ExtensionValue::UseExtendedMasterSecret
        } else {
            ExtensionValue::Unsupported
        }
    }

    /// The tag under which an identity travels.  `Unsupported` has none.
    pub open spec fn wire_tag_of(self) -> Option<u16> {
        match self {
            ExtensionValue::ServerName => Some(0u16),
            ExtensionValue::SupportedEllipticCurves => Some(10u16),
            ExtensionValue::SupportedPointFormats => Some(11u16),
            ExtensionValue::SupportedSignatureAlgorithms => Some(13u16),
            ExtensionValue::UseSRTP => Some(14u16),
            ExtensionValue::UseExtendedMasterSecret => Some(23u16),
            ExtensionValue::Unsupported => None,
        }
    }

    /// The 16-bit tag of a known identity.  `Unsupported` is never written,
    /// so it is not a valid argument.
    pub fn wire_tag(self) -> (tag: u16)
        requires
            self != ExtensionValue::Unsupported,
        ensures
            self.wire_tag_of() == Some(tag),
            ExtensionValue::identity_of(tag) == self,
    {
        match self {
            ExtensionValue::ServerName => 0,
            ExtensionValue::SupportedEllipticCurves => 10,
            ExtensionValue::SupportedPointFormats => 11,
            ExtensionValue::SupportedSignatureAlgorithms => 13,
            ExtensionValue::UseSRTP => 14,
            ExtensionValue::UseExtendedMasterSecret => 23,
            ExtensionValue::Unsupported => vstd::pervasive::unreached(),
        }
    }
}

impl From<u16> for ExtensionValue {
    /// Classifies a tag read off the wire.  Never fails: an unknown tag is
    /// `Unsupported`.
    fn from(val: u16) -> (id: Self) {
        match val {
            0 => ExtensionValue::ServerName,
            10 => ExtensionValue::SupportedEllipticCurves,
            11 => ExtensionValue::SupportedPointFormats,
            13 => ExtensionValue::SupportedSignatureAlgorithms,
            14 => ExtensionValue::UseSRTP,
            23 => ExtensionValue::UseExtendedMasterSecret,
            _ => ExtensionValue::Unsupported,
        }
    }
}

impl FromSpecImpl<u16> for ExtensionValue {
    open spec fn obeys_from_spec() -> bool {
        true
    }

    open spec fn from_spec(val: u16) -> Self {
        ExtensionValue::identity_of(val)
    }
}

/// Tag fidelity: the tag of a known identity is classified as that identity
/// again.
pub proof fn lemma_tag_fidelity(id: ExtensionValue)
    requires
        id != ExtensionValue::Unsupported,
    ensures
        id.wire_tag_of() is Some,
        ExtensionValue::identity_of(id.wire_tag_of()->0) == id,
{
}

/// The registry is one-to-one on the known tags: a tag that is classified as
/// a known identity is the tag of that identity, so two different tags never
/// share a known identity.
pub proof fn lemma_identity_injective(tag: u16)
    requires
        ExtensionValue::identity_of(tag) != ExtensionValue::Unsupported,
    ensures
        ExtensionValue::identity_of(tag).wire_tag_of() == Some(tag),
{
}

/// The registered tags are exactly 0, 10, 11, 13, 14 and 23.
pub proof fn lemma_registered_tags(tag: u16)
    ensures
        ExtensionValue::identity_of(tag) != ExtensionValue::Unsupported <==> (tag == 0 || tag == 10
            || tag == 11 || tag == 13 || tag == 14 || tag == 23),
{
}

/// One extension: exactly one payload, of one of the six known types.
#[derive(Clone, Debug, PartialEq, Eq)]
pub enum Extension {
    ServerName(ExtensionServerName),
    SupportedEllipticCurves(ExtensionSupportedEllipticCurves),
    SupportedPointFormats(ExtensionSupportedPointFormats),
    SupportedSignatureAlgorithms(ExtensionSupportedSignatureAlgorithms),
    UseSRTP(ExtensionUseSRTP),
    UseExtendedMasterSecret(ExtensionUseExtendedMasterSecret),
}

/// What an [`Extension`] holds, as mathematical values: the characters of a
/// server name, the bytes of a list, whether the extended master secret is
/// supported.
pub enum ExtensionView {
    ServerName(Seq<char>),
    SupportedEllipticCurves(Seq<u8>),
    SupportedPointFormats(Seq<u8>),
    SupportedSignatureAlgorithms(Seq<u8>),
    UseSRTP(Seq<u8>),
    UseExtendedMasterSecret(bool),
}

impl ExtensionView {
    /// The identity of the variant.  It is never `Unsupported`.
    pub open spec fn identity(self) -> ExtensionValue {
        match self {
            ExtensionView::ServerName(_) => ExtensionValue::ServerName,
            ExtensionView::SupportedEllipticCurves(_) => ExtensionValue::SupportedEllipticCurves,
            ExtensionView::SupportedPointFormats(_) => ExtensionValue::SupportedPointFormats,
            ExtensionView::SupportedSignatureAlgorithms(_) =>
                ExtensionValue::SupportedSignatureAlgorithms,
            ExtensionView::UseSRTP(_) => ExtensionValue::UseSRTP,
            ExtensionView::UseExtendedMasterSecret(_) => ExtensionValue::UseExtendedMasterSecret,
        }
    }

    /// The body that follows the tag, as the codec of the variant writes it.
    pub open spec fn body(self) -> Seq<u8> {
        match self {
            ExtensionView::ServerName(name) => ExtensionServerName::spec_marshal(name),
            ExtensionView::SupportedEllipticCurves(payload) =>
                ExtensionSupportedEllipticCurves::spec_marshal(payload),
            ExtensionView::SupportedPointFormats(payload) =>
                ExtensionSupportedPointFormats::spec_marshal(payload),
            ExtensionView::SupportedSignatureAlgorithms(payload) =>
                ExtensionSupportedSignatureAlgorithms::spec_marshal(payload),
            ExtensionView::UseSRTP(payload) => ExtensionUseSRTP::spec_marshal(payload),
            ExtensionView::UseExtendedMasterSecret(supported) =>
                ExtensionUseExtendedMasterSecret::spec_marshal(supported),
        }
    }

    /// The values that have an encoding: those whose payload has at most
    /// 65535 bytes, so that its length fits the 16-bit length field.
    pub open spec fn is_encodable(self) -> bool {
        match self {
            ExtensionView::ServerName(name) => ExtensionServerName::is_encodable(name),
            ExtensionView::SupportedEllipticCurves(payload) =>
                ExtensionSupportedEllipticCurves::is_encodable(payload),
            ExtensionView::SupportedPointFormats(payload) =>
                ExtensionSupportedPointFormats::is_encodable(payload),
            ExtensionView::SupportedSignatureAlgorithms(payload) =>
                ExtensionSupportedSignatureAlgorithms::is_encodable(payload),
            ExtensionView::UseSRTP(payload) => ExtensionUseSRTP::is_encodable(payload),
            ExtensionView::UseExtendedMasterSecret(_) => true,
        }
    }

    /// The values that the wire format carries without loss: the encodable
    /// ones, but for an extended master secret that is not `supported`.  It
    /// is written like one that is, and presence can only mean `supported`.
    pub open spec fn is_representable(self) -> bool {
        self.is_encodable() && self != ExtensionView::UseExtendedMasterSecret(false)
    }
}

impl View for Extension {
    type V = ExtensionView;

    open spec fn view(&self) -> ExtensionView {
        match self {
            Extension::ServerName(ext) => ExtensionView::ServerName(ext@),
            Extension::SupportedEllipticCurves(ext) => ExtensionView::SupportedEllipticCurves(ext@),
            Extension::SupportedPointFormats(ext) => ExtensionView::SupportedPointFormats(ext@),
            Extension::SupportedSignatureAlgorithms(ext) =>
                ExtensionView::SupportedSignatureAlgorithms(ext@),
            Extension::UseSRTP(ext) => ExtensionView::UseSRTP(ext@),
            Extension::UseExtendedMasterSecret(ext) => ExtensionView::UseExtendedMasterSecret(ext@),
        }
    }
}

impl Extension {
    /// An encodable extension as it travels: the tag of its type, then its
    /// body.
    pub open spec fn spec_marshal(ext: ExtensionView) -> Seq<u8>
        recommends
            ext.is_encodable(),
    {
        u16_to_be(ext.identity().wire_tag_of()->0) + ext.body()
    }

    /// Decoding an extension: a 16-bit tag, then the body that the codec of
    /// the tagged type reads.  An unknown tag is refused once it has been
    /// read, and nothing after it is touched.
    pub open spec fn spec_unmarshal(input: Seq<u8>) -> Decoded<ExtensionView> {
        let tag = spec_read_u16(input);
        match tag.result {
            Err(e) => Decoded { result: Err(e), consumed: tag.consumed },
            Ok(tag) => {
                let body = input.skip(2);
                match ExtensionValue::identity_of(tag) {
                    ExtensionValue::ServerName => ExtensionServerName::spec_unmarshal(body).map(
                        |name: Seq<char>| ExtensionView::ServerName(name),
                    ).after(2),
                    ExtensionValue::SupportedEllipticCurves =>
                        ExtensionSupportedEllipticCurves::spec_unmarshal(body).map(
                        |payload: Seq<u8>| ExtensionView::SupportedEllipticCurves(payload),
                    ).after(2),
                    ExtensionValue::SupportedPointFormats =>
                        ExtensionSupportedPointFormats::spec_unmarshal(body).map(
                        |payload: Seq<u8>| ExtensionView::SupportedPointFormats(payload),
                    ).after(2),
                    ExtensionValue::SupportedSignatureAlgorithms =>
                        ExtensionSupportedSignatureAlgorithms::spec_unmarshal(body).map(
                        |payload: Seq<u8>| ExtensionView::SupportedSignatureAlgorithms(payload),
                    ).after(2),
                    ExtensionValue::UseSRTP => ExtensionUseSRTP::spec_unmarshal(body).map(
                        |payload: Seq<u8>| ExtensionView::UseSRTP(payload),
                    ).after(2),
                    ExtensionValue::UseExtendedMasterSecret =>
                        ExtensionUseExtendedMasterSecret::spec_unmarshal(body).map(
                        |supported: bool| ExtensionView::UseExtendedMasterSecret(supported),
                    ).after(2),
                    ExtensionValue::Unsupported => Decoded {
                        result: Err(Error::InvalidExtensionType),
                        consumed: 2,
                    },
                }
            },
        }
    }

    /// The identity of the held variant, for callers that branch on the type
    /// without looking at the payload.
    pub fn extension_value(&self) -> (id: ExtensionValue)
        ensures
            id == self@.identity(),
            id != ExtensionValue::Unsupported,
    {
        match self {
            Extension::ServerName(ext) => ext.extension_value(),
            Extension::SupportedEllipticCurves(ext) => ext.extension_value(),
            Extension::SupportedPointFormats(ext) => ext.extension_value(),
            Extension::SupportedSignatureAlgorithms(ext) => ext.extension_value(),
            Extension::UseSRTP(ext) => ext.extension_value(),
            Extension::UseExtendedMasterSecret(ext) => ext.extension_value(),
        }
    }

    /// Appends the extension to `writer`: the 16-bit tag of the held variant,
    /// then its body.  A payload of more than 65535 bytes is refused with
    /// `InvalidEncoding`; the tag has then been written and is not taken
    /// back.
    pub fn marshal(&self, writer: &mut Vec<u8>) -> (r: Result<(), Error>)
        ensures
            r is Ok <==> self@.is_encodable(),
            r is Ok ==> final(writer)@ == old(writer)@ + Self::spec_marshal(self@),
            r is Ok ==> final(writer)@.len() == old(writer)@.len() + 2 + self@.body().len(),
            r is Err ==> r == Err::<(), Error>(Error::InvalidEncoding) && final(writer)@ == old(
                writer,
            )@ + u16_to_be(self@.identity().wire_tag_of()->0),
    {
        put_u16(writer, self.extension_value().wire_tag());
        let r = match self {
            Extension::ServerName(ext) => ext.marshal(writer),
            Extension::SupportedEllipticCurves(ext) => ext.marshal(writer),
            Extension::SupportedPointFormats(ext) => ext.marshal(writer),
            Extension::SupportedSignatureAlgorithms(ext) => ext.marshal(writer),
            Extension::UseSRTP(ext) => ext.marshal(writer),
            Extension::UseExtendedMasterSecret(ext) => ext.marshal(writer),
        };
        assert(r is Ok ==> writer@ =~= old(writer)@ + Self::spec_marshal(self@));
        r
    }

    /// Reads one extension from `reader`: the tag, then the body of the
    /// tagged type.  On an unknown tag it fails with `InvalidExtensionType`
    /// and leaves the reader right after the tag.
    pub fn unmarshal(reader: &mut ByteReader) -> (r: Result<Self, Error>)
        ensures
            old(reader).yields(*final(reader), r, Self::spec_unmarshal(old(reader)@)),
    {
        let tag = match reader.read_u16() {
            Ok(tag) => tag,
            Err(e) => {
                return Err(e);
            },
        };
        let ghost body = reader@;
        let r = match ExtensionValue::from(tag) {
            ExtensionValue::ServerName => {
                match ExtensionServerName::unmarshal(reader) {
                    Ok(ext) => Ok(Extension::ServerName(ext)),
                    Err(e) => Err(e),
                }
            },
            ExtensionValue::SupportedEllipticCurves => {
                match ExtensionSupportedEllipticCurves::unmarshal(reader) {
                    Ok(ext) => Ok(Extension::SupportedEllipticCurves(ext)),
                    Err(e) => Err(e),
                }
            },
            ExtensionValue::SupportedPointFormats => {
                match ExtensionSupportedPointFormats::unmarshal(reader) {
                    Ok(ext) => Ok(Extension::SupportedPointFormats(ext)),
                    Err(e) => Err(e),
                }
            },
            ExtensionValue::SupportedSignatureAlgorithms => {
                match ExtensionSupportedSignatureAlgorithms::unmarshal(reader) {
                    Ok(ext) => Ok(Extension::SupportedSignatureAlgorithms(ext)),
                    Err(e) => Err(e),
                }
            },
            ExtensionValue::UseSRTP => {
                match ExtensionUseSRTP::unmarshal(reader) {
                    Ok(ext) => Ok(Extension::UseSRTP(ext)),
                    Err(e) => Err(e),
                }
            },
            ExtensionValue::UseExtendedMasterSecret => {
                match ExtensionUseExtendedMasterSecret::unmarshal(reader) {
                    Ok(ext) => Ok(Extension::UseExtendedMasterSecret(ext)),
                    Err(e) => Err(e),
                }
            },
            ExtensionValue::Unsupported => {
                assert(reader@ =~= body.skip(0));
                Err(Error::InvalidExtensionType)
            },
        };
        assert(reader@ =~= old(reader)@.skip(Self::spec_unmarshal(old(reader)@).consumed as int));
        r
    }

    /// How many more bytes must follow `prefix` before the extension that
    /// `prefix` begins can be decoded: first the tag, then what the codec of
    /// the tagged type asks for.  Zero when they are all there;
    /// `InvalidExtensionType` as soon as the tag is there and is unknown.
    pub open spec fn spec_bytes_needed(prefix: Seq<u8>) -> Result<nat, Error> {
        if prefix.len() < 2 {
            Ok((2 - prefix.len()) as nat)
        } else {
            let body = prefix.skip(2);
            match ExtensionValue::identity_of(u16_from_be(prefix)) {
                ExtensionValue::ServerName => Ok(ExtensionServerName::spec_bytes_needed(body)),
                ExtensionValue::SupportedEllipticCurves => Ok(
                    ExtensionSupportedEllipticCurves::spec_bytes_needed(body),
                ),
                ExtensionValue::SupportedPointFormats => Ok(
                    ExtensionSupportedPointFormats::spec_bytes_needed(body),
                ),
                ExtensionValue::SupportedSignatureAlgorithms => Ok(
                    ExtensionSupportedSignatureAlgorithms::spec_bytes_needed(body),
                ),
                ExtensionValue::UseSRTP => Ok(ExtensionUseSRTP::spec_bytes_needed(body)),
                ExtensionValue::UseExtendedMasterSecret => Ok(
                    ExtensionUseExtendedMasterSecret::spec_bytes_needed(body),
                ),
                ExtensionValue::Unsupported => Err(Error::InvalidExtensionType),
            }
        }
    }

    /// Tells a caller that takes its bytes from a stream how many to fetch
    /// next, given the bytes of one extension fetched so far.  Fetching what
    /// is asked for, and asking again, ends with exactly the bytes that
    /// [`Extension::unmarshal`] consumes.
    pub fn bytes_needed(prefix: &[u8]) -> (r: Result<usize, Error>)
        ensures
            match r {
                Ok(n) => Self::spec_bytes_needed(prefix@) == Ok::<nat, Error>(n as nat),
                Err(e) => Self::spec_bytes_needed(prefix@) == Err::<nat, Error>(e),
            },
    {
        let have = prefix.len();
        let mut reader = ByteReader::new(prefix);
        let tag = match reader.read_u16() {
            Ok(tag) => tag,
            Err(_) => {
                return Ok(2 - have);
            },
        };
        let body = slice_subrange(prefix, 2, have);
        assert(body@ =~= prefix@.skip(2));
        match ExtensionValue::from(tag) {
            ExtensionValue::ServerName => Ok(ExtensionServerName::bytes_needed(body)),
            ExtensionValue::SupportedEllipticCurves => Ok(
                ExtensionSupportedEllipticCurves::bytes_needed(body),
            ),
            ExtensionValue::SupportedPointFormats => Ok(
                ExtensionSupportedPointFormats::bytes_needed(body),
            ),
            ExtensionValue::SupportedSignatureAlgorithms => Ok(
                ExtensionSupportedSignatureAlgorithms::bytes_needed(body),
            ),
            ExtensionValue::UseSRTP => Ok(ExtensionUseSRTP::bytes_needed(body)),
            ExtensionValue::UseExtendedMasterSecret => Ok(
                ExtensionUseExtendedMasterSecret::bytes_needed(body),
            ),
            ExtensionValue::Unsupported => Err(Error::InvalidExtensionType),
        }
    }
}

/// What was written is read in two steps: the tag is read as the tag of the
/// variant, and what follows it is the body of the variant with the rest
/// behind.
pub proof fn lemma_marshal_is_tag_then_body(ext: ExtensionView, rest: Seq<u8>)
    ensures
        spec_read_u16(Extension::spec_marshal(ext) + rest) == (Decoded::<u16> {
            result: Ok(ext.identity().wire_tag_of()->0),
            consumed: 2,
        }),
        ExtensionValue::identity_of(ext.identity().wire_tag_of()->0) == ext.identity(),
        (Extension::spec_marshal(ext) + rest).skip(2) == ext.body() + rest,
        Extension::spec_marshal(ext).len() == 2 + ext.body().len(),
{
    let tag = ext.identity().wire_tag_of()->0;
    let input = Extension::spec_marshal(ext) + rest;
    lemma_u16_be_round_trip(tag, ext.body() + rest);
    assert(input =~= u16_to_be(tag) + (ext.body() + rest));
    assert(input.skip(2) =~= ext.body() + rest);
}

/// Round trip: a representable extension is read back as it was written,
/// whatever bytes follow it, and reading it consumes its own bytes and
/// nothing else.
pub proof fn lemma_round_trip(ext: ExtensionView, rest: Seq<u8>)
    requires
        ext.is_representable(),
    ensures
        Extension::spec_unmarshal(Extension::spec_marshal(ext) + rest) == (Decoded {
            result: Ok(ext),
            consumed: Extension::spec_marshal(ext).len(),
        }),
{
    lemma_marshal_is_tag_then_body(ext, rest);
    match ext {
        ExtensionView::ServerName(name) => {
            lemma_server_name_round_trip(name, rest);
        },
        ExtensionView::SupportedEllipticCurves(payload)
        | ExtensionView::SupportedPointFormats(payload)
        | ExtensionView::SupportedSignatureAlgorithms(payload)
        | ExtensionView::UseSRTP(payload) => {
            lemma_length_prefixed_round_trip(payload, rest);
        },
        ExtensionView::UseExtendedMasterSecret(_) => {},
    }
}

/// The round trip holds of the representable extensions only.  The one
/// encodable extension that is not representable, an extended master secret
/// that is not `supported`, is read back as one that is.
pub proof fn lemma_round_trip_needs_representable(ext: ExtensionView, rest: Seq<u8>)
    requires
        ext.is_encodable(),
        !ext.is_representable(),
    ensures
        Extension::spec_unmarshal(Extension::spec_marshal(ext) + rest).result == Ok::<
            ExtensionView,
            Error,
        >(ExtensionView::UseExtendedMasterSecret(true)),
        Extension::spec_unmarshal(Extension::spec_marshal(ext) + rest).result != Ok::<
            ExtensionView,
            Error,
        >(ext),
{
    lemma_marshal_is_tag_then_body(ext, rest);
}

/// Whatever comes off the wire is representable, so the round trip holds of
/// every decoded extension.
pub proof fn lemma_decoded_is_representable(input: Seq<u8>)
    ensures
        Extension::spec_unmarshal(input).result matches Ok(ext) ==> ext.is_representable(),
        Extension::spec_unmarshal(input).consumed <= input.len(),
{
    if input.len() >= 2 && ExtensionValue::identity_of(u16_from_be(input))
        == ExtensionValue::ServerName {
        let block = spec_read_length_prefixed(input.skip(2));
        if block.result is Ok && vstd::utf8::valid_utf8(block.result->Ok_0) {
            decode_utf8_encode_utf8(block.result->Ok_0);
        }
    }
}

/// Byte-exact the other way: writing a decoded extension gives back the
/// bytes it was read from.  The one exception is an extended master secret
/// body whose length field is not zero: the field is ignored when read and
/// written as zero.
pub proof fn lemma_decoded_bytes_are_canonical(input: Seq<u8>)
    requires
        Extension::spec_unmarshal(input).result is Ok,
        ExtensionValue::identity_of(u16_from_be(input)) == ExtensionValue::UseExtendedMasterSecret
            ==> u16_from_be(input.skip(2)) == 0,
    ensures
        Extension::spec_marshal(Extension::spec_unmarshal(input).result->Ok_0) == input.take(
            Extension::spec_unmarshal(input).consumed as int,
        ),
{
    let decoded = Extension::spec_unmarshal(input);
    let ext = decoded.result->Ok_0;
    let body = input.skip(2);
    lemma_u16_be_canonical(input);
    lemma_identity_injective(u16_from_be(input));
    assert(input.take(2) =~= input.subrange(0, 2));
    assert(input.take(decoded.consumed as int) =~= input.take(2) + body.take(
        decoded.consumed - 2,
    ));
    match ext {
        ExtensionView::ServerName(name) => {
            lemma_length_prefixed_canonical(body);
            decode_utf8_encode_utf8(spec_read_length_prefixed(body).result->Ok_0);
        },
        ExtensionView::UseExtendedMasterSecret(_) => {
            lemma_u16_be_canonical(body);
            assert(body.take(2) =~= body.subrange(0, 2));
        },
        _ => {
            lemma_length_prefixed_canonical(body);
        },
    }
}

/// Rejection: an input that begins with a tag outside 0, 10, 11, 13, 14 and
/// 23 is refused with `InvalidExtensionType`, after exactly the two bytes of
/// the tag.
pub proof fn lemma_unknown_tag_rejected(input: Seq<u8>)
    requires
        input.len() >= 2,
        u16_from_be(input) != 0,
        u16_from_be(input) != 10,
        u16_from_be(input) != 11,
        u16_from_be(input) != 13,
        u16_from_be(input) != 14,
        u16_from_be(input) != 23,
    ensures
        Extension::spec_unmarshal(input) == (Decoded::<ExtensionView> {
            result: Err(Error::InvalidExtensionType),
            consumed: 2,
        }),
{
}

/// While bytes are asked for, the extension cannot be decoded yet, not from
/// the prefix and not from the prefix with fewer bytes added than were asked
/// for: no more is asked for than is needed.
pub proof fn lemma_needed_bytes_are_missing(prefix: Seq<u8>, more: Seq<u8>)
    requires
        Extension::spec_bytes_needed(prefix) matches Ok(n) && more.len() < n,
    ensures
        Extension::spec_unmarshal(prefix + more).result == Err::<ExtensionView, Error>(
            Error::UnexpectedEof,
        ),
{
    if prefix.len() >= 2 {
        lemma_header_of_prefix(prefix, more);
        if ExtensionValue::identity_of(u16_from_be(prefix))
            == ExtensionValue::UseExtendedMasterSecret {
            lemma_extended_master_secret_bytes_needed(prefix.skip(2), more);
        } else {
            lemma_length_prefixed_needed_bytes_are_missing(prefix.skip(2), more);
        }
    }
}

/// Once nothing is asked for, the bytes of the extension are all there:
/// decoding the prefix does not run out of input.  And a prefix that was
/// completed by fetching exactly what was asked for is consumed whole.
pub proof fn lemma_nothing_needed_means_complete(prefix: Seq<u8>, more: Seq<u8>)
    requires
        Extension::spec_bytes_needed(prefix + more) == Ok::<nat, Error>(0),
    ensures
        Extension::spec_unmarshal(prefix + more).result != Err::<ExtensionView, Error>(
            Error::UnexpectedEof,
        ),
        Extension::spec_bytes_needed(prefix) == Ok::<nat, Error>(more.len()) && more.len() > 0
            ==> Extension::spec_unmarshal(prefix + more).consumed == (prefix + more).len(),
{
    if prefix.len() >= 2 {
        lemma_header_of_prefix(prefix, more);
        if ExtensionValue::identity_of(u16_from_be(prefix))
            == ExtensionValue::UseExtendedMasterSecret {
            lemma_extended_master_secret_bytes_needed(prefix.skip(2), more);
        } else {
            lemma_length_prefixed_nothing_needed_means_complete(prefix.skip(2), more);
        }
    }
}

/// A prefix is refused exactly when its tag is there and is unknown; the
/// decoder then refuses it in the same way, after the two bytes of the tag.
pub proof fn lemma_refused_prefix_is_rejected(prefix: Seq<u8>)
    requires
        Extension::spec_bytes_needed(prefix) is Err,
    ensures
        Extension::spec_bytes_needed(prefix) == Err::<nat, Error>(Error::InvalidExtensionType),
        Extension::spec_unmarshal(prefix) == (Decoded::<ExtensionView> {
            result: Err(Error::InvalidExtensionType),
            consumed: 2,
        }),
{
}

/// Fetching ends: after the tag and the length, the third request, if there
/// is one, completes the extension.
pub proof fn lemma_three_fetches_suffice(prefix: Seq<u8>, more: Seq<u8>)
    requires
        prefix.len() >= 4,
        Extension::spec_bytes_needed(prefix) == Ok::<nat, Error>(more.len()),
    ensures
        Extension::spec_bytes_needed(prefix + more) == Ok::<nat, Error>(0),
{
    lemma_header_of_prefix(prefix, more);
    if ExtensionValue::identity_of(u16_from_be(prefix))
        != ExtensionValue::UseExtendedMasterSecret {
        lemma_length_prefixed_fetch_completes(prefix.skip(2), more);
    }
}

} // verus!
