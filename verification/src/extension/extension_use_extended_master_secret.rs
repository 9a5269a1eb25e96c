//! The extended master secret extension.
//!
//! The extension carries no payload: that it is present at all is the
//! signal.  Its body is a 16-bit length, written as zero and not looked at
//! when read.
use crate::errors::Error;
use crate::extension::ExtensionValue;
use crate::wire::{put_u16, spec_read_u16, u16_to_be, ByteReader, Decoded};
use vstd::prelude::*;

verus! {

/// Whether the extended master secret is supported.  Read off the wire it is
/// always `supported`: an endpoint that does not support it sends nothing.
#[derive(Clone, Copy, Debug, PartialEq, Eq)]
pub struct ExtensionUseExtendedMasterSecret {
    pub supported: bool,
}

impl View for ExtensionUseExtendedMasterSecret {
    type V = bool;

    /// Whether the peer supports the extended master secret.
    open spec fn view(&self) -> bool {
        self.supported
    }
}

impl ExtensionUseExtendedMasterSecret {
    /// The body: a length of zero, whatever `supported` is.
    pub open spec fn spec_marshal(supported: bool) -> Seq<u8> {
        u16_to_be(0)
    }

    /// Decoding a body: a 16-bit length, whose value is ignored.  A body
    /// that is there always means `supported`.
    pub open spec fn spec_unmarshal(input: Seq<u8>) -> Decoded<bool> {
        let length = spec_read_u16(input);
        match length.result {
            Err(e) => Decoded { result: Err(e), consumed: length.consumed },
            Ok(_) => Decoded { result: Ok(true), consumed: length.consumed },
        }
    }

    /// How many more bytes must follow `prefix` before the body that
    /// `prefix` begins can be decoded: the two bytes of the length, and no
    /// payload, whatever the length says.
    pub open spec fn spec_bytes_needed(prefix: Seq<u8>) -> nat {
        if prefix.len() < 2 {
            (2 - prefix.len()) as nat
        } else {
            0
        }
    }

    /// The identity under which this payload travels.
    pub fn extension_value(&self) -> (id: ExtensionValue)
        ensures
            id == ExtensionValue::UseExtendedMasterSecret,
    {
        ExtensionValue::UseExtendedMasterSecret
    }

    /// Appends the body to `writer`.  The body is always the same two bytes,
    /// so this never fails.
    pub fn marshal(&self, writer: &mut Vec<u8>) -> (r: Result<(), Error>)
        ensures
            r is Ok,
            final(writer)@ == old(writer)@ + Self::spec_marshal(self@),
    {
        put_u16(writer, 0);
        Ok(())
    }

    /// Reads a body from `reader`.
    pub fn unmarshal(reader: &mut ByteReader) -> (r: Result<Self, Error>)
        ensures
            old(reader).yields(*final(reader), r, Self::spec_unmarshal(old(reader)@)),
    {
        match reader.read_u16() {
            Ok(_) => Ok(ExtensionUseExtendedMasterSecret { supported: true }),
            Err(e) => Err(e),
        }
    }

    /// Tells a caller that takes its bytes from a stream how many to fetch
    /// next, given the bytes of one body fetched so far.
    pub fn bytes_needed(prefix: &[u8]) -> (n: usize)
        ensures
            n == Self::spec_bytes_needed(prefix@),
    {
        let have = prefix.len();
        if have < 2 {
            2 - have
        } else {
            0
        }
    }
}

/// Presence is the signal: whatever the input, a body that decodes at all
/// decodes to `supported`, after exactly the two bytes of its length.
pub proof fn lemma_presence_means_supported(input: Seq<u8>)
    ensures
        ExtensionUseExtendedMasterSecret::spec_unmarshal(input).result != Ok::<bool, Error>(false),
        input.len() >= 2 ==> ExtensionUseExtendedMasterSecret::spec_unmarshal(input) == (Decoded {
            result: Ok(true),
            consumed: 2,
        }),
{
}

/// Nothing on the wire tells `supported` from its absence: both values have
/// the same body, the two bytes of a zero length.
pub proof fn lemma_support_is_not_encoded(supported: bool)
    ensures
        ExtensionUseExtendedMasterSecret::spec_marshal(supported) == seq![0u8, 0u8],
{
    assert(u16_to_be(0) =~= seq![0u8, 0u8]);
}

/// While bytes are asked for, the body cannot be decoded yet; once nothing
/// is asked for, it decodes.  A prefix that was completed by fetching
/// exactly what was asked for is consumed whole.
pub proof fn lemma_extended_master_secret_bytes_needed(prefix: Seq<u8>, more: Seq<u8>)
    ensures
        more.len() < ExtensionUseExtendedMasterSecret::spec_bytes_needed(prefix)
            ==> ExtensionUseExtendedMasterSecret::spec_unmarshal(prefix + more).result == Err::<
            bool,
            Error,
        >(Error::UnexpectedEof),
        ExtensionUseExtendedMasterSecret::spec_bytes_needed(prefix + more) == 0
            ==> ExtensionUseExtendedMasterSecret::spec_unmarshal(prefix + more).result is Ok,
        more.len() == ExtensionUseExtendedMasterSecret::spec_bytes_needed(prefix) && more.len() > 0
            ==> ExtensionUseExtendedMasterSecret::spec_bytes_needed(prefix + more) == 0
            && ExtensionUseExtendedMasterSecret::spec_unmarshal(prefix + more).consumed == (prefix
            + more).len(),
{
}

} // verus!
