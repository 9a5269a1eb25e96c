use vstd::prelude::*;

verus! {

/// Why an encode or decode attempt stopped.
#[derive(Clone, Copy, Debug, PartialEq, Eq, Structural)]
pub enum Error {
    /// The 16-bit type tag names no extension this crate knows.
    InvalidExtensionType,
    /// The content of a body breaks the rule of its type.  When reading: the
    /// bytes of a server name are not valid UTF-8.  When writing: the payload
    /// has more than 65535 bytes, so its length does not fit the 16-bit
    /// length field and the value has no encoding.
    InvalidEncoding,
    /// The input ended before the bytes a field needs were all there.
    UnexpectedEof,
}

} // verus!
