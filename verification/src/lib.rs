//! Codec for the typed, length-delimited extensions carried inside a DTLS
//! handshake message.
//!
//! An extension travels as a 16-bit type tag followed by a body whose layout
//! depends on the type.  [`extension::Extension`] is the closed union of the
//! extension types this crate understands; it is written with
//! [`extension::Extension::marshal`] and read back from a
//! [`wire::ByteReader`] with [`extension::Extension::unmarshal`].
//!
//! Every encoder and decoder is specified by a function on byte sequences,
//! and the laws that tie the two directions together are proved against those
//! functions.
pub mod errors;
pub mod wire;
pub mod extension;
