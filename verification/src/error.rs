//! The error taxonomy of the decoder.

use vstd::prelude::*;

verus! {

/// One decode failure kind.
///
/// Every decoding function either returns a decoded value together with the
/// advanced cursor, or exactly one of these kinds; errors propagate unchanged
/// up to the module decoder. Structural framing failures (a truncated stream,
/// a malformed length) are fatal; they are never silently recovered from.
#[derive(Debug, Clone, Copy, PartialEq, Eq, Structural)]
pub enum DecodeError {
    /// The 8-byte preamble (magic cookie + version) is incomplete.
    TruncatedHeader,
    /// The 4-byte magic cookie does not match `\0asm`.
    BadMagic,
    /// A variable-length integer is unterminated, overlong, or does not fit
    /// the target width.
    MalformedVarint,
    /// A value-type tag byte is outside the closed set of known tags.
    InvalidValueType(u8),
    /// A function-type record does not begin with the fixed tag byte `0x60`.
    InvalidFuncTypeTag(u8),
    /// A section declares more body bytes than the stream still holds.
    TruncatedSection,
    /// A function body declares more bytes than its section still holds.
    TruncatedFunctionBody,
    /// The input ended where one more byte was required.
    TruncatedInput,
    /// An opcode byte is assigned in no instruction family, so the shape of
    /// the remaining stream cannot be inferred.
    UnknownOpcode(u8),
}

} // verus!
