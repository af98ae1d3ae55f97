use vstd::prelude::*;

verus! {

/// Failure modes of the protocol engine.
///
/// Every error is terminal for the operation that raised it: a malformed
/// reply is never partially trusted, and decoding stops at the first
/// structural violation.
#[derive(Clone, Copy, Debug, PartialEq, Eq, Structural)]
pub enum Error {
    /// No reader with a matching token was found (raised by callers that
    /// enumerate readers; the engine itself never produces it).
    NoDevice,
    /// A buffer ran out during TLV or status-word parsing.
    InsufficientData,
    /// A status word outside the mapped set, carried verbatim.
    UnknownCode(u16),
    /// A tag or enumerated value outside the expected set for the current
    /// decode state.
    UnexpectedValue(u8),
    /// A value too large to fit a single-byte TLV length.
    LengthOverflow,
    /// Status word 0x6a84.
    NoSpace,
    /// Status word 0x6984.
    NoSuchObject,
    /// Status word 0x6982.
    AuthRequired,
    /// Status word 0x6a80.
    WrongSyntax,
    /// Status word 0x6581.
    GenericError,
}

} // verus!
