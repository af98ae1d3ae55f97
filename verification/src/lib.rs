//! Client-side protocol engine for the YKOATH smart-card application: APDU
//! framing, multi-part reply chaining, TLV parsing of replies, status-word
//! mapping, and OTP truncation. The smart-card transport itself is a
//! collaborator outside this crate; the engine only builds request bytes and
//! decodes reply bytes.

use vstd::prelude::*;

pub mod apdu;
pub mod calculate;
pub mod calculate_all;
pub mod chain;
mod error;
pub mod list;
pub mod reader;
pub mod select;
pub mod status;
pub mod tlv;

pub use error::Error;

verus! {

/// Hash algorithm backing a stored credential, decoded from a single-byte
/// code.
#[derive(Clone, Copy, Debug, PartialEq, Eq, Structural)]
pub enum Algorithm {
    HmacSha1,
    HmacSha256,
    HmacSha512,
}

/// What a well-formed algorithm byte decodes to: 0x01, 0x02 and 0x03 name
/// the three supported algorithms, everything else is rejected verbatim.
pub open spec fn spec_algorithm(code: u8) -> Result<Algorithm, Error> {
    if code == 0x01 {
        Ok(Algorithm::HmacSha1)
    } else if code == 0x02 {
        Ok(Algorithm::HmacSha256)
    } else if code == 0x03 {
        Ok(Algorithm::HmacSha512)
    } else {
        Err(Error::UnexpectedValue(code))
    }
}

impl Algorithm {
    /// Decodes an algorithm byte (the low nibble of a List type/algorithm
    /// byte, or the single byte of a Select ALGORITHM record).
    pub fn from_code(code: u8) -> (r: Result<Algorithm, Error>)
        ensures
            r == spec_algorithm(code),
    {
        if code == 0x01 {
            Ok(Algorithm::HmacSha1)
        } else if code == 0x02 {
            Ok(Algorithm::HmacSha256)
        } else if code == 0x03 {
            Ok(Algorithm::HmacSha512)
        } else {
            Err(Error::UnexpectedValue(code))
        }
    }
}

/// Kind of a stored credential: counter-derived (HOTP) or time-derived
/// (TOTP), decoded from the high nibble of a List type/algorithm byte.
#[derive(Clone, Copy, Debug, PartialEq, Eq, Structural)]
pub enum Type {
    Hotp,
    Totp,
}

/// What a well-formed credential-type nibble decodes to: 0x10 is HOTP, 0x20
/// is TOTP, everything else is rejected verbatim.
pub open spec fn spec_credential_type(code: u8) -> Result<Type, Error> {
    if code == 0x10 {
        Ok(Type::Hotp)
    } else if code == 0x20 {
        Ok(Type::Totp)
    } else {
        Err(Error::UnexpectedValue(code))
    }
}

impl Type {
    /// Decodes a credential-type byte (the high nibble of a List
    /// type/algorithm byte, low nibble cleared).
    pub fn from_code(code: u8) -> (r: Result<Type, Error>)
        ensures
            r == spec_credential_type(code),
    {
        if code == 0x10 {
            Ok(Type::Hotp)
        } else if code == 0x20 {
            Ok(Type::Totp)
        } else {
            Err(Error::UnexpectedValue(code))
        }
    }
}

} // verus!
