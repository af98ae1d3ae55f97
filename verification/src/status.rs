//! Status-word mapper: classifies the trailing two-byte status word of each
//! transmission into success, "more data available", or a specific error.

use vstd::prelude::*;

use crate::error::Error;

verus! {

/// Outcome of one successful exchange: the reply is complete, or the token
/// holds more bytes and a continuation exchange must be issued. The `XX` of
/// a `0x61XX` word is advisory only and is deliberately not carried: the
/// engine keeps issuing continuations until a terminal word is observed.
#[derive(Clone, Copy, Debug, PartialEq, Eq, Structural)]
pub enum Status {
    Success,
    MoreData,
}

/// The classification of a status word, by its canonical big-endian value:
/// 0x9000 is success, 0x6100 through 0x61ff signal more data, five words map
/// to specific errors, and everything else is carried verbatim.
pub open spec fn spec_status(word: u16) -> Result<Status, Error> {
    if word == 0x9000 {
        Ok(Status::Success)
    } else if 0x6100 <= word <= 0x61ff {
        Ok(Status::MoreData)
    } else if word == 0x6a84 {
        Err(Error::NoSpace)
    } else if word == 0x6984 {
        Err(Error::NoSuchObject)
    } else if word == 0x6982 {
        Err(Error::AuthRequired)
    } else if word == 0x6a80 {
        Err(Error::WrongSyntax)
    } else if word == 0x6581 {
        Err(Error::GenericError)
    } else {
        Err(Error::UnknownCode(word))
    }
}

/// Classifies a status word.
pub fn status(word: u16) -> (r: Result<Status, Error>)
    ensures
        r == spec_status(word),
{
    if word == 0x9000 {
        Ok(Status::Success)
    } else if 0x6100 <= word && word <= 0x61ff {
        Ok(Status::MoreData)
    } else if word == 0x6a84 {
        Err(Error::NoSpace)
    } else if word == 0x6984 {
        Err(Error::NoSuchObject)
    } else if word == 0x6982 {
        Err(Error::AuthRequired)
    } else if word == 0x6a80 {
        Err(Error::WrongSyntax)
    } else if word == 0x6581 {
        Err(Error::GenericError)
    } else {
        Err(Error::UnknownCode(word))
    }
}

/// Every status word of the form 0x61XX signals "more data", never success
/// and never an error.
pub proof fn lemma_more_data_range(word: u16)
    requires
        0x6100 <= word <= 0x61ff,
    ensures
        spec_status(word) == Ok::<Status, Error>(Status::MoreData),
{
}

} // verus!
