//! APDU builder: assembles the request bytes of each operation. Every
//! request is a fixed four-byte header (class, instruction, two parameters),
//! one length byte counting the trailing data bytes, then zero or more
//! TLV-encoded fields.

use vstd::prelude::*;

use crate::error::Error;
use crate::tlv;

verus! {

/// The Select request: instruction 0xa4 with parameter 0x04, carrying the
/// application identifier of the OATH application (no TLV wrapper).
pub open spec fn spec_select_request() -> Seq<u8> {
    seq![0x00u8, 0xa4, 0x04, 0x00, 0x07, 0xa0, 0x00, 0x00, 0x05, 0x27, 0x21, 0x01]
}

/// The List request: instruction 0xa1 with no data.
pub open spec fn spec_list_request() -> Seq<u8> {
    seq![0x00u8, 0xa1, 0x00, 0x00, 0x00]
}

/// The continuation request issued after a "more data" status word:
/// instruction 0xa5 with no data.
pub open spec fn spec_send_remaining_request() -> Seq<u8> {
    seq![0x00u8, 0xa5, 0x00, 0x00, 0x00]
}

/// The Calculate request: instruction 0xa2, the truncation flag in the
/// second parameter, and NAME then CHALLENGE as TLV fields.
pub open spec fn spec_calculate_request(truncate: bool, name: Seq<u8>, challenge: Seq<u8>) -> Seq<
    u8,
>
    recommends
        name.len() <= 255,
        challenge.len() <= 255,
{
    seq![
        0x00u8,
        0xa2,
        0x00,
        if truncate {
            0x01u8
        } else {
            0x00u8
        },
        ((4 + name.len() + challenge.len()) % 256) as u8,
    ] + tlv::tlv_bytes(0x71, name) + tlv::tlv_bytes(0x74, challenge)
}

/// The CalculateAll request: instruction 0xa4, the truncation flag in the
/// second parameter, and CHALLENGE as the only TLV field.
pub open spec fn spec_calculate_all_request(truncate: bool, challenge: Seq<u8>) -> Seq<u8>
    recommends
        challenge.len() <= 255,
{
    seq![
        0x00u8,
        0xa4,
        0x00,
        if truncate {
            0x01u8
        } else {
            0x00u8
        },
        ((2 + challenge.len()) % 256) as u8,
    ] + tlv::tlv_bytes(0x74, challenge)
}

/// Builds the Select request.
pub fn select_request() -> (r: Vec<u8>)
    ensures
        r@ == spec_select_request(),
{
    let buf = vec![0x00u8, 0xa4, 0x04, 0x00, 0x07, 0xa0, 0x00, 0x00, 0x05, 0x27, 0x21, 0x01];
    proof {
        assert(buf@ =~= spec_select_request());
    }
    buf
}

/// Builds the List request.
pub fn list_request() -> (r: Vec<u8>)
    ensures
        r@ == spec_list_request(),
{
    let buf = vec![0x00u8, 0xa1, 0x00, 0x00, 0x00];
    proof {
        assert(buf@ =~= spec_list_request());
    }
    buf
}

/// Builds the continuation request.
pub fn send_remaining_request() -> (r: Vec<u8>)
    ensures
        r@ == spec_send_remaining_request(),
{
    let buf = vec![0x00u8, 0xa5, 0x00, 0x00, 0x00];
    proof {
        assert(buf@ =~= spec_send_remaining_request());
    }
    buf
}

/// Builds the Calculate request for one named credential. A name or
/// challenge longer than 255 bytes does not fit its TLV field.
pub fn calculate_request(truncate: bool, name: &[u8], challenge: &[u8]) -> (r: Result<
    Vec<u8>,
    Error,
>)
    ensures
        name@.len() <= 255 && challenge@.len() <= 255 ==> (r matches Ok(v) && v@
            == spec_calculate_request(truncate, name@, challenge@)),
        name@.len() > 255 || challenge@.len() > 255 ==> r == Err::<Vec<u8>, Error>(
            Error::LengthOverflow,
        ),
{
    let mut buf: Vec<u8> = Vec::new();
    buf.push(0x00);
    buf.push(0xa2);
    buf.push(0x00);
    buf.push(if truncate { 0x01 } else { 0x00 });
    buf.push(0x00);
    match tlv::encode(&mut buf, 0x71, name) {
        Ok(()) => (),
        Err(e) => {
            return Err(e);
        },
    }
    match tlv::encode(&mut buf, 0x74, challenge) {
        Ok(()) => (),
        Err(e) => {
            return Err(e);
        },
    }
    set_length(&mut buf);
    proof {
        assert(buf@ =~= spec_calculate_request(truncate, name@, challenge@));
    }
    Ok(buf)
}

/// Builds the CalculateAll request, evaluating every stored credential
/// against one challenge. A challenge longer than 255 bytes does not fit its
/// TLV field.
pub fn calculate_all_request(truncate: bool, challenge: &[u8]) -> (r: Result<Vec<u8>, Error>)
    ensures
        challenge@.len() <= 255 ==> (r matches Ok(v) && v@ == spec_calculate_all_request(
            truncate,
            challenge@,
        )),
        challenge@.len() > 255 ==> r == Err::<Vec<u8>, Error>(Error::LengthOverflow),
{
    let mut buf: Vec<u8> = Vec::new();
    buf.push(0x00);
    buf.push(0xa4);
    buf.push(0x00);
    buf.push(if truncate { 0x01 } else { 0x00 });
    buf.push(0x00);
    match tlv::encode(&mut buf, 0x74, challenge) {
        Ok(()) => (),
        Err(e) => {
            return Err(e);
        },
    }
    set_length(&mut buf);
    proof {
        assert(buf@ =~= spec_calculate_all_request(truncate, challenge@));
    }
    Ok(buf)
}

/// Patches the length placeholder immediately after the four-byte header:
/// the count of data bytes that trail it, reduced to a single byte.
fn set_length(buf: &mut Vec<u8>)
    requires
        old(buf)@.len() >= 5,
    ensures
        final(buf)@ == old(buf)@.update(4, ((old(buf)@.len() - 5) % 256) as u8),
{
    let lc = ((buf.len() - 5) % 256) as u8;
    buf.set(4, lc);
}

} // verus!
