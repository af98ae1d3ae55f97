//! Tag-length-value codec for YKOATH reply and request fields.
//!
//! A record is one tag byte, one length byte, then exactly that many value
//! bytes; values longer than 255 bytes are not representable in this
//! protocol version.

use vstd::prelude::*;

use crate::error::Error;

verus! {

/// The bytes that encode one TLV record: tag, single-byte length, value.
pub open spec fn tlv_bytes(tag: u8, value: Seq<u8>) -> Seq<u8>
    recommends
        value.len() <= 255,
{
    seq![tag, value.len() as u8] + value
}

/// What decoding the first record of `buf` yields, given the tags the
/// current grammar admits: the record's tag and value on success, or the
/// first structural violation (missing tag byte, tag outside `tags`,
/// missing length byte, or fewer value bytes than the length claims).
pub open spec fn spec_decode_one(buf: Seq<u8>, tags: Seq<u8>) -> Result<(u8, Seq<u8>), Error> {
    if buf.len() < 1 {
        Err(Error::InsufficientData)
    } else if !tags.contains(buf[0]) {
        Err(Error::UnexpectedValue(buf[0]))
    } else if buf.len() < 2 {
        Err(Error::InsufficientData)
    } else if buf.len() < 2 + buf[1] {
        Err(Error::InsufficientData)
    } else {
        Ok((buf[0], buf.subrange(2, 2 + buf[1] as int)))
    }
}

/// How many bytes the first record of `buf` occupies when it decodes
/// successfully.
pub open spec fn spec_decoded_len(buf: Seq<u8>) -> int
    recommends
        buf.len() >= 2,
{
    2 + buf[1]
}

/// Appends the TLV encoding of `(tag, value)` to `buf`; a value longer than
/// 255 bytes does not fit the single-byte length and leaves `buf` unchanged.
pub fn encode(buf: &mut Vec<u8>, tag: u8, value: &[u8]) -> (r: Result<(), Error>)
    ensures
        value@.len() <= 255 ==> r is Ok && final(buf)@ == old(buf)@ + tlv_bytes(tag, value@),
        value@.len() > 255 ==> r == Err::<(), Error>(Error::LengthOverflow) && final(buf)@ == old(
            buf,
        )@,
{
    if value.len() > 255 {
        return Err(Error::LengthOverflow);
    }
    buf.push(tag);
    buf.push(value.len() as u8);
    buf.extend_from_slice(value);
    proof {
        assert(buf@ =~= old(buf)@ + tlv_bytes(tag, value@));
    }
    Ok(())
}

/// Decodes the first TLV record of `buf[pos..]`, returning the tag, an owned
/// copy of the value, and the position just past the record.
pub fn decode_one(buf: &[u8], pos: usize, tags: &[u8]) -> (r: Result<(u8, Vec<u8>, usize), Error>)
    requires
        pos <= buf@.len(),
    ensures
        match r {
            Ok((tag, value, next)) => {
                &&& spec_decode_one(buf@.skip(pos as int), tags@) == Ok::<_, Error>(
                    (tag, value@),
                )
                &&& pos + 2 + value@.len() == next
                &&& next <= buf@.len()
            },
            Err(e) => spec_decode_one(buf@.skip(pos as int), tags@) == Err::<(u8, Seq<u8>), _>(e),
        },
{
    let ghost rest = buf@.skip(pos as int);
    if pos >= buf.len() {
        return Err(Error::InsufficientData);
    }
    let tag = buf[pos];
    assert(tag == rest[0]);
    if !contains_byte(tags, tag) {
        return Err(Error::UnexpectedValue(tag));
    }
    if pos + 1 >= buf.len() {
        assert(rest.len() < 2);
        return Err(Error::InsufficientData);
    }
    let len = buf[pos + 1] as usize;
    assert(len == rest[1]);
    if buf.len() - (pos + 2) < len {
        assert(rest.len() < 2 + rest[1]);
        return Err(Error::InsufficientData);
    }
    let value = copy_range(buf, pos + 2, pos + 2 + len);
    proof {
        assert(value@ =~= rest.subrange(2, 2 + rest[1] as int));
    }
    Ok((tag, value, pos + 2 + len))
}

/// Whether `bytes` holds `b`.
fn contains_byte(bytes: &[u8], b: u8) -> (r: bool)
    ensures
        r == bytes@.contains(b),
{
    let mut i: usize = 0;
    while i < bytes.len()
        invariant
            i <= bytes@.len(),
            forall|j: int| 0 <= j < i ==> bytes@[j] != b,
        decreases bytes@.len() - i,
    {
        if bytes[i] == b {
            return true;
        }
        i += 1;
    }
    false
}

/// An owned copy of `buf[start..end]`.
fn copy_range(buf: &[u8], start: usize, end: usize) -> (r: Vec<u8>)
    requires
        start <= end <= buf@.len(),
    ensures
        r@ == buf@.subrange(start as int, end as int),
{
    let mut r: Vec<u8> = Vec::new();
    let mut i: usize = start;
    while i < end
        invariant
            start <= i <= end <= buf@.len(),
            r@ == buf@.subrange(start as int, i as int),
        decreases end - i,
    {
        r.push(buf[i]);
        proof {
            assert(r@ =~= buf@.subrange(start as int, i + 1 as int));
        }
        i += 1;
    }
    r
}

/// Round trip: re-encoding the record that `spec_decode_one` read from the
/// front of `buf` reproduces exactly the bytes the decoder consumed.
pub proof fn lemma_decode_encode_roundtrip(buf: Seq<u8>, tags: Seq<u8>)
    requires
        spec_decode_one(buf, tags) is Ok,
    ensures
        ({
            let (tag, value) = spec_decode_one(buf, tags)->Ok_0;
            tlv_bytes(tag, value) == buf.subrange(0, spec_decoded_len(buf))
        }),
{
    let (tag, value) = spec_decode_one(buf, tags)->Ok_0;
    assert(tlv_bytes(tag, value) =~= buf.subrange(0, spec_decoded_len(buf)));
}

} // verus!
