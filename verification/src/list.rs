//! The List operation: decodes the reply enumerating every stored
//! credential.

use vstd::prelude::*;

use crate::error::Error;
use crate::tlv;
use crate::{spec_algorithm, spec_credential_type, Algorithm, Type};

verus! {

/// One stored credential as the List reply describes it: its kind, its hash
/// algorithm, and its name.
#[derive(Clone, Debug)]
pub struct Response {
    pub type_: Type,
    pub algorithm: Algorithm,
    pub name: Vec<u8>,
}

/// The mathematical value of a [`Response`].
pub struct ResponseView {
    pub type_: Type,
    pub algorithm: Algorithm,
    pub name: Seq<u8>,
}

impl View for Response {
    type V = ResponseView;

    open spec fn view(&self) -> ResponseView {
        ResponseView { type_: self.type_, algorithm: self.algorithm, name: self.name@ }
    }
}

/// What decoding a List reply yields: NAME-AND-TYPE records under tag 0x72
/// until the buffer is exhausted. Each record's first byte splits into the
/// credential type (high nibble) and algorithm (low nibble); the remaining
/// bytes are the name. A record with no data bytes has no room for that
/// byte and is a buffer underrun; an empty reply is an empty listing, not an
/// error.
pub open spec fn spec_decode(reply: Seq<u8>) -> Result<Seq<ResponseView>, Error>
    decreases reply.len(),
{
    if reply.len() == 0 {
        Ok(Seq::empty())
    } else {
        match tlv::spec_decode_one(reply, seq![0x72u8]) {
            Err(e) => Err(e),
            Ok((tag, data)) => {
                if data.len() < 1 {
                    Err(Error::InsufficientData)
                } else {
                    match spec_credential_type(data[0] & 0xf0) {
                        Err(e) => Err(e),
                        Ok(type_) => match spec_algorithm(data[0] & 0x0f) {
                            Err(e) => Err(e),
                            Ok(algorithm) => match spec_decode(
                                reply.skip(tlv::spec_decoded_len(reply)),
                            ) {
                                Err(e) => Err(e),
                                Ok(rest) => Ok(
                                    seq![ResponseView { type_, algorithm, name: data.skip(1) }]
                                        + rest,
                                ),
                            },
                        },
                    }
                }
            },
        }
    }
}

/// The views of a sequence of decoded records.
pub open spec fn response_views(rs: Seq<Response>) -> Seq<ResponseView> {
    rs.map_values(|r: Response| r@)
}

/// `r` prefixed to every record of a successful decode.
spec fn spec_prepend(pre: Seq<ResponseView>, r: Result<Seq<ResponseView>, Error>) -> Result<
    Seq<ResponseView>,
    Error,
> {
    match r {
        Ok(s) => Ok(pre + s),
        Err(e) => Err(e),
    }
}

/// Decodes an assembled List reply.
pub fn decode(reply: &[u8]) -> (r: Result<Vec<Response>, Error>)
    ensures
        match spec_decode(reply@) {
            Ok(s) => r matches Ok(v) && v@.len() == s.len() && (forall|i: int|
                0 <= i < s.len() ==> #[trigger] v@[i]@ == s[i]),
            Err(e) => r matches Err(e2) && e2 == e,
        },
{
    let tags = vec![0x72u8];
    let mut out: Vec<Response> = Vec::new();
    let mut pos: usize = 0;
    proof {
        assert(reply@.skip(0) =~= reply@);
        match spec_decode(reply@) {
            Ok(s) => {
                assert(Seq::<ResponseView>::empty() + s =~= s);
            },
            Err(e) => {},
        }
        assert(response_views(out@) =~= Seq::<ResponseView>::empty());
    }
    while pos < reply.len()
        invariant
            pos <= reply@.len(),
            tags@ == seq![0x72u8],
            spec_decode(reply@) == spec_prepend(
                response_views(out@),
                spec_decode(reply@.skip(pos as int)),
            ),
        decreases reply@.len() - pos,
    {
        let ghost rest = reply@.skip(pos as int);
        let (_, mut value, next) = match tlv::decode_one(reply, pos, tags.as_slice()) {
            Ok(p) => p,
            Err(e) => {
                return Err(e);
            },
        };
        if value.len() == 0 {
            return Err(Error::InsufficientData);
        }
        let type_ = match Type::from_code(value[0] & 0xf0) {
            Ok(t) => t,
            Err(e) => {
                return Err(e);
            },
        };
        let algorithm = match Algorithm::from_code(value[0] & 0x0f) {
            Ok(a) => a,
            Err(e) => {
                return Err(e);
            },
        };
        let ghost full = value@;
        value.remove(0);
        proof {
            assert(value@ =~= full.skip(1));
        }
        let record = Response { type_, algorithm, name: value };
        let ghost prev_out = out@;
        out.push(record);
        proof {
            assert(rest.skip(tlv::spec_decoded_len(rest)) =~= reply@.skip(next as int));
            assert(response_views(out@) =~= response_views(prev_out).push(record@));
            match spec_decode(reply@.skip(next as int)) {
                Ok(s) => {
                    assert(response_views(prev_out) + (seq![record@] + s) =~= response_views(out@)
                        + s);
                },
                Err(e) => {},
            }
        }
        pos = next;
    }
    proof {
        assert(reply@.skip(pos as int) =~= Seq::<u8>::empty());
        match spec_decode(reply@) {
            Ok(s) => {
                assert(response_views(out@) + Seq::<ResponseView>::empty() =~= response_views(
                    out@,
                ));
                assert(s =~= response_views(out@));
            },
            Err(e) => {},
        }
    }
    Ok(out)
}

} // verus!
