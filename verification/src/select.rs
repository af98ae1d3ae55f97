//! The Select operation: decodes the reply that activates the OATH
//! application and announces the token.

use vstd::prelude::*;

use crate::error::Error;
use crate::tlv;
use crate::{spec_algorithm, Algorithm};

verus! {

/// A decoded Select reply: the token's version, its default credential
/// name, and, only when the token enforces validation, a challenge with the
/// algorithm to answer it by.
#[derive(Clone, Debug)]
pub struct Response {
    pub version: Vec<u8>,
    pub name: Vec<u8>,
    pub inner: Option<Inner>,
}

/// The validation pair of a Select reply.
#[derive(Clone, Debug)]
pub struct Inner {
    pub challenge: Vec<u8>,
    pub algorithm: Algorithm,
}

/// The mathematical value of an [`Inner`].
pub struct InnerView {
    pub challenge: Seq<u8>,
    pub algorithm: Algorithm,
}

impl View for Inner {
    type V = InnerView;

    open spec fn view(&self) -> InnerView {
        InnerView { challenge: self.challenge@, algorithm: self.algorithm }
    }
}

/// The mathematical value of a [`Response`].
pub struct ResponseView {
    pub version: Seq<u8>,
    pub name: Seq<u8>,
    pub inner: Option<InnerView>,
}

impl View for Response {
    type V = ResponseView;

    open spec fn view(&self) -> ResponseView {
        ResponseView {
            version: self.version@,
            name: self.name@,
            inner: match self.inner {
                Some(i) => Some(i@),
                None => None,
            },
        }
    }
}

/// What decoding a Select reply yields: VERSION (tag 0x79) then NAME (tag
/// 0x71) in fixed order; then, only if bytes remain, CHALLENGE (tag 0x74)
/// and ALGORITHM (tag 0x7b, a single byte naming the algorithm). A reply
/// that ends after NAME signals a token that does not enforce validation,
/// not an error.
pub open spec fn spec_decode(reply: Seq<u8>) -> Result<ResponseView, Error> {
    match tlv::spec_decode_one(reply, seq![0x79u8]) {
        Err(e) => Err(e),
        Ok((_, version)) => {
            let rest1 = reply.skip(tlv::spec_decoded_len(reply));
            match tlv::spec_decode_one(rest1, seq![0x71u8]) {
                Err(e) => Err(e),
                Ok((_, name)) => {
                    let rest2 = rest1.skip(tlv::spec_decoded_len(rest1));
                    if rest2.len() == 0 {
                        Ok(ResponseView { version, name, inner: None })
                    } else {
                        match tlv::spec_decode_one(rest2, seq![0x74u8]) {
                            Err(e) => Err(e),
                            Ok((_, challenge)) => {
                                let rest3 = rest2.skip(tlv::spec_decoded_len(rest2));
                                match tlv::spec_decode_one(rest3, seq![0x7bu8]) {
                                    Err(e) => Err(e),
                                    Ok((_, alg)) => {
                                        if alg.len() == 1 {
                                            match spec_algorithm(alg[0]) {
                                                Err(e) => Err(e),
                                                Ok(algorithm) => Ok(
                                                    ResponseView {
                                                        version,
                                                        name,
                                                        inner: Some(
                                                            InnerView { challenge, algorithm },
                                                        ),
                                                    },
                                                ),
                                            }
                                        } else {
                                            Err(Error::UnexpectedValue(alg.len() as u8))
                                        }
                                    },
                                }
                            },
                        }
                    }
                },
            }
        },
    }
}

/// Decodes an assembled Select reply.
pub fn decode(reply: &[u8]) -> (r: Result<Response, Error>)
    ensures
        match spec_decode(reply@) {
            Ok(v) => r matches Ok(x) && x@ == v,
            Err(e) => r matches Err(e2) && e2 == e,
        },
{
    proof {
        assert(reply@.skip(0) =~= reply@);
    }
    let version_tags = vec![0x79u8];
    let name_tags = vec![0x71u8];
    let challenge_tags = vec![0x74u8];
    let algorithm_tags = vec![0x7bu8];
    proof {
        assert(version_tags@ =~= seq![0x79u8]);
        assert(name_tags@ =~= seq![0x71u8]);
        assert(challenge_tags@ =~= seq![0x74u8]);
        assert(algorithm_tags@ =~= seq![0x7bu8]);
    }
    let (_, version, next1) = match tlv::decode_one(reply, 0, version_tags.as_slice()) {
        Ok(p) => p,
        Err(e) => {
            return Err(e);
        },
    };
    proof {
        assert(reply@.skip(tlv::spec_decoded_len(reply@)) =~= reply@.skip(next1 as int));
    }
    let (_, name, next2) = match tlv::decode_one(reply, next1, name_tags.as_slice()) {
        Ok(p) => p,
        Err(e) => {
            return Err(e);
        },
    };
    let ghost rest1 = reply@.skip(next1 as int);
    proof {
        assert(rest1.skip(tlv::spec_decoded_len(rest1)) =~= reply@.skip(next2 as int));
    }
    if next2 == reply.len() {
        assert(reply@.skip(next2 as int).len() == 0);
        return Ok(Response { version, name, inner: None });
    }
    assert(reply@.skip(next2 as int).len() > 0);
    let (_, challenge, next3) = match tlv::decode_one(reply, next2, challenge_tags.as_slice()) {
        Ok(p) => p,
        Err(e) => {
            return Err(e);
        },
    };
    let ghost rest2 = reply@.skip(next2 as int);
    proof {
        assert(rest2.skip(tlv::spec_decoded_len(rest2)) =~= reply@.skip(next3 as int));
    }
    let (_, alg, _) = match tlv::decode_one(reply, next3, algorithm_tags.as_slice()) {
        Ok(p) => p,
        Err(e) => {
            return Err(e);
        },
    };
    if alg.len() != 1 {
        return Err(Error::UnexpectedValue((alg.len() % 256) as u8));
    }
    let algorithm = match Algorithm::from_code(alg[0]) {
        Ok(a) => a,
        Err(e) => {
            return Err(e);
        },
    };
    Ok(Response { version, name, inner: Some(Inner { challenge, algorithm }) })
}

} // verus!
