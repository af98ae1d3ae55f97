//! The CalculateAll operation: decodes the reply that evaluates every
//! stored credential against one challenge.

use vstd::prelude::*;

use crate::calculate;
use crate::error::Error;
use crate::tlv;

verus! {

/// One credential's entry in a CalculateAll reply.
#[derive(Clone, Debug)]
pub struct Response {
    pub name: Vec<u8>,
    pub inner: Inner,
}

/// What CalculateAll reported for one credential: a response, or one of the
/// two valid terminal states the caller must branch on. HOTP credentials are
/// not evaluated against the challenge; touch-protected credentials need a
/// caller-mediated touch confirmation and a follow-up Calculate.
#[derive(Clone, Debug)]
pub enum Inner {
    Response(calculate::Response),
    Hotp,
    Touch,
}

/// The mathematical value of an [`Inner`].
pub enum InnerView {
    Response(calculate::ResponseView),
    Hotp,
    Touch,
}

impl View for Inner {
    type V = InnerView;

    open spec fn view(&self) -> InnerView {
        match self {
            Inner::Response(r) => InnerView::Response(r@),
            Inner::Hotp => InnerView::Hotp,
            Inner::Touch => InnerView::Touch,
        }
    }
}

/// The mathematical value of a [`Response`].
pub struct ResponseView {
    pub name: Seq<u8>,
    pub inner: InnerView,
}

impl View for Response {
    type V = ResponseView;

    open spec fn view(&self) -> ResponseView {
        ResponseView { name: self.name@, inner: self.inner@ }
    }
}

/// What one record's inner tag and data decode to: a response (digit count
/// byte, then raw response bytes), the HOTP marker, or the touch-required
/// marker.
pub open spec fn spec_inner(tag: u8, data: Seq<u8>, truncate: bool) -> Result<InnerView, Error> {
    if tag == calculate::spec_response_tag(truncate) {
        if data.len() < 1 {
            Err(Error::InsufficientData)
        } else {
            Ok(
                InnerView::Response(
                    calculate::ResponseView { digits: data[0], response: data.skip(1) },
                ),
            )
        }
    } else if tag == 0x77 {
        Ok(InnerView::Hotp)
    } else if tag == 0x7c {
        Ok(InnerView::Touch)
    } else {
        Err(Error::UnexpectedValue(tag))
    }
}

/// What decoding a CalculateAll reply yields: NAME records under tag 0x71,
/// each followed by exactly one record carrying the credential's response or
/// terminal state, until the buffer is exhausted. An empty reply is an empty
/// sequence, not an error.
pub open spec fn spec_decode(reply: Seq<u8>, truncate: bool) -> Result<Seq<ResponseView>, Error>
    decreases reply.len(),
{
    if reply.len() == 0 {
        Ok(Seq::empty())
    } else {
        match tlv::spec_decode_one(reply, seq![0x71u8]) {
            Err(e) => Err(e),
            Ok((_, name)) => {
                let rest1 = reply.skip(tlv::spec_decoded_len(reply));
                match tlv::spec_decode_one(
                    rest1,
                    seq![calculate::spec_response_tag(truncate), 0x77u8, 0x7cu8],
                ) {
                    Err(e) => Err(e),
                    Ok((tag, data)) => match spec_inner(tag, data, truncate) {
                        Err(e) => Err(e),
                        Ok(inner) => match spec_decode(
                            rest1.skip(tlv::spec_decoded_len(rest1)),
                            truncate,
                        ) {
                            Err(e) => Err(e),
                            Ok(rest) => Ok(seq![ResponseView { name, inner }] + rest),
                        },
                    },
                }
            },
        }
    }
}

/// The views of a sequence of decoded records.
pub open spec fn response_views(rs: Seq<Response>) -> Seq<ResponseView> {
    rs.map_values(|r: Response| r@)
}

/// `r` prefixed to every record of a successful decode.
spec fn spec_prepend(pre: Seq<ResponseView>, r: Result<Seq<ResponseView>, Error>) -> Result<
    Seq<ResponseView>,
    Error,
> {
    match r {
        Ok(s) => Ok(pre + s),
        Err(e) => Err(e),
    }
}

/// Decodes an assembled CalculateAll reply.
pub fn decode(reply: &[u8], truncate: bool) -> (r: Result<Vec<Response>, Error>)
    ensures
        match spec_decode(reply@, truncate) {
            Ok(s) => r matches Ok(v) && v@.len() == s.len() && (forall|i: int|
                0 <= i < s.len() ==> #[trigger] v@[i]@ == s[i]),
            Err(e) => r matches Err(e2) && e2 == e,
        },
{
    let resp_tag = if truncate {
        0x76u8
    } else {
        0x75u8
    };
    let name_tags = vec![0x71u8];
    let inner_tags = vec![resp_tag, 0x77u8, 0x7cu8];
    proof {
        assert(inner_tags@ =~= seq![calculate::spec_response_tag(truncate), 0x77u8, 0x7cu8]);
    }
    let mut out: Vec<Response> = Vec::new();
    let mut pos: usize = 0;
    proof {
        assert(reply@.skip(0) =~= reply@);
        match spec_decode(reply@, truncate) {
            Ok(s) => {
                assert(Seq::<ResponseView>::empty() + s =~= s);
            },
            Err(e) => {},
        }
        assert(response_views(out@) =~= Seq::<ResponseView>::empty());
    }
    while pos < reply.len()
        invariant
            pos <= reply@.len(),
            resp_tag == calculate::spec_response_tag(truncate),
            name_tags@ == seq![0x71u8],
            inner_tags@ == seq![calculate::spec_response_tag(truncate), 0x77u8, 0x7cu8],
            spec_decode(reply@, truncate) == spec_prepend(
                response_views(out@),
                spec_decode(reply@.skip(pos as int), truncate),
            ),
        decreases reply@.len() - pos,
    {
        let ghost rest = reply@.skip(pos as int);
        let (_, name, next1) = match tlv::decode_one(reply, pos, name_tags.as_slice()) {
            Ok(p) => p,
            Err(e) => {
                return Err(e);
            },
        };
        proof {
            assert(rest.skip(tlv::spec_decoded_len(rest)) =~= reply@.skip(next1 as int));
        }
        let ghost rest1 = reply@.skip(next1 as int);
        let (tag, mut data, next2) = match tlv::decode_one(reply, next1, inner_tags.as_slice()) {
            Ok(p) => p,
            Err(e) => {
                return Err(e);
            },
        };
        let inner = if tag == resp_tag {
            if data.len() == 0 {
                return Err(Error::InsufficientData);
            }
            let ghost full = data@;
            let digits = data.remove(0);
            proof {
                assert(data@ =~= full.skip(1));
            }
            Inner::Response(calculate::Response { digits, response: data })
        } else if tag == 0x77 {
            Inner::Hotp
        } else if tag == 0x7c {
            Inner::Touch
        } else {
            return Err(Error::UnexpectedValue(tag));
        };
        let record = Response { name, inner };
        let ghost prev_out = out@;
        out.push(record);
        proof {
            assert(rest1.skip(tlv::spec_decoded_len(rest1)) =~= reply@.skip(next2 as int));
            assert(response_views(out@) =~= response_views(prev_out).push(record@));
            match spec_decode(reply@.skip(next2 as int), truncate) {
                Ok(s) => {
                    assert(response_views(prev_out) + (seq![record@] + s) =~= response_views(out@)
                        + s);
                },
                Err(e) => {},
            }
        }
        pos = next2;
    }
    proof {
        assert(reply@.skip(pos as int) =~= Seq::<u8>::empty());
        match spec_decode(reply@, truncate) {
            Ok(s) => {
                assert(response_views(out@) + Seq::<ResponseView>::empty() =~= response_views(
                    out@,
                ));
                assert(s =~= response_views(out@));
            },
            Err(e) => {},
        }
    }
    Ok(out)
}

} // verus!
