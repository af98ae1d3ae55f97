//! The Calculate operation: decodes the single-credential reply, and turns a
//! raw HMAC-derived response into a fixed-width decimal code.

use vstd::prelude::*;

use crate::error::Error;
use crate::tlv;

verus! {

/// A decoded Calculate reply: the digit count the credential was stored
/// with, and the raw HMAC-derived response bytes.
#[derive(Clone, Debug)]
pub struct Response {
    pub digits: u8,
    pub response: Vec<u8>,
}

/// The mathematical value of a [`Response`].
pub struct ResponseView {
    pub digits: u8,
    pub response: Seq<u8>,
}

impl View for Response {
    type V = ResponseView;

    open spec fn view(&self) -> ResponseView {
        ResponseView { digits: self.digits, response: self.response@ }
    }
}

/// The RESPONSE tag of a reply: 0x76 when truncation was requested, 0x75 for
/// a full response.
pub open spec fn spec_response_tag(truncate: bool) -> u8 {
    if truncate {
        0x76
    } else {
        0x75
    }
}

/// What decoding a Calculate reply yields: one RESPONSE record whose first
/// byte is the digit count and whose remaining bytes are the raw response; a
/// record without even the digit count byte is a buffer underrun.
pub open spec fn spec_decode(reply: Seq<u8>, truncate: bool) -> Result<ResponseView, Error> {
    match tlv::spec_decode_one(reply, seq![spec_response_tag(truncate)]) {
        Err(e) => Err(e),
        Ok((tag, data)) => if data.len() < 1 {
            Err(Error::InsufficientData)
        } else {
            Ok(ResponseView { digits: data[0], response: data.skip(1) })
        },
    }
}

/// Decodes an assembled Calculate reply.
pub fn decode(reply: &[u8], truncate: bool) -> (r: Result<Response, Error>)
    ensures
        match spec_decode(reply@, truncate) {
            Ok(v) => r matches Ok(x) && x@ == v,
            Err(e) => r matches Err(e2) && e2 == e,
        },
{
    proof {
        assert(reply@.skip(0) =~= reply@);
    }
    let tags = vec![if truncate { 0x76u8 } else { 0x75u8 }];
    proof {
        assert(tags@ =~= seq![spec_response_tag(truncate)]);
    }
    match tlv::decode_one(reply, 0, tags.as_slice()) {
        Err(e) => Err(e),
        Ok((_, mut value, _)) => {
            if value.len() == 0 {
                return Err(Error::InsufficientData);
            }
            let ghost full = value@;
            let digits = value.remove(0);
            proof {
                assert(value@ =~= full.skip(1));
            }
            Ok(Response { digits, response: value })
        },
    }
}

/// The big-endian unsigned value of a byte string.
pub open spec fn be_u32(s: Seq<u8>) -> nat
    decreases s.len(),
{
    if s.len() == 0 {
        0
    } else {
        be_u32(s.drop_last()) * 256 + s.last() as nat
    }
}

/// The value of the last (up to) four response bytes, right-aligned and
/// zero-padded on the left: the dynamic-truncation step before the sign bit
/// is cleared.
pub open spec fn spec_truncated(response: Seq<u8>) -> nat {
    if response.len() <= 4 {
        be_u32(response)
    } else {
        be_u32(response.skip(response.len() - 4))
    }
}

/// A byte string of at most four bytes has a big-endian value below 2^32
/// (and shorter prefixes stay below the matching power of 256).
proof fn lemma_be_u32_bound(s: Seq<u8>)
    requires
        s.len() <= 4,
    ensures
        s.len() == 0 ==> be_u32(s) == 0,
        s.len() <= 1 ==> be_u32(s) < 0x100,
        s.len() <= 2 ==> be_u32(s) < 0x10000,
        s.len() <= 3 ==> be_u32(s) < 0x1000000,
        be_u32(s) < 0x100000000,
    decreases s.len(),
{
    if s.len() > 0 {
        lemma_be_u32_bound(s.drop_last());
    }
}

/// A leading zero byte does not change the big-endian value.
proof fn lemma_be_u32_leading_zero(s: Seq<u8>)
    ensures
        be_u32(seq![0u8] + s) == be_u32(s),
    decreases s.len(),
{
    if s.len() == 0 {
        assert((seq![0u8] + s) =~= seq![0u8]);
        assert(be_u32(seq![0u8]) == be_u32(seq![0u8].drop_last()) * 256 + 0);
        assert(seq![0u8].drop_last() =~= Seq::<u8>::empty());
    } else {
        assert((seq![0u8] + s).drop_last() =~= seq![0u8] + s.drop_last());
        assert((seq![0u8] + s).last() == s.last());
        lemma_be_u32_leading_zero(s.drop_last());
    }
}

/// Truncation is stable under left zero-padding: a response and the same
/// response with a zero byte prepended truncate to the same value, so they
/// yield identical codes for the same digit count.
pub proof fn lemma_truncation_zero_padding(response: Seq<u8>)
    ensures
        spec_truncated(seq![0u8] + response) == spec_truncated(response),
{
    let padded = seq![0u8] + response;
    if response.len() < 4 {
        lemma_be_u32_leading_zero(response);
        if padded.len() > 4 {
        } else {
        }
    } else if response.len() == 4 {
        assert(padded.skip(1) =~= response);
    } else {
        assert(padded.skip(padded.len() - 4) =~= response.skip(response.len() - 4));
    }
}

/// An OTP code: the digit count to render with, and the raw truncated
/// 32-bit response value.
#[derive(Clone, Copy)]
pub struct Code {
    digits: u8,
    response: u32,
}

/// The mathematical value of a [`Code`].
pub struct CodeView {
    pub digits: u8,
    pub response: u32,
}

impl View for Code {
    type V = CodeView;

    closed spec fn view(&self) -> CodeView {
        CodeView { digits: self.digits, response: self.response }
    }
}

impl Response {
    /// Truncates the raw response to its code: the last (up to) four bytes,
    /// zero-padded on the left, read as a big-endian 32-bit value.
    pub fn code(&self) -> (r: Code)
        ensures
            r@.digits == self.digits,
            r@.response == spec_truncated(self.response@),
    {
        let len = self.response.len();
        let start = if len > 4 {
            len - 4
        } else {
            0
        };
        let mut value: u32 = 0;
        let mut i: usize = start;
        while i < len
            invariant
                start <= i <= len,
                len == self.response@.len(),
                start == if len > 4 {
                    len - 4
                } else {
                    0
                },
                value == be_u32(self.response@.subrange(start as int, i as int)),
            decreases len - i,
        {
            proof {
                lemma_be_u32_bound(self.response@.subrange(start as int, i as int));
            }
            value = value * 256 + (self.response[i] as u32);
            proof {
                assert(self.response@.subrange(start as int, i + 1 as int).drop_last()
                    =~= self.response@.subrange(start as int, i as int));
            }
            i += 1;
        }
        proof {
            if len <= 4 {
                assert(self.response@.subrange(start as int, len as int) =~= self.response@);
            } else {
                assert(self.response@.subrange(start as int, len as int) =~= self.response@.skip(
                    len - 4,
                ));
            }
        }
        Code { digits: self.digits, response: value }
    }
}

/// Ten to the `n`th power.
pub open spec fn pow10(n: nat) -> nat
    decreases n,
{
    if n == 0 {
        1
    } else {
        10 * pow10((n - 1) as nat)
    }
}

/// The concrete values of the small powers of ten.
proof fn lemma_pow10_values()
    ensures
        pow10(0) == 1,
        pow10(1) == 10,
        pow10(2) == 100,
        pow10(3) == 1000,
        pow10(4) == 10000,
        pow10(5) == 100000,
        pow10(6) == 1000000,
        pow10(7) == 10000000,
        pow10(8) == 100000000,
        pow10(9) == 1000000000,
        pow10(10) == 10000000000,
{
    assert(pow10(0) == 1);
    assert(pow10(1) == 10);
    assert(pow10(2) == 100);
    assert(pow10(3) == 1000);
    assert(pow10(4) == 10000);
    assert(pow10(5) == 100000);
    assert(pow10(6) == 1000000);
    assert(pow10(7) == 10000000);
    assert(pow10(8) == 100000000);
    assert(pow10(9) == 1000000000);
    assert(pow10(10) == 10000000000);
}

/// Powers of ten do not decrease.
proof fn lemma_pow10_le(a: nat, b: nat)
    requires
        a <= b,
    ensures
        pow10(a) <= pow10(b),
    decreases b,
{
    if a < b {
        lemma_pow10_le(a, (b - 1) as nat);
        assert(pow10(b) == 10 * pow10((b - 1) as nat));
    }
}

/// The value rendered for a raw truncated response and a digit count: the
/// sign bit is cleared, then the value is reduced modulo ten to the digit
/// count.
pub open spec fn spec_code_value(raw: u32, digits: u8) -> nat {
    ((raw as nat) % 0x80000000) % pow10(digits as nat)
}

/// The decimal rendering of `v`, zero-padded on the left to exactly `width`
/// ASCII digits (the high digits of a value too large for the width are
/// dropped; a width of zero renders nothing).
pub open spec fn spec_decimal(v: nat, width: nat) -> Seq<u8>
    decreases width,
{
    if width == 0 {
        Seq::empty()
    } else {
        spec_decimal(v / 10, (width - 1) as nat).push((0x30 + v % 10) as u8)
    }
}

/// Renders `v` as `width` decimal ASCII digits, least-significant last.
fn render_decimal(v: u32, width: u8) -> (r: Vec<u8>)
    ensures
        r@ == spec_decimal(v as nat, width as nat),
    decreases width,
{
    if width == 0 {
        let r: Vec<u8> = Vec::new();
        proof {
            assert(r@ =~= spec_decimal(v as nat, 0));
        }
        r
    } else {
        let mut r = render_decimal(v / 10, width - 1);
        r.push(0x30 + (v % 10) as u8);
        r
    }
}

impl Code {
    /// The digit count this code renders with.
    pub fn digits(&self) -> (r: u8)
        ensures
            r == self@.digits,
    {
        self.digits
    }

    /// Renders the code as ASCII decimal digits, zero-padded on the left to
    /// exactly the stored digit count. A digit count of zero renders the
    /// empty string.
    pub fn render(&self) -> (r: Vec<u8>)
        ensures
            r@ == spec_decimal(spec_code_value(self@.response, self@.digits), self@.digits as nat),
    {
        let raw = self.response;
        let masked = raw & 0x7fffffff;
        proof {
            assert(masked == raw as nat % 0x80000000) by (bit_vector)
                requires
                    masked == raw & 0x7fffffff,
            ;
        }
        let value = if self.digits >= 10 {
            proof {
                lemma_pow10_values();
                lemma_pow10_le(10, self.digits as nat);
                vstd::arithmetic::div_mod::lemma_small_mod(masked as nat, pow10(self.digits as nat));
            }
            masked
        } else {
            let m = pow10_u32(self.digits);
            masked % m
        };
        render_decimal(value, self.digits)
    }
}

/// Ten to the `d`th power, for exponents whose power fits a `u32`.
fn pow10_u32(d: u8) -> (r: u32)
    requires
        d < 10,
    ensures
        r == pow10(d as nat),
        r >= 1,
{
    let mut r: u32 = 1;
    let mut j: u8 = 0;
    while j < d
        invariant
            j <= d < 10,
            r == pow10(j as nat),
        decreases d - j,
    {
        proof {
            lemma_pow10_values();
            lemma_pow10_le(j as nat, 8);
        }
        r = r * 10;
        j += 1;
    }
    proof {
        lemma_pow10_le(0, d as nat);
    }
    r
}

} // verus!
