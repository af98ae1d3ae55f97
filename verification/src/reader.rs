//! Reader matching: picks the smart-card reader whose name announces the
//! token, by a case-insensitive substring search. Enumerating the readers is
//! the transport's business; only the name test lives here.

use vstd::prelude::*;

verus! {

/// ASCII lower-casing of one byte; bytes outside the upper-case letters are
/// kept as they are.
pub open spec fn ascii_lower(b: u8) -> u8 {
    if 0x41 <= b <= 0x5a {
        (b + 0x20) as u8
    } else {
        b
    }
}

/// The marker that a matching reader name carries: the bytes of
/// "yubico yubikey".
pub open spec fn spec_marker() -> Seq<u8> {
    seq![0x79u8, 0x75, 0x62, 0x69, 0x63, 0x6f, 0x20, 0x79, 0x75, 0x62, 0x69, 0x6b, 0x65, 0x79]
}

/// Whether the 14 bytes of `name` starting at `i` spell the marker once
/// lower-cased.
pub open spec fn window_matches(name: Seq<u8>, i: int) -> bool
    recommends
        0 <= i,
        i + 14 <= name.len(),
{
    forall|t: int| 0 <= t < 14 ==> ascii_lower(#[trigger] name[i + t]) == spec_marker()[t]
}

/// Whether `name` holds the marker anywhere, case-insensitively.
pub open spec fn spec_is_yubikey_reader(name: Seq<u8>) -> bool {
    exists|i: int| 0 <= i && i + 14 <= name.len() && #[trigger] window_matches(name, i)
}

/// ASCII lower-casing of one byte.
fn to_lower_byte(b: u8) -> (r: u8)
    ensures
        r == ascii_lower(b),
{
    if 0x41 <= b && b <= 0x5a {
        b + 0x20
    } else {
        b
    }
}

/// Whether the window of `name` at `i` spells the marker once lower-cased.
fn window_match(name: &[u8], i: usize) -> (r: bool)
    requires
        i + 14 <= name@.len(),
    ensures
        r == window_matches(name@, i as int),
{
    let marker = vec![
        0x79u8,
        0x75,
        0x62,
        0x69,
        0x63,
        0x6f,
        0x20,
        0x79,
        0x75,
        0x62,
        0x69,
        0x6b,
        0x65,
        0x79,
    ];
    proof {
        assert(marker@ =~= spec_marker());
    }
    let len = name.len();
    let mut j: usize = 0;
    while j < 14
        invariant
            j <= 14,
            len == name@.len(),
            i + 14 <= name@.len(),
            marker@ == spec_marker(),
            forall|t: int| 0 <= t < j ==> ascii_lower(#[trigger] name@[i + t]) == spec_marker()[t],
        decreases 14 - j,
    {
        if to_lower_byte(name[i + j]) != marker[j] {
            proof {
                assert(ascii_lower(name@[i + j as int]) != spec_marker()[j as int]);
            }
            return false;
        }
        j += 1;
    }
    true
}

/// Whether a reader name announces the token: the bytes "yubico yubikey"
/// occur somewhere in it, compared ASCII-case-insensitively.
pub fn is_yubikey_reader(name: &[u8]) -> (r: bool)
    ensures
        r == spec_is_yubikey_reader(name@),
{
    if name.len() < 14 {
        return false;
    }
    let mut i: usize = 0;
    while i <= name.len() - 14
        invariant
            name@.len() >= 14,
            i <= name@.len(),
            forall|k: int| 0 <= k < i ==> !#[trigger] window_matches(name@, k),
        decreases name@.len() - i,
    {
        if window_match(name, i) {
            assert(spec_is_yubikey_reader(name@));
            return true;
        }
        i += 1;
    }
    false
}

} // verus!
