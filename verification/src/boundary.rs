//! Boundary token generation.
//!
//! A boundary is a fixed-length token of lowercase ASCII alphanumeric
//! characters, drawn from the process-level random source.  Only low
//! collision probability against field content is required, not
//! cryptographic strength.

use rand::Rng;
use vstd::prelude::*;

verus! {

/// Length of every generated boundary token.
pub const BOUNDARY_LEN: usize = 8;

/// An ASCII byte in `A`-`Z`, `a`-`z` or `0`-`9`.
pub open spec fn is_alnum_byte(b: u8) -> bool {
    (65 <= b && b <= 90) || (97 <= b && b <= 122) || (48 <= b && b <= 57)
}

/// An ASCII byte in `a`-`z` or `0`-`9`.
pub open spec fn is_lower_alnum_byte(b: u8) -> bool {
    (97 <= b && b <= 122) || (48 <= b && b <= 57)
}

/// A character in `a`-`z` or `0`-`9`.
pub open spec fn is_lower_alnum_char(c: char) -> bool {
    (97 <= c as u32 && c as u32 <= 122) || (48 <= c as u32 && c as u32 <= 57)
}

/// The ASCII lowercase image of a byte: `A`-`Z` shifts into `a`-`z`,
/// everything else is unchanged.
pub open spec fn spec_to_lower(b: u8) -> u8 {
    if 65 <= b && b <= 90 {
        (b + 32) as u8
    } else {
        b
    }
}

/// Maps an ASCII uppercase letter to lowercase; leaves other bytes alone.
fn to_lower_byte(b: u8) -> (r: u8)
    ensures
        r == spec_to_lower(b),
{
    if 65 <= b && b <= 90 {
        b + 32
    } else {
        b
    }
}

/// Generate a random alphanumeric sequence of length `len`, folded to
/// lowercase.
pub fn random_alphanumeric(len: usize) -> (r: String)
    ensures
        r@.len() == len as int,
        forall|i: int| 0 <= i < r@.len() ==> is_lower_alnum_char(#[trigger] r@[i]),
{
    let bytes = random_alnum_bytes(len);
    let mut lowered: Vec<u8> = Vec::new();
    let mut i: usize = 0;
    while i < bytes.len()
        invariant
            i <= bytes.len(),
            bytes.len() == len,
            lowered.len() == i,
            forall|j: int| 0 <= j < bytes.len() ==> is_alnum_byte(#[trigger] bytes[j]),
            forall|j: int| 0 <= j < i ==> lowered[j] == spec_to_lower(#[trigger] bytes[j]),
        decreases bytes.len() - i,
    {
        lowered.push(to_lower_byte(bytes[i]));
        i += 1;
    }
    assert forall|j: int| 0 <= j < lowered@.len() implies is_lower_alnum_byte(#[trigger] lowered@[j])
        && lowered@[j] < 128 by {
        assert(lowered@[j] == spec_to_lower(bytes@[j]));
        assert(is_alnum_byte(bytes@[j]));
    }
    let ghost lowered_view = lowered@;
    let s = ascii_string(lowered);
    assert forall|i: int| 0 <= i < s@.len() implies is_lower_alnum_char(#[trigger] s@[i]) by {
        assert(s@[i] == lowered_view[i] as char);
        assert(is_lower_alnum_byte(lowered_view[i]));
    }
    s
}

/// Relies on `rand::Rng::sample_iter` over `rand::distributions::Alphanumeric`,
/// whose samples are drawn from the 62-byte charset `A`-`Z`, `a`-`z`,
/// `0`-`9`.  The result is random, so nothing beyond the length and the
/// alphabet is promised.
#[verifier::external_body]
fn random_alnum_bytes(len: usize) -> (r: Vec<u8>)
    ensures
        r@.len() == len as int,
        forall|i: int| 0 <= i < r@.len() ==> is_alnum_byte(#[trigger] r@[i]),
{
    rand::thread_rng().sample_iter(&rand::distributions::Alphanumeric).take(len).collect()
}

/// Relies on `String::from_utf8`: ASCII bytes are valid UTF-8 and decode
/// to one character per byte, each the character of the byte's value.
#[verifier::external_body]
fn ascii_string(bytes: Vec<u8>) -> (r: String)
    requires
        forall|i: int| 0 <= i < bytes@.len() ==> bytes@[i] < 128,
    ensures
        r@.len() == bytes@.len(),
        forall|i: int| 0 <= i < r@.len() ==> #[trigger] r@[i] == bytes@[i] as char,
{
    String::from_utf8(bytes).unwrap()
}

} // verus!
