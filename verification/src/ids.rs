//! Random identifiers and random numbers, drawn from version-4 UUIDs.
use vstd::prelude::*;

verus! {

/// A lower-case hexadecimal digit.
pub open spec fn is_lower_hex(c: char) -> bool {
    ('0' <= c && c <= '9') || ('a' <= c && c <= 'f')
}

/// The hyphenated form of a UUID: 36 characters, `-` at positions 8, 13, 18
/// and 23, lower-case hexadecimal digits elsewhere.
pub open spec fn is_hyphenated_uuid(s: Seq<char>) -> bool {
    &&& s.len() == 36
    &&& forall|i: int| 0 <= i < 36 ==> if i == 8 || i == 13 || i == 18 || i == 23 {
        #[trigger] s[i] == '-'
    } else {
        is_lower_hex(s[i])
    }
}

/// A fresh random identifier.
/// Trusted: `uuid::Uuid::new_v4()` rendered by its `Display` impl, which writes
/// the hyphenated lower-case form (8-4-4-4-12 hexadecimal digits). Which
/// identifier comes out is left open: it is drawn from the system's random source.
#[verifier::external_body]
pub fn new_uuid_string() -> (s: String)
    ensures
        is_hyphenated_uuid(s@),
{
    uuid::Uuid::new_v4().to_string()
}

/// A random 128-bit number.
/// Trusted: the value of a fresh `uuid::Uuid::new_v4()` as a big-endian `u128`
/// (`Uuid::as_u128`). Nothing is stated of the value: it comes from the
/// system's random source.
#[verifier::external_body]
pub fn random_u128() -> (r: u128) {
    uuid::Uuid::new_v4().as_u128()
}

/// `len` random bytes, each the low byte of a fresh random number.
pub fn random_bytes(len: usize) -> (v: Vec<u8>)
    ensures
        v@.len() == len,
{
    let mut v: Vec<u8> = Vec::new();
    let mut i: usize = 0;
    while i < len
        invariant
            i <= len,
            v@.len() == i,
        decreases len - i,
    {
        let r = random_u128();
        v.push((r % 256) as u8);
        i = i + 1;
    }
    v
}

} // verus!
