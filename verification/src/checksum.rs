//! SHA-256 checksums of file contents, written as lower-case hexadecimal.
use vstd::prelude::*;
use sha2::Digest;
use crate::text::string_from_chars;

verus! {

/// Name for the SHA-256 digest of `bytes`.
pub uninterp spec fn sha256_digest(bytes: Seq<u8>) -> Seq<u8>;

/// The SHA-256 digest of `bytes`.
/// Trusted: sha2's `Sha256::digest` (a fresh hasher fed `bytes`, then
/// finalized). The digest is a function of the bytes alone, named
/// `sha256_digest`, and is 32 bytes long (its output type holds 32 bytes);
/// nothing more is claimed of it.
#[verifier::external_body]
pub fn sha256(bytes: &[u8]) -> (d: Vec<u8>)
    ensures
        d@ == sha256_digest(bytes@),
        d@.len() == 32,
{
    sha2::Sha256::digest(bytes).to_vec()
}

/// The lower-case hexadecimal digit for `d` (0..=15).
pub open spec fn hex_digit(d: nat) -> char {
    if d < 10 { ((d + 48) as u8) as char } else { ((d + 87) as u8) as char }
}

/// Each byte of `s` as two lower-case hexadecimal digits, high digit first.
pub open spec fn lower_hex(s: Seq<u8>) -> Seq<char>
    decreases s.len(),
{
    if s.len() == 0 {
        seq![]
    } else {
        lower_hex(s.drop_last()) + seq![hex_digit((s.last() / 16) as nat), hex_digit((s.last() % 16) as nat)]
    }
}

fn hex_char(d: u8) -> (c: char)
    requires
        d < 16,
    ensures
        c == hex_digit(d as nat),
{
    if d < 10 { (d + 48) as char } else { (d + 87) as char }
}

/// The bytes of `s` in lower-case hexadecimal (see `lower_hex`), as the
/// `{:x}` form of a digest writes them.
pub fn to_lower_hex(s: &[u8]) -> (r: String)
    ensures
        r@ == lower_hex(s@),
{
    let n = s.len();
    let mut out: Vec<char> = Vec::new();
    let mut i: usize = 0;
    while i < n
        invariant
            n == s@.len(),
            i <= n,
            out@ == lower_hex(s@.take(i as int)),
        decreases n - i,
    {
        let b = s[i];
        let hi = hex_char(b / 16);
        let lo = hex_char(b % 16);
        proof {
            assert(s@.take(i + 1).drop_last() =~= s@.take(i as int));
            assert(s@.take(i + 1).last() == b);
        }
        out.push(hi);
        out.push(lo);
        assert(out@ =~= lower_hex(s@.take(i + 1)));
        i = i + 1;
    }
    assert(s@.take(n as int) =~= s@);
    string_from_chars(&out)
}

/// The SHA-256 checksum of `contents` in lower-case hexadecimal.
pub fn checksum_of(contents: &[u8]) -> (r: String)
    ensures
        r@ == lower_hex(sha256_digest(contents@)),
        r@.len() == 64,
{
    let d = sha256(contents);
    proof { lemma_hex_len(d@); }
    to_lower_hex(d.as_slice())
}

proof fn lemma_hex_len(s: Seq<u8>)
    ensures
        lower_hex(s).len() == 2 * s.len(),
    decreases s.len(),
{
    if s.len() > 0 {
        lemma_hex_len(s.drop_last());
    }
}

} // verus!
