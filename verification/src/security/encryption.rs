//! Symmetric encryption helpers: a base64 codec, a keyed XOR stream with a
//! trailing tag, password-based key derivation and password hashing.
use vstd::prelude::*;
use crate::text::{decimal, string_from_chars, chars_of, u64_to_decimal, concat, owned, string_from_utf8, copy_bytes};
use crate::ids::random_bytes;
use vstd::wrapping::u64_specs;
use vstd::wrapping::u8_specs;
use vstd::utf8::{encode_utf8, decode_utf8, valid_utf8};
use vstd::string::StringSliceAdditionalSpecFns;

verus! {

// ---------------------------------------------------------------------------
// Base64
// ---------------------------------------------------------------------------

/// The base64 digit for a 6-bit value.
pub open spec fn b64_char(v: int) -> char {
    if v < 26 {
        (v + 65) as char
    } else if v < 52 {
        (v + 71) as char
    } else if v < 62 {
        (v - 4) as char
    } else if v == 62 {
        '+'
    } else {
        '/'
    }
}

/// The 6-bit value of a base64 digit, or -1 for a character outside the alphabet.
pub open spec fn b64_value(c: char) -> int {
    let u = c as int;
    if 65 <= u <= 90 {
        u - 65
    } else if 97 <= u <= 122 {
        u - 71
    } else if 48 <= u <= 57 {
        u + 4
    } else if c == '+' {
        62
    } else if c == '/' {
        63
    } else {
        -1
    }
}

/// The four digits of a full three-byte group.
pub open spec fn b64_quad(b0: u8, b1: u8, b2: u8) -> Seq<char> {
    seq![
        b64_char((b0 >> 2u8) as int),
        b64_char((((b0 & 3u8) << 4u8) | (b1 >> 4u8)) as int),
        b64_char((((b1 & 15u8) << 2u8) | (b2 >> 6u8)) as int),
        b64_char((b2 & 63u8) as int),
    ]
}

/// The base64 digits of `data` (standard alphabet), without padding.
pub open spec fn b64_digits(data: Seq<u8>) -> Seq<char>
    decreases data.len(),
{
    if data.len() == 0 {
        seq![]
    } else if data.len() == 1 {
        seq![b64_char((data[0] >> 2u8) as int), b64_char(((data[0] & 3u8) << 4u8) as int)]
    } else if data.len() == 2 {
        seq![
            b64_char((data[0] >> 2u8) as int),
            b64_char((((data[0] & 3u8) << 4u8) | (data[1] >> 4u8)) as int),
            b64_char(((data[1] & 15u8) << 2u8) as int),
        ]
    } else {
        b64_quad(data[0], data[1], data[2]) + b64_digits(data.subrange(3, data.len() as int))
    }
}

/// The `=` characters that complete the last group.
pub open spec fn b64_padding(len: nat) -> Seq<char> {
    if len % 3 == 1 {
        seq!['=', '=']
    } else if len % 3 == 2 {
        seq!['=']
    } else {
        seq![]
    }
}

/// Standard padded base64 encoding of `data`.
pub open spec fn b64_encode(data: Seq<u8>) -> Seq<char> {
    b64_digits(data) + b64_padding(data.len())
}

/// `s` without its trailing `=` characters.
pub open spec fn trim_padding(s: Seq<char>) -> Seq<char>
    decreases s.len(),
{
    if s.len() > 0 && s.last() == '=' {
        trim_padding(s.drop_last())
    } else {
        s
    }
}

/// The three bytes a group of four base64 digits stands for.
pub open spec fn b64_group_bytes(v0: u32, v1: u32, v2: u32, v3: u32) -> Seq<u8> {
    let buf: u32 = (v0 << 18u32) | (v1 << 12u32) | (v2 << 6u32) | v3;
    seq![(buf >> 16u32) as u8, (buf >> 8u32) as u8, buf as u8]
}

/// The bytes of the complete groups of four digits in `s`; a trailing group of
/// fewer than four digits gives no bytes.
pub open spec fn b64_groups(s: Seq<char>) -> Seq<u8>
    decreases s.len(),
{
    if s.len() < 4 {
        seq![]
    } else {
        b64_group_bytes(
            b64_value(s[0]) as u32,
            b64_value(s[1]) as u32,
            b64_value(s[2]) as u32,
            b64_value(s[3]) as u32,
        ) + b64_groups(s.subrange(4, s.len() as int))
    }
}

/// Every character of `s` belongs to the base64 alphabet.
pub open spec fn all_b64(s: Seq<char>) -> bool {
    forall|i: int| 0 <= i < s.len() ==> b64_value(#[trigger] s[i]) >= 0
}

/// `k` is the position of the first character of `s` outside the alphabet.
pub open spec fn first_invalid_at(s: Seq<char>, k: int) -> bool {
    &&& 0 <= k < s.len()
    &&& b64_value(s[k]) < 0
    &&& all_b64(s.subrange(0, k))
}

/// What decoding `s` yields: the bytes of its complete groups once the trailing
/// padding is removed, provided every remaining character is a base64 digit.
pub open spec fn b64_decoded(s: Seq<char>) -> Option<Seq<u8>> {
    let t = trim_padding(s);
    if all_b64(t) {
        Some(b64_groups(t))
    } else {
        None
    }
}

/// The message of the error for an invalid character at position `k`.
pub open spec fn invalid_char_message(k: nat) -> Seq<char> {
    "Invalid base64 character at position "@ + decimal(k)
}

fn b64_digit(v: u32) -> (c: char)
    requires
        v < 64,
    ensures
        c == b64_char(v as int),
        b64_value(c) == v,
{
    if v < 26 {
        ((v + 65) as u8) as char
    } else if v < 52 {
        ((v + 71) as u8) as char
    } else if v < 62 {
        ((v - 4) as u8) as char
    } else if v == 62 {
        '+'
    } else {
        '/'
    }
}

fn b64_digit_value(c: char) -> (r: Option<u32>)
    ensures
        r matches Some(x) ==> x == b64_value(c) && x < 64,
        r is None ==> b64_value(c) < 0,
{
    let u = c as u32;
    if 65 <= u && u <= 90 {
        Some(u - 65)
    } else if 97 <= u && u <= 122 {
        Some(u - 71)
    } else if 48 <= u && u <= 57 {
        Some(u + 4)
    } else if c == '+' {
        Some(62)
    } else if c == '/' {
        Some(63)
    } else {
        None
    }
}

proof fn lemma_quad_indices(b0: u8, b1: u8, b2: u8, n: u32)
    requires
        n == ((b0 as u32) << 16u32) | ((b1 as u32) << 8u32) | (b2 as u32),
    ensures
        (n >> 18u32) & 63u32 == (b0 >> 2u8) as u32,
        (n >> 12u32) & 63u32 == (((b0 & 3u8) << 4u8) | (b1 >> 4u8)) as u32,
        (n >> 6u32) & 63u32 == (((b1 & 15u8) << 2u8) | (b2 >> 6u8)) as u32,
        n & 63u32 == (b2 & 63u8) as u32,
        (b0 >> 2u8) < 64,
        (((b0 & 3u8) << 4u8) | (b1 >> 4u8)) < 64,
        (((b1 & 15u8) << 2u8) | (b2 >> 6u8)) < 64,
        (b2 & 63u8) < 64,
        ((b1 & 15u8) << 2u8) < 64,
        ((b0 & 3u8) << 4u8) < 64,
        (((b1 & 15u8) << 2u8) | (0u8 >> 6u8)) == ((b1 & 15u8) << 2u8),
        (((b0 & 3u8) << 4u8) | (0u8 >> 4u8)) == ((b0 & 3u8) << 4u8),
{
    assert((n >> 18u32) & 63u32 == (b0 >> 2u8) as u32) by (bit_vector)
        requires n == ((b0 as u32) << 16u32) | ((b1 as u32) << 8u32) | (b2 as u32);
    assert((n >> 12u32) & 63u32 == (((b0 & 3u8) << 4u8) | (b1 >> 4u8)) as u32) by (bit_vector)
        requires n == ((b0 as u32) << 16u32) | ((b1 as u32) << 8u32) | (b2 as u32);
    assert((n >> 6u32) & 63u32 == (((b1 & 15u8) << 2u8) | (b2 >> 6u8)) as u32) by (bit_vector)
        requires n == ((b0 as u32) << 16u32) | ((b1 as u32) << 8u32) | (b2 as u32);
    assert(n & 63u32 == (b2 & 63u8) as u32) by (bit_vector)
        requires n == ((b0 as u32) << 16u32) | ((b1 as u32) << 8u32) | (b2 as u32);
    assert((b0 >> 2u8) < 64) by (bit_vector);
    assert((((b0 & 3u8) << 4u8) | (b1 >> 4u8)) < 64) by (bit_vector);
    assert((((b1 & 15u8) << 2u8) | (b2 >> 6u8)) < 64) by (bit_vector);
    assert((b2 & 63u8) < 64) by (bit_vector);
    assert(((b1 & 15u8) << 2u8) < 64) by (bit_vector);
    assert(((b0 & 3u8) << 4u8) < 64) by (bit_vector);
    assert((((b1 & 15u8) << 2u8) | (0u8 >> 6u8)) == ((b1 & 15u8) << 2u8)) by (bit_vector);
    assert((((b0 & 3u8) << 4u8) | (0u8 >> 4u8)) == ((b0 & 3u8) << 4u8)) by (bit_vector);
}

/// Standard padded base64 encoding.
pub fn base64_encode(data: &[u8]) -> (s: String)
    ensures
        s@ == b64_encode(data@),
{
    let len = data.len();
    let mut out: Vec<char> = Vec::new();
    let mut i: usize = 0;
    assert(data@.subrange(0, len as int) =~= data@);
    while len - i >= 3
        invariant
            len == data@.len(),
            i <= len,
            i % 3 == 0,
            out@ + b64_digits(data@.subrange(i as int, len as int)) == b64_digits(data@),
        decreases len - i,
    {
        let b0 = data[i];
        let b1 = data[i + 1];
        let b2 = data[i + 2];
        let n: u32 = ((b0 as u32) << 16u32) | ((b1 as u32) << 8u32) | (b2 as u32);
        proof {
            lemma_quad_indices(b0, b1, b2, n);
            let rest = data@.subrange(i as int, len as int);
            assert(rest.subrange(3, rest.len() as int) =~= data@.subrange(i + 3, len as int));
            assert(rest[0] == b0 && rest[1] == b1 && rest[2] == b2);
        }
        out.push(b64_digit((n >> 18u32) & 63u32));
        out.push(b64_digit((n >> 12u32) & 63u32));
        out.push(b64_digit((n >> 6u32) & 63u32));
        out.push(b64_digit(n & 63u32));
        i = i + 3;
    }
    let rest = len - i;
    let ghost tail = data@.subrange(i as int, len as int);
    if rest == 1 {
        let b0 = data[i];
        let n: u32 = (b0 as u32) << 16u32;
        proof {
            assert(n == ((b0 as u32) << 16u32) | ((0u8 as u32) << 8u32) | (0u8 as u32)) by (bit_vector)
                requires n == (b0 as u32) << 16u32;
            lemma_quad_indices(b0, 0u8, 0u8, n);
            assert(tail[0] == b0);
        }
        out.push(b64_digit((n >> 18u32) & 63u32));
        out.push(b64_digit((n >> 12u32) & 63u32));
        out.push('=');
        out.push('=');
    } else if rest == 2 {
        let b0 = data[i];
        let b1 = data[i + 1];
        let n: u32 = ((b0 as u32) << 16u32) | ((b1 as u32) << 8u32);
        proof {
            assert(n == ((b0 as u32) << 16u32) | ((b1 as u32) << 8u32) | (0u8 as u32)) by (bit_vector)
                requires n == ((b0 as u32) << 16u32) | ((b1 as u32) << 8u32);
            lemma_quad_indices(b0, b1, 0u8, n);
            assert(tail[0] == b0 && tail[1] == b1);
        }
        out.push(b64_digit((n >> 18u32) & 63u32));
        out.push(b64_digit((n >> 12u32) & 63u32));
        out.push(b64_digit((n >> 6u32) & 63u32));
        out.push('=');
    }
    assert(out@ =~= b64_encode(data@));
    string_from_chars(&out)
}


/// Failures of the encryption operations, each with a human-readable message.
#[derive(Debug)]
pub enum EncryptionError {
    NoKey { message: String },
    InvalidData { message: String },
    DecryptionFailed { message: String },
    KeyDerivationFailed { message: String },
}

impl EncryptionError {
    /// The message carried by the error.
    pub open spec fn message_view(self) -> Seq<char> {
        match self {
            EncryptionError::NoKey { message } => message@,
            EncryptionError::InvalidData { message } => message@,
            EncryptionError::DecryptionFailed { message } => message@,
            EncryptionError::KeyDerivationFailed { message } => message@,
        }
    }
}

proof fn lemma_trim_step(s: Seq<char>, end: int)
    requires
        0 < end <= s.len(),
        s[end - 1] == '=',
    ensures
        trim_padding(s.subrange(0, end)) == trim_padding(s.subrange(0, end - 1)),
{
    assert(s.subrange(0, end).drop_last() =~= s.subrange(0, end - 1));
}

/// Decodes base64 text: trailing `=` are dropped, every other character must be
/// a base64 digit, and each complete group of four digits gives three bytes.
pub fn base64_decode(data: &str) -> (r: Result<Vec<u8>, EncryptionError>)
    ensures
        r is Ok <==> b64_decoded(data@) is Some,
        r matches Ok(bytes) ==> b64_decoded(data@) == Some(bytes@),
        r matches Err(e) ==> e is InvalidData && exists|k: nat|
            first_invalid_at(trim_padding(data@), k as int)
                && e.message_view() == invalid_char_message(k),
{
    let chars = chars_of(data);
    let len = chars.len();
    let mut end: usize = len;
    assert(chars@.subrange(0, len as int) =~= chars@);
    while end > 0 && chars[end - 1] == '='
        invariant
            len == chars@.len(),
            chars@ == data@,
            end <= len,
            trim_padding(data@) == trim_padding(chars@.subrange(0, end as int)),
        decreases end,
    {
        proof { lemma_trim_step(chars@, end as int); }
        end = end - 1;
    }
    let ghost t = chars@.subrange(0, end as int);
    assert(trim_padding(t) == t) by {
        if t.len() > 0 {
            assert(t.last() != '=');
        }
    }
    let mut vals: Vec<u32> = Vec::new();
    let mut i: usize = 0;
    while i < end
        invariant
            len == chars@.len(),
            end <= len,
            t == chars@.subrange(0, end as int),
            trim_padding(data@) == t,
            i <= end,
            vals@.len() == i,
            forall|j: int| 0 <= j < i ==> vals@[j] == b64_value(#[trigger] t[j]) && vals@[j] < 64,
            all_b64(t.subrange(0, i as int)),
        decreases end - i,
    {
        match b64_digit_value(chars[i]) {
            None => {
                let pos = u64_to_decimal(i as u64);
                let message = concat("Invalid base64 character at position ", pos.as_str());
                let e = EncryptionError::InvalidData { message };
                proof {
                    assert(t[i as int] == chars@[i as int]);
                    assert(first_invalid_at(t, i as int));
                    assert(!all_b64(t));
                    assert(e.message_view() == invalid_char_message(i as nat));
                    assert(first_invalid_at(trim_padding(data@), (i as nat) as int));
                }
                return Err(e);
            }
            Some(v) => {
                proof {
                    assert(t[i as int] == chars@[i as int]);
                    assert(t.subrange(0, i + 1) =~= t.subrange(0, i as int).push(t[i as int]));
                }
                vals.push(v);
                assert(forall|j: int| 0 <= j < i + 1 ==> vals@[j] == b64_value(#[trigger] t[j]) && vals@[j] < 64);
            }
        }
        i = i + 1;
    }
    assert(t.subrange(0, end as int) =~= t);
    let mut out: Vec<u8> = Vec::new();
    let mut g: usize = 0;
    assert(t.subrange(0, end as int) =~= t);
    while end - g >= 4
        invariant
            end == t.len(),
            vals@.len() == end,
            forall|j: int| 0 <= j < end ==> vals@[j] == b64_value(#[trigger] t[j]) && vals@[j] < 64,
            g <= end,
            out@ + b64_groups(t.subrange(g as int, end as int)) == b64_groups(t),
        decreases end - g,
    {
        let v0 = vals[g];
        let v1 = vals[g + 1];
        let v2 = vals[g + 2];
        let v3 = vals[g + 3];
        let buf: u32 = (v0 << 18u32) | (v1 << 12u32) | (v2 << 6u32) | v3;
        proof {
            let rest = t.subrange(g as int, end as int);
            assert(rest.subrange(4, rest.len() as int) =~= t.subrange(g + 4, end as int));
            assert(rest[0] == t[g as int] && rest[1] == t[g + 1] && rest[2] == t[g + 2] && rest[3] == t[g + 3]);
            assert(b64_value(rest[0]) as u32 == v0);
            assert(b64_value(rest[1]) as u32 == v1);
            assert(b64_value(rest[2]) as u32 == v2);
            assert(b64_value(rest[3]) as u32 == v3);
        }
        out.push(#[verifier::truncate] ((buf >> 16u32) as u8));
        out.push(#[verifier::truncate] ((buf >> 8u32) as u8));
        out.push(#[verifier::truncate] (buf as u8));
        g = g + 4;
    }
    proof {
        let rest = t.subrange(g as int, end as int);
        assert(b64_groups(rest) =~= Seq::<u8>::empty());
        assert(out@ =~= b64_groups(t));
    }
    Ok(out)
}


proof fn lemma_group_of_quad(b0: u8, b1: u8, b2: u8)
    ensures
        b64_group_bytes(
            (b0 >> 2u8) as u32,
            (((b0 & 3u8) << 4u8) | (b1 >> 4u8)) as u32,
            (((b1 & 15u8) << 2u8) | (b2 >> 6u8)) as u32,
            (b2 & 63u8) as u32,
        ) == seq![b0, b1, b2],
{
    let v0 = (b0 >> 2u8) as u32;
    let v1 = (((b0 & 3u8) << 4u8) | (b1 >> 4u8)) as u32;
    let v2 = (((b1 & 15u8) << 2u8) | (b2 >> 6u8)) as u32;
    let v3 = (b2 & 63u8) as u32;
    let buf: u32 = (v0 << 18u32) | (v1 << 12u32) | (v2 << 6u32) | v3;
    assert(buf == ((b0 as u32) << 16u32) | ((b1 as u32) << 8u32) | (b2 as u32)) by (bit_vector)
        requires
            v0 == (b0 >> 2u8) as u32,
            v1 == (((b0 & 3u8) << 4u8) | (b1 >> 4u8)) as u32,
            v2 == (((b1 & 15u8) << 2u8) | (b2 >> 6u8)) as u32,
            v3 == (b2 & 63u8) as u32,
            buf == (v0 << 18u32) | (v1 << 12u32) | (v2 << 6u32) | v3;
    assert((buf >> 16u32) as u8 == b0 && (buf >> 8u32) as u8 == b1 && buf as u8 == b2) by (bit_vector)
        requires buf == ((b0 as u32) << 16u32) | ((b1 as u32) << 8u32) | (b2 as u32);
    assert(b64_group_bytes(v0, v1, v2, v3) =~= seq![b0, b1, b2]);
}

proof fn lemma_digit_roundtrip(v: int)
    requires
        0 <= v < 64,
    ensures
        b64_value(b64_char(v)) == v,
{
}

proof fn lemma_quad_bounds(b0: u8, b1: u8, b2: u8)
    ensures
        (b0 >> 2u8) < 64,
        (((b0 & 3u8) << 4u8) | (b1 >> 4u8)) < 64,
        (((b1 & 15u8) << 2u8) | (b2 >> 6u8)) < 64,
        (b2 & 63u8) < 64,
        ((b1 & 15u8) << 2u8) < 64,
        ((b0 & 3u8) << 4u8) < 64,
{
    assert((b0 >> 2u8) < 64) by (bit_vector);
    assert((((b0 & 3u8) << 4u8) | (b1 >> 4u8)) < 64) by (bit_vector);
    assert((((b1 & 15u8) << 2u8) | (b2 >> 6u8)) < 64) by (bit_vector);
    assert((b2 & 63u8) < 64) by (bit_vector);
    assert(((b1 & 15u8) << 2u8) < 64) by (bit_vector);
    assert(((b0 & 3u8) << 4u8) < 64) by (bit_vector);
}

proof fn lemma_digits_valid(data: Seq<u8>)
    ensures
        all_b64(b64_digits(data)),
    decreases data.len(),
{
    if data.len() == 0 {
    } else if data.len() == 1 {
        lemma_quad_bounds(data[0], 0, 0);
        lemma_digit_roundtrip((data[0] >> 2u8) as int);
        lemma_digit_roundtrip(((data[0] & 3u8) << 4u8) as int);
    } else if data.len() == 2 {
        lemma_quad_bounds(data[0], data[1], 0);
        lemma_digit_roundtrip((data[0] >> 2u8) as int);
        lemma_digit_roundtrip((((data[0] & 3u8) << 4u8) | (data[1] >> 4u8)) as int);
        lemma_digit_roundtrip(((data[1] & 15u8) << 2u8) as int);
    } else {
        let (b0, b1, b2) = (data[0], data[1], data[2]);
        lemma_quad_bounds(b0, b1, b2);
        lemma_digit_roundtrip((b0 >> 2u8) as int);
        lemma_digit_roundtrip((((b0 & 3u8) << 4u8) | (b1 >> 4u8)) as int);
        lemma_digit_roundtrip((((b1 & 15u8) << 2u8) | (b2 >> 6u8)) as int);
        lemma_digit_roundtrip((b2 & 63u8) as int);
        let rest = data.subrange(3, data.len() as int);
        lemma_digits_valid(rest);
        let q = b64_quad(b0, b1, b2);
        let d = b64_digits(rest);
        assert forall|i: int| 0 <= i < (q + d).len() implies b64_value(#[trigger] (q + d)[i]) >= 0 by {
            if i >= 4 {
                assert((q + d)[i] == d[i - 4]);
            }
        }
    }
}

proof fn lemma_trim_padded(s: Seq<char>, n: nat)
    requires
        all_b64(s),
        n <= 2,
    ensures
        trim_padding(s + Seq::new(n, |i: int| '=')) == s,
    decreases n,
{
    let p = Seq::new(n, |i: int| '=');
    if n == 0 {
        assert(s + p =~= s);
        if s.len() > 0 {
            assert(b64_value(s[s.len() - 1]) >= 0);
        }
    } else {
        let q = Seq::new((n - 1) as nat, |i: int| '=');
        assert((s + p).drop_last() =~= s + q);
        lemma_trim_padded(s, (n - 1) as nat);
    }
}

proof fn lemma_groups_of_digits(data: Seq<u8>)
    ensures
        b64_groups(b64_digits(data)) == data.subrange(0, data.len() - data.len() % 3),
    decreases data.len(),
{
    if data.len() < 3 {
        assert(data.subrange(0, 0) =~= Seq::<u8>::empty());
    } else {
        let (b0, b1, b2) = (data[0], data[1], data[2]);
        let rest = data.subrange(3, data.len() as int);
        lemma_groups_of_digits(rest);
        lemma_quad_bounds(b0, b1, b2);
        lemma_digit_roundtrip((b0 >> 2u8) as int);
        lemma_digit_roundtrip((((b0 & 3u8) << 4u8) | (b1 >> 4u8)) as int);
        lemma_digit_roundtrip((((b1 & 15u8) << 2u8) | (b2 >> 6u8)) as int);
        lemma_digit_roundtrip((b2 & 63u8) as int);
        lemma_group_of_quad(b0, b1, b2);
        let q = b64_quad(b0, b1, b2);
        let s = q + b64_digits(rest);
        assert(s.subrange(4, s.len() as int) =~= b64_digits(rest));
        assert(s[0] == q[0] && s[1] == q[1] && s[2] == q[2] && s[3] == q[3]);
        assert(data.subrange(0, data.len() - data.len() % 3) =~= seq![b0, b1, b2]
            + rest.subrange(0, rest.len() - rest.len() % 3));
    }
}

/// Decoding the text that `base64_encode` produces gives back every complete
/// three-byte group of the input; a final group of one or two bytes is not
/// recovered (the decoder drops a trailing group of fewer than four digits).
pub proof fn law_base64_roundtrip(data: Seq<u8>)
    ensures
        b64_decoded(b64_encode(data)) == Some(data.subrange(0, data.len() - data.len() % 3)),
{
    lemma_digits_valid(data);
    let n: nat = if data.len() % 3 == 1 { 2 } else if data.len() % 3 == 2 { 1 } else { 0 };
    assert(b64_padding(data.len()) =~= Seq::new(n, |i: int| '='));
    lemma_trim_padded(b64_digits(data), n);
    lemma_groups_of_digits(data);
}

/// For inputs whose length is a multiple of three, decoding undoes encoding.
pub proof fn law_base64_roundtrip_whole_groups(data: Seq<u8>)
    requires
        data.len() % 3 == 0,
    ensures
        b64_decoded(b64_encode(data)) == Some(data),
{
    law_base64_roundtrip(data);
    assert(data.subrange(0, data.len() as int) =~= data);
}


// ---------------------------------------------------------------------------
// Comparison
// ---------------------------------------------------------------------------

/// Compares two byte strings, visiting every byte of equal-length inputs.
pub fn constant_time_compare(a: &[u8], b: &[u8]) -> (r: bool)
    ensures
        r == (a@ == b@),
{
    if a.len() != b.len() {
        return false;
    }
    let n = a.len();
    let mut acc: u8 = 0;
    let mut i: usize = 0;
    while i < n
        invariant
            n == a@.len(),
            n == b@.len(),
            i <= n,
            (acc == 0) <==> (forall|j: int| 0 <= j < i ==> a@[j] == b@[j]),
        decreases n - i,
    {
        let x = a[i];
        let y = b[i];
        let old_acc = acc;
        acc = acc | (x ^ y);
        assert((old_acc | (x ^ y)) == 0u8 <==> (old_acc == 0u8 && x == y)) by (bit_vector);
        proof {
            if acc == 0 {
                assert forall|j: int| 0 <= j < i + 1 implies a@[j] == b@[j] by {
                    if j < i {
                    }
                }
            }
        }
        i = i + 1;
    }
    proof {
        if acc == 0 {
            assert(a@ =~= b@);
        }
    }
    acc == 0
}

// ---------------------------------------------------------------------------
// Keyed XOR stream
// ---------------------------------------------------------------------------

/// Each plaintext byte XOR-ed with the key and nonce bytes at the same position
/// (both repeated cyclically), followed by a 16-byte tag of key bytes.
pub open spec fn xor_seal(p: Seq<u8>, k: Seq<u8>, n: Seq<u8>) -> Seq<u8> {
    Seq::new(p.len(), |i: int| p[i] ^ k[i % k.len() as int] ^ n[i % n.len() as int])
        + Seq::new(16, |j: int| k[(p.len() + j) % k.len() as int])
}

/// Opening a sealed byte string: `None` when it is shorter than the tag,
/// otherwise the bytes before the tag XOR-ed back with key and nonce.
pub open spec fn xor_open(c: Seq<u8>, k: Seq<u8>, n: Seq<u8>) -> Option<Seq<u8>> {
    if c.len() < 16 {
        None
    } else {
        Some(Seq::new((c.len() - 16) as nat, |i: int| c[i] ^ k[i % k.len() as int] ^ n[i % n.len() as int]))
    }
}

/// Sealing needs a key, and a nonce whenever there is plaintext to mix it into.
pub open spec fn can_seal(p: Seq<u8>, k: Seq<u8>, n: Seq<u8>) -> bool {
    &&& k.len() > 0
    &&& p.len() > 0 ==> n.len() > 0
    &&& p.len() + 16 <= usize::MAX
}

/// Opening needs a key and a nonce whenever there are bytes before the tag.
pub open spec fn can_open(c: Seq<u8>, k: Seq<u8>, n: Seq<u8>) -> bool {
    c.len() > 16 ==> k.len() > 0 && n.len() > 0
}

fn seal_with_key(plaintext: &[u8], key: &[u8], nonce: &[u8]) -> (r: Vec<u8>)
    requires
        can_seal(plaintext@, key@, nonce@),
    ensures
        r@ == xor_seal(plaintext@, key@, nonce@),
{
    let plen = plaintext.len();
    let klen = key.len();
    let nlen = nonce.len();
    let mut out: Vec<u8> = Vec::new();
    let mut i: usize = 0;
    while i < plen
        invariant
            plen == plaintext@.len(),
            klen == key@.len(),
            nlen == nonce@.len(),
            klen > 0,
            plen > 0 ==> nlen > 0,
            i <= plen,
            out@ =~= Seq::new(i as nat, |j: int| plaintext@[j] ^ key@[j % klen as int] ^ nonce@[j % nlen as int]),
        decreases plen - i,
    {
        let b = plaintext[i] ^ key[i % klen] ^ nonce[i % nlen];
        out.push(b);
        i = i + 1;
    }
    let mut t: usize = 0;
    while t < 16
        invariant
            plen == plaintext@.len(),
            klen == key@.len(),
            nlen == nonce@.len(),
            klen > 0,
            plen + 16 <= usize::MAX,
            t <= 16,
            out@ =~= Seq::new(plen as nat, |j: int| plaintext@[j] ^ key@[j % klen as int] ^ nonce@[j % nlen as int])
                + Seq::new(t as nat, |j: int| key@[(plen + j) % klen as int]),
        decreases 16 - t,
    {
        let b = key[(plen + t) % klen];
        out.push(b);
        t = t + 1;
    }
    out
}

fn open_with_key(ciphertext: &[u8], key: &[u8], nonce: &[u8]) -> (r: Result<Vec<u8>, EncryptionError>)
    requires
        can_open(ciphertext@, key@, nonce@),
    ensures
        r is Ok <==> xor_open(ciphertext@, key@, nonce@) is Some,
        r matches Ok(p) ==> xor_open(ciphertext@, key@, nonce@) == Some(p@),
        r matches Err(e) ==> e is InvalidData && e.message_view() == "Ciphertext too short"@,
{
    let clen = ciphertext.len();
    if clen < 16 {
        return Err(EncryptionError::InvalidData { message: owned("Ciphertext too short") });
    }
    let klen = key.len();
    let nlen = nonce.len();
    let m = clen - 16;
    let mut out: Vec<u8> = Vec::new();
    let mut i: usize = 0;
    while i < m
        invariant
            clen == ciphertext@.len(),
            m == clen - 16,
            klen == key@.len(),
            nlen == nonce@.len(),
            m > 0 ==> klen > 0 && nlen > 0,
            i <= m,
            out@ =~= Seq::new(i as nat, |j: int| ciphertext@[j] ^ key@[j % klen as int] ^ nonce@[j % nlen as int]),
        decreases m - i,
    {
        let b = ciphertext[i] ^ key[i % klen] ^ nonce[i % nlen];
        out.push(b);
        i = i + 1;
    }
    Ok(out)
}

/// Opening what was sealed with the same key and nonce gives back the plaintext.
pub proof fn law_seal_open_roundtrip(p: Seq<u8>, k: Seq<u8>, n: Seq<u8>)
    requires
        can_seal(p, k, n),
    ensures
        can_open(xor_seal(p, k, n), k, n),
        xor_open(xor_seal(p, k, n), k, n) == Some(p),
{
    let c = xor_seal(p, k, n);
    let q = Seq::new((c.len() - 16) as nat, |i: int| c[i] ^ k[i % k.len() as int] ^ n[i % n.len() as int]);
    assert forall|i: int| 0 <= i < p.len() implies q[i] == p[i] by {
        let a = p[i];
        let x = k[i % k.len() as int];
        let y = n[i % n.len() as int];
        assert(c[i] == a ^ x ^ y);
        assert((a ^ x ^ y) ^ x ^ y == a) by (bit_vector);
    }
    assert(q =~= p);
}

// ---------------------------------------------------------------------------
// Key derivation and password hashing
// ---------------------------------------------------------------------------

/// The sum of the bytes.
pub open spec fn byte_sum(b: Seq<u8>) -> int
    decreases b.len(),
{
    if b.len() == 0 {
        0
    } else {
        byte_sum(b.drop_last()) + b.last()
    }
}

/// The password byte that the Argon2id-style derivation adds in at position `i`.
pub open spec fn argon_pick(pw: Seq<u8>, i: int) -> u8 {
    pw[(((i * 31 + byte_sum(pw)) as u64) as usize) as int % pw.len() as int]
}

/// Key byte `i` of the Argon2id-style derivation: the wrapping sum of the picks
/// at positions `i`, `i - 32`, `i - 64`, ...
pub open spec fn argon_byte(pw: Seq<u8>, i: nat) -> u8
    decreases i,
{
    if i < 32 {
        argon_pick(pw, i as int)
    } else {
        u8_specs::wrapping_add(argon_byte(pw, (i - 32) as nat), argon_pick(pw, i as int))
    }
}

/// The wrapping sum over the first `n` password bytes of `byte * (i + j)`.
pub open spec fn mix_seed(pw: Seq<u8>, i: int, n: nat) -> u64
    decreases n,
{
    if n == 0 {
        0
    } else {
        u64_specs::wrapping_add(
            mix_seed(pw, i, (n - 1) as nat),
            u64_specs::wrapping_mul(pw[n - 1] as u64, u64_specs::wrapping_add(i as u64, (n - 1) as u64)),
        )
    }
}

/// `n` steps of the linear congruential generator `x * 1103515245 + 12345` (wrapping).
pub open spec fn lcg(x: u64, n: nat) -> u64
    decreases n,
{
    if n == 0 {
        x
    } else {
        u64_specs::wrapping_add(u64_specs::wrapping_mul(lcg(x, (n - 1) as nat), 1103515245), 12345)
    }
}

/// Key byte `i` of the PBKDF2-style derivation.
pub open spec fn pbkdf2_byte(pw: Seq<u8>, i: int, iterations: u32) -> u8 {
    (lcg(mix_seed(pw, i, pw.len()), iterations as nat) & 0xFFu64) as u8
}

/// Key byte `i` of the scrypt-style derivation.
pub open spec fn scrypt_byte(pw: Seq<u8>, i: int, n: u32, r: u32, p: u32) -> u8 {
    (u64_specs::wrapping_mul(
        u64_specs::wrapping_mul(u64_specs::wrapping_mul(mix_seed(pw, i, pw.len()), n as u64), r as u64),
        p as u64,
    ) & 0xFFu64) as u8
}

/// Key derivation functions and their cost parameters.
#[derive(Clone, Copy, PartialEq, Eq, Debug)]
pub enum KeyDerivation {
    Argon2id { memory_kib: u32, iterations: u32, parallelism: u32 },
    Pbkdf2 { iterations: u32 },
    Scrypt { n: u32, r: u32, p: u32 },
}

/// The derived key bytes for `pw` under `kdf`.
pub open spec fn derived_bytes(pw: Seq<u8>, kdf: KeyDerivation, len: nat) -> Seq<u8> {
    match kdf {
        KeyDerivation::Argon2id { .. } => Seq::new(len, |i: int| argon_byte(pw, i as nat)),
        KeyDerivation::Pbkdf2 { iterations } => Seq::new(len, |i: int| pbkdf2_byte(pw, i, iterations)),
        KeyDerivation::Scrypt { n, r, p } => Seq::new(len, |i: int| scrypt_byte(pw, i, n, r, p)),
    }
}

/// The name recorded for the derivation function.
pub open spec fn kdf_name(kdf: KeyDerivation) -> Seq<char> {
    match kdf {
        KeyDerivation::Argon2id { .. } => "Argon2id"@,
        KeyDerivation::Pbkdf2 { .. } => "Pbkdf2"@,
        KeyDerivation::Scrypt { .. } => "Scrypt"@,
    }
}

/// The inputs on which the derivation runs without arithmetic overflow or a
/// division by zero: the Argon2id-style variant sums the password bytes and
/// indexes the password.
pub open spec fn can_derive(pw: Seq<u8>, kdf: KeyDerivation, len: nat) -> bool {
    kdf is Argon2id ==> {
        &&& byte_sum(pw) <= u64::MAX
        &&& len > 0 ==> pw.len() > 0 && (len - 1) * 31 + byte_sum(pw) <= u64::MAX
    }
}

/// The Debug rendering of a key derivation setting.
pub open spec fn kdf_debug(kdf: KeyDerivation) -> Seq<char> {
    match kdf {
        KeyDerivation::Argon2id { memory_kib, iterations, parallelism } =>
            "Argon2id { memory_kib: "@ + decimal(memory_kib as nat) + ", iterations: "@
                + decimal(iterations as nat) + ", parallelism: "@ + decimal(parallelism as nat) + " }"@,
        KeyDerivation::Pbkdf2 { iterations } =>
            "Pbkdf2 { iterations: "@ + decimal(iterations as nat) + " }"@,
        KeyDerivation::Scrypt { n, r, p } =>
            "Scrypt { n: "@ + decimal(n as nat) + ", r: "@ + decimal(r as nat) + ", p: "@ + decimal(p as nat) + " }"@,
    }
}

impl KeyDerivation {
    /// The Debug rendering, field by field.
    pub fn debug_text(&self) -> (s: String)
        ensures
            s@ == kdf_debug(*self),
    {
        match *self {
            KeyDerivation::Argon2id { memory_kib, iterations, parallelism } => {
                let mut s = owned("Argon2id { memory_kib: ");
                s.append(u64_to_decimal(memory_kib as u64).as_str());
                s.append(", iterations: ");
                s.append(u64_to_decimal(iterations as u64).as_str());
                s.append(", parallelism: ");
                s.append(u64_to_decimal(parallelism as u64).as_str());
                s.append(" }");
                s
            }
            KeyDerivation::Pbkdf2 { iterations } => {
                let mut s = owned("Pbkdf2 { iterations: ");
                s.append(u64_to_decimal(iterations as u64).as_str());
                s.append(" }");
                s
            }
            KeyDerivation::Scrypt { n, r, p } => {
                let mut s = owned("Scrypt { n: ");
                s.append(u64_to_decimal(n as u64).as_str());
                s.append(", r: ");
                s.append(u64_to_decimal(r as u64).as_str());
                s.append(", p: ");
                s.append(u64_to_decimal(p as u64).as_str());
                s.append(" }");
                s
            }
        }
    }
}

proof fn lemma_byte_sum_prefix(b: Seq<u8>, i: int)
    requires
        0 <= i <= b.len(),
    ensures
        0 <= byte_sum(b.subrange(0, i)) <= byte_sum(b),
    decreases b.len() - i,
{
    if i < b.len() {
        lemma_byte_sum_prefix(b, i + 1);
        assert(b.subrange(0, i + 1).drop_last() =~= b.subrange(0, i));
    } else {
        assert(b.subrange(0, i) =~= b);
    }
    lemma_byte_sum_nonneg(b.subrange(0, i));
}

proof fn lemma_byte_sum_nonneg(b: Seq<u8>)
    ensures
        byte_sum(b) >= 0,
    decreases b.len(),
{
    if b.len() > 0 {
        lemma_byte_sum_nonneg(b.drop_last());
    }
}

fn sum_bytes(b: &[u8]) -> (s: u64)
    requires
        byte_sum(b@) <= u64::MAX,
    ensures
        s == byte_sum(b@),
{
    let n = b.len();
    let mut s: u64 = 0;
    let mut i: usize = 0;
    while i < n
        invariant
            n == b@.len(),
            i <= n,
            byte_sum(b@) <= u64::MAX,
            s == byte_sum(b@.subrange(0, i as int)),
        decreases n - i,
    {
        proof {
            lemma_byte_sum_prefix(b@, i + 1);
            assert(b@.subrange(0, i + 1).drop_last() =~= b@.subrange(0, i as int));
        }
        s = s + b[i] as u64;
        i = i + 1;
    }
    assert(b@.subrange(0, n as int) =~= b@);
    s
}

fn mix_seed_exec(pw: &[u8], i: usize) -> (s: u64)
    ensures
        s == mix_seed(pw@, i as int, pw@.len()),
{
    let n = pw.len();
    let mut acc: u64 = 0;
    let mut j: usize = 0;
    while j < n
        invariant
            n == pw@.len(),
            j <= n,
            acc == mix_seed(pw@, i as int, j as nat),
        decreases n - j,
    {
        acc = acc.wrapping_add((pw[j] as u64).wrapping_mul((i as u64).wrapping_add(j as u64)));
        j = j + 1;
    }
    acc
}

fn derive_bytes(pw: &[u8], kdf: KeyDerivation, len: usize) -> (key: Vec<u8>)
    requires
        can_derive(pw@, kdf, len as nat),
    ensures
        key@ == derived_bytes(pw@, kdf, len as nat),
{
    let mut key: Vec<u8> = Vec::new();
    match kdf {
        KeyDerivation::Argon2id { .. } => {
            let total = sum_bytes(pw);
            let plen = pw.len();
            let mut i: usize = 0;
            while i < len
                invariant
                    can_derive(pw@, kdf, len as nat),
                    kdf is Argon2id,
                    total == byte_sum(pw@),
                    plen == pw@.len(),
                    i <= len,
                    key@ =~= Seq::new(i as nat, |j: int| argon_byte(pw@, j as nat)),
                decreases len - i,
            {
                let idx = #[verifier::truncate] ((i as u64 * 31 + total) as usize);
                let pick = pw[idx % plen];
                assert(pick == argon_pick(pw@, i as int));
                let b = if i < 32 { pick } else { key[i - 32].wrapping_add(pick) };
                key.push(b);
                i = i + 1;
            }
        }
        KeyDerivation::Pbkdf2 { iterations } => {
            let mut i: usize = 0;
            while i < len
                invariant
                    kdf == (KeyDerivation::Pbkdf2 { iterations }),
                    i <= len,
                    key@ =~= Seq::new(i as nat, |j: int| pbkdf2_byte(pw@, j, iterations)),
                decreases len - i,
            {
                let mut acc = mix_seed_exec(pw, i);
                let ghost seed = acc;
                let mut t: u32 = 0;
                while t < iterations
                    invariant
                        t <= iterations,
                        acc == lcg(seed, t as nat),
                    decreases iterations - t,
                {
                    acc = acc.wrapping_mul(1103515245).wrapping_add(12345);
                    t = t + 1;
                }
                key.push(#[verifier::truncate] ((acc & 0xFF) as u8));
                i = i + 1;
            }
        }
        KeyDerivation::Scrypt { n, r, p } => {
            let mut i: usize = 0;
            while i < len
                invariant
                    kdf == (KeyDerivation::Scrypt { n, r, p }),
                    i <= len,
                    key@ =~= Seq::new(i as nat, |j: int| scrypt_byte(pw@, j, n, r, p)),
                decreases len - i,
            {
                let seed = mix_seed_exec(pw, i);
                let v = seed.wrapping_mul(n as u64).wrapping_mul(r as u64).wrapping_mul(p as u64);
                key.push(#[verifier::truncate] ((v & 0xFF) as u8));
                i = i + 1;
            }
        }
    }
    key
}

/// `x` rotated left by `n` bits (modulo 64), as `u64::rotate_left` computes it.
pub open spec fn rotl(x: u64, n: u32) -> u64 {
    let s = (n % 64) as u64;
    if s == 0 {
        x
    } else {
        (x << s) | (x >> (64 - s) as u64)
    }
}

fn rotate_left_u64(x: u64, n: u32) -> (r: u64)
    ensures
        r == rotl(x, n),
{
    let s = (n % 64) as u64;
    if s == 0 {
        x
    } else {
        (x << s) | (x >> (64 - s))
    }
}

/// One mixing step of the password hash.
pub open spec fn hash_step(v: u64, b: u8, i: int, j: int) -> u64 {
    rotl(
        u64_specs::wrapping_add(u64_specs::wrapping_mul(v, 31), b as u64),
        vstd::wrapping::u32_specs::wrapping_add(i as u32, j as u32),
    )
}

/// The state after mixing the first `n` password bytes into `start`.
pub open spec fn hash_fold(pw: Seq<u8>, start: u64, i: int, n: nat) -> u64
    decreases n,
{
    if n == 0 {
        start
    } else {
        hash_step(hash_fold(pw, start, i, (n - 1) as nat), pw[n - 1], i, n - 1)
    }
}

/// The 32-byte password hash: byte `i` starts from the salt byte at `i` (salt
/// repeated cyclically) and mixes in every password byte.
pub open spec fn password_hash_bytes(pw: Seq<u8>, salt: Seq<u8>) -> Seq<u8> {
    Seq::new(32, |i: int| hash_fold(pw, salt[i % salt.len() as int] as u64, i, pw.len()) as u8)
}

fn compute_password_hash(password: &[u8], salt: &[u8]) -> (h: Vec<u8>)
    requires
        salt@.len() > 0,
    ensures
        h@ == password_hash_bytes(password@, salt@),
{
    let slen = salt.len();
    let plen = password.len();
    let mut hash: Vec<u8> = Vec::new();
    let mut i: usize = 0;
    while i < 32
        invariant
            slen == salt@.len(),
            slen > 0,
            plen == password@.len(),
            i <= 32,
            hash@ =~= Seq::new(i as nat, |k: int| hash_fold(password@, salt@[k % slen as int] as u64, k, plen as nat) as u8),
        decreases 32 - i,
    {
        let mut v: u64 = salt[i % slen] as u64;
        let ghost start = v;
        let mut j: usize = 0;
        while j < plen
            invariant
                plen == password@.len(),
                j <= plen,
                v == hash_fold(password@, start, i as int, j as nat),
            decreases plen - j,
        {
            v = v.wrapping_mul(31).wrapping_add(password[j] as u64);
            v = rotate_left_u64(v, (i as u32).wrapping_add(j as u32));
            j = j + 1;
        }
        hash.push(#[verifier::truncate] (v as u8));
        i = i + 1;
    }
    hash
}


// ---------------------------------------------------------------------------
// Configuration and records
// ---------------------------------------------------------------------------

/// Authenticated ciphers the configuration can name.
#[derive(Clone, Copy, PartialEq, Eq, Debug)]
pub enum EncryptionAlgorithm {
    Aes128Gcm,
    Aes256Gcm,
    ChaCha20Poly1305,
}

/// Key length in bytes of each cipher.
pub open spec fn key_size_of(a: EncryptionAlgorithm) -> nat {
    match a {
        EncryptionAlgorithm::Aes128Gcm => 16,
        EncryptionAlgorithm::Aes256Gcm => 32,
        EncryptionAlgorithm::ChaCha20Poly1305 => 32,
    }
}

impl EncryptionAlgorithm {
    /// Key length in bytes.
    pub fn key_size(&self) -> (n: usize)
        ensures
            n == key_size_of(*self),
    {
        match self {
            EncryptionAlgorithm::Aes128Gcm => 16,
            EncryptionAlgorithm::Aes256Gcm => 32,
            EncryptionAlgorithm::ChaCha20Poly1305 => 32,
        }
    }

    /// Nonce length in bytes: 12 for every cipher.
    pub fn nonce_size(&self) -> (n: usize)
        ensures
            n == 12,
    {
        match self {
            EncryptionAlgorithm::Aes128Gcm | EncryptionAlgorithm::Aes256Gcm => 12,
            EncryptionAlgorithm::ChaCha20Poly1305 => 12,
        }
    }
}

/// Cipher, key derivation and optional pepper.
pub struct EncryptionConfig {
    pub algorithm: EncryptionAlgorithm,
    pub key_derivation: KeyDerivation,
    pub pepper: Option<String>,
}

impl EncryptionConfig {
    /// AES-256-GCM with Argon2id (64 MiB, 3 iterations, 4 lanes) and no pepper.
    pub fn default_config() -> (c: EncryptionConfig)
        ensures
            c.algorithm == EncryptionAlgorithm::Aes256Gcm,
            c.key_derivation == (KeyDerivation::Argon2id { memory_kib: 65536, iterations: 3, parallelism: 4 }),
            c.pepper is None,
    {
        EncryptionConfig {
            algorithm: EncryptionAlgorithm::Aes256Gcm,
            key_derivation: KeyDerivation::Argon2id { memory_kib: 65536, iterations: 3, parallelism: 4 },
            pepper: None,
        }
    }

    /// A field-by-field copy.
    pub fn duplicate(&self) -> (c: EncryptionConfig)
        ensures
            c == *self,
    {
        let pepper = match &self.pepper {
            Some(p) => Some(p.clone()),
            None => None,
        };
        EncryptionConfig { algorithm: self.algorithm, key_derivation: self.key_derivation, pepper }
    }
}

impl Default for EncryptionConfig {
    fn default() -> (c: EncryptionConfig)
        ensures
            c.algorithm == EncryptionAlgorithm::Aes256Gcm,
            c.key_derivation == (KeyDerivation::Argon2id { memory_kib: 65536, iterations: 3, parallelism: 4 }),
            c.pepper is None,
    {
        EncryptionConfig::default_config()
    }
}

/// A sealed message: base64 ciphertext (with tag) and base64 nonce.
pub struct EncryptedData {
    pub ciphertext: String,
    pub nonce: String,
    pub algorithm: EncryptionAlgorithm,
    pub version: u8,
}

/// A stored password hash: base64 hash and base64 salt.
pub struct HashResult {
    pub hash: String,
    pub salt: String,
    pub algorithm: String,
    pub version: u8,
}

/// Key material derived from a password.
pub struct DerivedKey {
    pub key: Vec<u8>,
    pub salt: Vec<u8>,
    pub algorithm: String,
}

/// Operation counters.
#[derive(Clone, Copy, Debug)]
pub struct EncryptionStats {
    pub encryption_operations: u64,
    pub decryption_operations: u64,
    pub hash_operations: u64,
    pub key_derivations: u64,
}

impl EncryptionStats {
    /// All counters at zero.
    pub fn zero() -> (r: EncryptionStats)
        ensures
            r.encryption_operations == 0 && r.decryption_operations == 0
                && r.hash_operations == 0 && r.key_derivations == 0,
    {
        EncryptionStats { encryption_operations: 0, decryption_operations: 0, hash_operations: 0, key_derivations: 0 }
    }

    /// Every counter increased by `count`, saturating at `u64::MAX`.
    pub open spec fn plus(self, count: u64) -> EncryptionStats {
        EncryptionStats {
            encryption_operations: self.encryption_operations.saturating_add(count),
            decryption_operations: self.decryption_operations.saturating_add(count),
            hash_operations: self.hash_operations.saturating_add(count),
            key_derivations: self.key_derivations.saturating_add(count),
        }
    }

    /// Every counter increased by `count`, saturating at `u64::MAX`.
    pub fn saturating_add(&self, count: u64) -> (r: EncryptionStats)
        ensures
            r == self.plus(count),
    {
        EncryptionStats {
            encryption_operations: self.encryption_operations.saturating_add(count),
            decryption_operations: self.decryption_operations.saturating_add(count),
            hash_operations: self.hash_operations.saturating_add(count),
            key_derivations: self.key_derivations.saturating_add(count),
        }
    }
}

impl Default for EncryptionStats {
    fn default() -> (r: EncryptionStats)
        ensures
            r.encryption_operations == 0 && r.decryption_operations == 0
                && r.hash_operations == 0 && r.key_derivations == 0,
    {
        EncryptionStats::zero()
    }
}

/// `e` is the error for an invalid character in the base64 text `text`.
pub open spec fn is_decoding_error(text: Seq<char>, e: EncryptionError) -> bool {
    &&& e is InvalidData
    &&& exists|k: nat| first_invalid_at(trim_padding(text), k as int) && e.message_view() == invalid_char_message(k)
}

/// The plaintext bytes recovered from base64 ciphertext and nonce under `key`.
pub open spec fn opened_bytes(ct_text: Seq<char>, nonce_text: Seq<char>, key: Seq<u8>) -> Option<Seq<u8>> {
    match (b64_decoded(ct_text), b64_decoded(nonce_text)) {
        (Some(c), Some(n)) => xor_open(c, key, n),
        _ => None,
    }
}

/// Decrypting with `key` does not divide by zero: the key and the decoded nonce
/// are non-empty whenever there are bytes to open.
pub open spec fn can_decrypt(ct_text: Seq<char>, nonce_text: Seq<char>, key: Seq<u8>) -> bool {
    match (b64_decoded(ct_text), b64_decoded(nonce_text)) {
        (Some(c), Some(n)) => can_open(c, key, n),
        _ => true,
    }
}

/// The outcome of opening base64 ciphertext and nonce under `key` and reading
/// the bytes as UTF-8, with the error checks in their order.
pub open spec fn open_text_outcome(ct_text: Seq<char>, nonce_text: Seq<char>, key: Seq<u8>, r: Result<String, EncryptionError>) -> bool {
    match b64_decoded(ct_text) {
        None => r matches Err(e) && is_decoding_error(ct_text, e),
        Some(c) => match b64_decoded(nonce_text) {
            None => r matches Err(e) && is_decoding_error(nonce_text, e),
            Some(n) => match xor_open(c, key, n) {
                None => r matches Err(e) && e is InvalidData && e.message_view() == "Ciphertext too short"@,
                Some(p) => if valid_utf8(p) {
                    r matches Ok(s) && s@ == decode_utf8(p)
                } else {
                    r matches Err(e) && e is InvalidData && e.message_view() == "Decrypted data is not valid UTF-8"@
                },
            },
        },
    }
}

/// Encryption service holding an optional master key, the configuration and
/// operation counters.
pub struct Encryption {
    master_key: Option<Vec<u8>>,
    config: EncryptionConfig,
    operation_count: EncryptionStats,
}

impl Encryption {
    /// The master key, if one is set.
    pub closed spec fn key_view(&self) -> Option<Seq<u8>> {
        match &self.master_key {
            Some(k) => Some(k@),
            None => None,
        }
    }

    /// The current configuration.
    pub closed spec fn config_view(&self) -> EncryptionConfig {
        self.config
    }

    /// The operation counters.
    pub closed spec fn stats_view(&self) -> EncryptionStats {
        self.operation_count
    }

    /// No master key, the default configuration, zero counters.
    pub fn new() -> (e: Encryption)
        ensures
            e.key_view() is None,
            e.config_view().algorithm == EncryptionAlgorithm::Aes256Gcm,
            e.config_view().key_derivation == (KeyDerivation::Argon2id { memory_kib: 65536, iterations: 3, parallelism: 4 }),
            e.config_view().pepper is None,
            e.stats_view() == EncryptionStats::zero_spec(),
    {
        Encryption { master_key: None, config: EncryptionConfig::default_config(), operation_count: EncryptionStats::zero() }
    }

    /// The same service with `key` as master key.
    pub fn with_master_key(self, key: Vec<u8>) -> (e: Encryption)
        ensures
            e.key_view() == Some(key@),
            e.config_view() == self.config_view(),
            e.stats_view() == self.stats_view(),
    {
        let mut e = self;
        e.master_key = Some(key);
        e
    }

    /// Replaces the configuration.
    pub fn set_config(&mut self, config: EncryptionConfig)
        ensures
            final(self).config_view() == config,
            final(self).key_view() == old(self).key_view(),
            final(self).stats_view() == old(self).stats_view(),
    {
        self.config = config;
    }

    /// A copy of the configuration.
    pub fn get_config(&self) -> (c: EncryptionConfig)
        ensures
            c == self.config_view(),
    {
        self.config.duplicate()
    }

    /// A random key of the configured cipher's key length.
    pub fn generate_key(&self) -> (k: Vec<u8>)
        ensures
            k@.len() == key_size_of(self.config_view().algorithm),
    {
        let n = self.config.algorithm.key_size();
        self.generate_random_bytes(n)
    }

    /// `size` random bytes.
    pub fn generate_salt(&self, size: usize) -> (s: Vec<u8>)
        ensures
            s@.len() == size,
    {
        self.generate_random_bytes(size)
    }

    /// `len` random bytes.
    pub fn generate_random_bytes(&self, len: usize) -> (b: Vec<u8>)
        ensures
            b@.len() == len,
    {
        random_bytes(len)
    }

    /// The operation counters.
    pub fn get_stats(&self) -> (s: EncryptionStats)
        ensures
            s == self.stats_view(),
    {
        self.operation_count
    }

    fn get_master_key(&self) -> (r: Result<Vec<u8>, EncryptionError>)
        ensures
            match self.key_view() {
                Some(k) => r matches Ok(v) && v@ == k,
                None => r matches Err(e) && e is NoKey && e.message_view() == "Master encryption key not set"@,
            },
    {
        match &self.master_key {
            Some(k) => Ok(copy_bytes(k.as_slice())),
            None => Err(EncryptionError::NoKey { message: owned("Master encryption key not set") }),
        }
    }

    /// Seals `plaintext` under the master key with a fresh random nonce.
    pub fn encrypt(&mut self, plaintext: &str) -> (r: Result<EncryptedData, EncryptionError>)
        requires
            old(self).key_view() matches Some(k) ==> k.len() > 0,
            plaintext.spec_bytes().len() + 16 <= usize::MAX,
        ensures
            final(self).key_view() == old(self).key_view(),
            final(self).config_view() == old(self).config_view(),
            match old(self).key_view() {
                None => {
                    &&& r matches Err(e) && e is NoKey && e.message_view() == "Master encryption key not set"@
                    &&& final(self).stats_view() == old(self).stats_view()
                },
                Some(k) => {
                    &&& r matches Ok(d) && exists|n: Seq<u8>| n.len() == 12
                        && d.ciphertext@ == b64_encode(xor_seal(plaintext.spec_bytes(), k, n))
                        && d.nonce@ == b64_encode(n)
                    &&& r matches Ok(d) && d.algorithm == old(self).config_view().algorithm && d.version == 1
                    &&& final(self).stats_view() == old(self).stats_view().plus(1)
                },
            },
    {
        let key = match self.get_master_key() {
            Ok(k) => k,
            Err(e) => return Err(e),
        };
        let nonce = self.generate_random_bytes(self.config.algorithm.nonce_size());
        let pt = plaintext.as_bytes();
        let sealed = seal_with_key(pt, key.as_slice(), nonce.as_slice());
        self.operation_count = self.operation_count.saturating_add(1);
        let d = EncryptedData {
            ciphertext: base64_encode(sealed.as_slice()),
            nonce: base64_encode(nonce.as_slice()),
            algorithm: self.config.algorithm,
            version: 1,
        };
        Ok(d)
    }

    fn open_text(&mut self, encrypted: &EncryptedData, key: &[u8]) -> (r: Result<String, EncryptionError>)
        requires
            can_decrypt(encrypted.ciphertext@, encrypted.nonce@, key@),
        ensures
            open_text_outcome(encrypted.ciphertext@, encrypted.nonce@, key@, r),
            final(self).key_view() == old(self).key_view(),
            final(self).config_view() == old(self).config_view(),
            final(self).stats_view() == if opened_bytes(encrypted.ciphertext@, encrypted.nonce@, key@) is Some {
                old(self).stats_view().plus(1)
            } else {
                old(self).stats_view()
            },
    {
        let ciphertext = match base64_decode(encrypted.ciphertext.as_str()) {
            Ok(c) => c,
            Err(e) => return Err(e),
        };
        let nonce = match base64_decode(encrypted.nonce.as_str()) {
            Ok(n) => n,
            Err(e) => return Err(e),
        };
        let plain = match open_with_key(ciphertext.as_slice(), key, nonce.as_slice()) {
            Ok(p) => p,
            Err(e) => return Err(e),
        };
        self.operation_count = self.operation_count.saturating_add(1);
        let ghost pb = plain@;
        match string_from_utf8(plain) {
            Some(s) => Ok(s),
            None => Err(EncryptionError::InvalidData { message: owned("Decrypted data is not valid UTF-8") }),
        }
    }

    /// Opens a sealed message with the master key and reads it as UTF-8.
    pub fn decrypt(&mut self, encrypted: &EncryptedData) -> (r: Result<String, EncryptionError>)
        requires
            old(self).key_view() matches Some(k) ==> can_decrypt(encrypted.ciphertext@, encrypted.nonce@, k),
        ensures
            final(self).key_view() == old(self).key_view(),
            final(self).config_view() == old(self).config_view(),
            match old(self).key_view() {
                None => {
                    &&& r matches Err(e) && e is NoKey && e.message_view() == "Master encryption key not set"@
                    &&& final(self).stats_view() == old(self).stats_view()
                },
                Some(k) => {
                    &&& open_text_outcome(encrypted.ciphertext@, encrypted.nonce@, k, r)
                    &&& final(self).stats_view() == if opened_bytes(encrypted.ciphertext@, encrypted.nonce@, k) is Some {
                        old(self).stats_view().plus(1)
                    } else {
                        old(self).stats_view()
                    }
                },
            },
    {
        let key = match self.get_master_key() {
            Ok(k) => k,
            Err(e) => return Err(e),
        };
        self.open_text(encrypted, key.as_slice())
    }

    /// Derives key material from a password. The salt is recorded but does not
    /// enter the derived bytes.
    pub fn derive_key(&self, password: &str, salt: &[u8], kdf: &KeyDerivation, key_length: usize) -> (r: Result<DerivedKey, EncryptionError>)
        requires
            can_derive(password.spec_bytes(), *kdf, key_length as nat),
        ensures
            r matches Ok(d) && d.key@ == derived_bytes(password.spec_bytes(), *kdf, key_length as nat)
                && d.salt@ == salt@ && d.algorithm@ == kdf_name(*kdf),
    {
        let key = derive_bytes(password.as_bytes(), *kdf, key_length);
        let algorithm = match kdf {
            KeyDerivation::Argon2id { .. } => owned("Argon2id"),
            KeyDerivation::Pbkdf2 { .. } => owned("Pbkdf2"),
            KeyDerivation::Scrypt { .. } => owned("Scrypt"),
        };
        Ok(DerivedKey { key, salt: copy_bytes(salt), algorithm })
    }

    /// Seals `plaintext` under a key derived from `password`, with a fresh
    /// 32-byte salt and a fresh nonce.
    pub fn encrypt_with_password(&mut self, plaintext: &str, password: &str) -> (r: Result<(EncryptedData, DerivedKey), EncryptionError>)
        requires
            can_derive(password.spec_bytes(), old(self).config_view().key_derivation, key_size_of(old(self).config_view().algorithm)),
            plaintext.spec_bytes().len() + 16 <= usize::MAX,
        ensures
            final(self).key_view() == old(self).key_view(),
            final(self).config_view() == old(self).config_view(),
            final(self).stats_view() == old(self).stats_view().plus(1),
            r matches Ok((d, k)) && {
                let cfg = old(self).config_view();
                let key = derived_bytes(password.spec_bytes(), cfg.key_derivation, key_size_of(cfg.algorithm));
                &&& k.key@ == key
                &&& k.salt@.len() == 32
                &&& k.algorithm@ == kdf_debug(cfg.key_derivation)
                &&& exists|n: Seq<u8>| n.len() == 12
                    && d.ciphertext@ == b64_encode(xor_seal(plaintext.spec_bytes(), key, n))
                    && d.nonce@ == b64_encode(n)
                &&& d.algorithm == cfg.algorithm
                &&& d.version == 1
            },
    {
        let salt = self.generate_salt(32);
        let kdf = self.config.key_derivation;
        let size = self.config.algorithm.key_size();
        let derived = match self.derive_key(password, salt.as_slice(), &kdf, size) {
            Ok(d) => d,
            Err(e) => return Err(e),
        };
        let nonce = self.generate_random_bytes(self.config.algorithm.nonce_size());
        let sealed = seal_with_key(plaintext.as_bytes(), derived.key.as_slice(), nonce.as_slice());
        let d = EncryptedData {
            ciphertext: base64_encode(sealed.as_slice()),
            nonce: base64_encode(nonce.as_slice()),
            algorithm: self.config.algorithm,
            version: 1,
        };
        self.operation_count = self.operation_count.saturating_add(1);
        Ok((d, DerivedKey { key: derived.key, salt, algorithm: kdf.debug_text() }))
    }

    /// Opens a message sealed under a key derived from `password`.
    pub fn decrypt_with_password(&mut self, encrypted: &EncryptedData, password: &str, salt: &[u8]) -> (r: Result<String, EncryptionError>)
        requires
            can_derive(password.spec_bytes(), old(self).config_view().key_derivation, key_size_of(old(self).config_view().algorithm)),
            can_decrypt(encrypted.ciphertext@, encrypted.nonce@,
                derived_bytes(password.spec_bytes(), old(self).config_view().key_derivation, key_size_of(old(self).config_view().algorithm))),
        ensures
            final(self).key_view() == old(self).key_view(),
            final(self).config_view() == old(self).config_view(),
            ({
                let cfg = old(self).config_view();
                let key = derived_bytes(password.spec_bytes(), cfg.key_derivation, key_size_of(cfg.algorithm));
                &&& open_text_outcome(encrypted.ciphertext@, encrypted.nonce@, key, r)
                &&& final(self).stats_view() == if opened_bytes(encrypted.ciphertext@, encrypted.nonce@, key) is Some {
                    old(self).stats_view().plus(1)
                } else {
                    old(self).stats_view()
                }
            }),
    {
        let kdf = self.config.key_derivation;
        let size = self.config.algorithm.key_size();
        let derived = match self.derive_key(password, salt, &kdf, size) {
            Ok(d) => d,
            Err(e) => return Err(e),
        };
        self.open_text(encrypted, derived.key.as_slice())
    }

    /// Hashes a password with a fresh 32-byte salt.
    pub fn hash_password(&self, password: &str) -> (r: Result<HashResult, EncryptionError>)
        ensures
            r matches Ok(h) && exists|salt: Seq<u8>| salt.len() == 32
                && h.hash@ == b64_encode(password_hash_bytes(password.spec_bytes(), salt))
                && h.salt@ == b64_encode(salt),
            r matches Ok(h) && h.algorithm@ == "Argon2id"@ && h.version == 1,
    {
        let salt = self.generate_salt(32);
        let hash = compute_password_hash(password.as_bytes(), salt.as_slice());
        Ok(HashResult {
            hash: base64_encode(hash.as_slice()),
            salt: base64_encode(salt.as_slice()),
            algorithm: owned("Argon2id"),
            version: 1,
        })
    }

    /// Recomputes the hash of `password` with the stored salt and compares it
    /// with the stored hash.
    pub fn verify_password(&self, password: &str, hash_result: &HashResult) -> (r: Result<bool, EncryptionError>)
        requires
            b64_decoded(hash_result.salt@) matches Some(s) ==> s.len() > 0,
        ensures
            match b64_decoded(hash_result.salt@) {
                None => r matches Err(e) && is_decoding_error(hash_result.salt@, e),
                Some(salt) => match b64_decoded(hash_result.hash@) {
                    None => r matches Err(e) && is_decoding_error(hash_result.hash@, e),
                    Some(expected) => r == Ok::<bool, EncryptionError>(
                        password_hash_bytes(password.spec_bytes(), salt) == expected),
                },
            },
    {
        let salt = match base64_decode(hash_result.salt.as_str()) {
            Ok(s) => s,
            Err(e) => return Err(e),
        };
        let expected = match base64_decode(hash_result.hash.as_str()) {
            Ok(h) => h,
            Err(e) => return Err(e),
        };
        let computed = compute_password_hash(password.as_bytes(), salt.as_slice());
        Ok(constant_time_compare(computed.as_slice(), expected.as_slice()))
    }
}

impl EncryptionStats {
    /// All counters at zero.
    pub open spec fn zero_spec() -> EncryptionStats {
        EncryptionStats { encryption_operations: 0, decryption_operations: 0, hash_operations: 0, key_derivations: 0 }
    }
}

/// A message sealed by `encrypt` under key `k` with nonce `n` opens again under
/// `k` to the original text, when the plaintext's UTF-8 length plus the 16-byte
/// tag is a multiple of three (otherwise base64 decoding loses the last bytes).
pub proof fn law_encrypt_decrypt_roundtrip(plain: Seq<char>, k: Seq<u8>, n: Seq<u8>)
    requires
        k.len() > 0,
        n.len() == 12,
        (encode_utf8(plain).len() + 16) % 3 == 0,
        encode_utf8(plain).len() + 16 <= usize::MAX,
    ensures
        ({
            let ct = b64_encode(xor_seal(encode_utf8(plain), k, n));
            let nt = b64_encode(n);
            &&& can_decrypt(ct, nt, k)
            &&& opened_bytes(ct, nt, k) == Some(encode_utf8(plain))
            &&& valid_utf8(encode_utf8(plain))
            &&& decode_utf8(encode_utf8(plain)) == plain
        }),
{
    let p = encode_utf8(plain);
    law_seal_open_roundtrip(p, k, n);
    law_base64_roundtrip_whole_groups(xor_seal(p, k, n));
    law_base64_roundtrip_whole_groups(n);
    vstd::utf8::encode_utf8_valid_utf8(plain);
    vstd::utf8::encode_utf8_decode_utf8(plain);
}

} // verus!
