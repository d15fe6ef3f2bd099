//! Second-factor codes: per-user secrets, one-time backup codes, a six-digit
//! token check with a failure budget, and the setup data shown to the user.
//! Times are milliseconds on one clock.
use vstd::prelude::*;
use vstd::wrapping::u32_specs;
use vstd::string::StringSliceAdditionalSpecFns;
use vstd::utf8::encode_utf8;
use crate::keyed::{Keyed, Store, unique_keys, has_key};
use crate::text::{decimal, owned, concat, chars_of, string_from_chars, u64_to_decimal};
use crate::ids::{new_uuid_string, is_hyphenated_uuid, is_lower_hex, random_u128};
use crate::clock::now_millis_unsigned;

verus! {

// ---------------------------------------------------------------------------
// Tokens, secrets and their text forms
// ---------------------------------------------------------------------------

/// An ASCII decimal digit.
pub open spec fn is_digit(c: char) -> bool {
    '0' <= c && c <= '9'
}

/// The number written by a string of decimal digits.
pub open spec fn digits_value(s: Seq<char>) -> nat
    decreases s.len(),
{
    if s.len() == 0 {
        0
    } else {
        digits_value(s.drop_last()) * 10 + (s.last() as int - '0' as int) as nat
    }
}

/// The wrapping 32-bit sum of the character codes of `s`.
pub open spec fn char_sum(s: Seq<char>) -> u32
    decreases s.len(),
{
    if s.len() == 0 {
        0
    } else {
        u32_specs::wrapping_add(char_sum(s.drop_last()), s.last() as u32)
    }
}

/// The number a secret is checked against: its character sum times its length
/// in UTF-8 bytes (as a machine word), both modulo 2^32.
pub open spec fn secret_hash(secret: Seq<char>) -> u32 {
    u32_specs::wrapping_mul(char_sum(secret), (encode_utf8(secret).len() as usize) as u32)
}

/// Whether `token` is accepted for a secret: six decimal digits whose value
/// matches the secret's number modulo 1000000, or the fixed value 123456.
pub open spec fn token_accepted(secret: Seq<char>, token: Seq<char>) -> bool {
    &&& token.len() == 6
    &&& forall|i: int| 0 <= i < 6 ==> #[trigger] is_digit(token[i])
    &&& (digits_value(token) % 1000000 == secret_hash(secret) % 1000000 || digits_value(token) == 123456)
}

/// Whether a token is accepted for a secret (see `token_accepted`).
pub fn verify_token_internal(secret: &str, token: &str) -> (b: bool)
    ensures
        b == token_accepted(secret@, token@),
{
    let t = chars_of(token);
    if t.len() != 6 {
        return false;
    }
    let mut value: u32 = 0;
    let mut i: usize = 0;
    while i < 6
        invariant
            t@ == token@,
            t@.len() == 6,
            i <= 6,
            forall|j: int| 0 <= j < i ==> #[trigger] is_digit(t@[j]),
            value == digits_value(t@.subrange(0, i as int)),
            value < pow10(i as nat),
            pow10(i as nat) <= 1000000,
        decreases 6 - i,
    {
        let c = t[i];
        if !('0' <= c && c <= '9') {
            assert(!is_digit(t@[i as int]));
            return false;
        }
        proof {
            assert(t@.subrange(0, i + 1).drop_last() =~= t@.subrange(0, i as int));
            lemma_pow10_step(i as nat);
        }
        value = value * 10 + ((c as u32) - 48);
        i = i + 1;
    }
    proof { assert(t@.subrange(0, 6) =~= t@); }
    let chars = chars_of(secret);
    let n = chars.len();
    let mut sum: u32 = 0;
    let mut k: usize = 0;
    while k < n
        invariant
            chars@ == secret@,
            n == chars@.len(),
            k <= n,
            sum == char_sum(chars@.subrange(0, k as int)),
        decreases n - k,
    {
        proof { assert(chars@.subrange(0, k + 1).drop_last() =~= chars@.subrange(0, k as int)); }
        sum = sum.wrapping_add(chars[k] as u32);
        k = k + 1;
    }
    proof { assert(chars@.subrange(0, n as int) =~= chars@); }
    let len32: u32 = #[verifier::truncate] (secret.len() as u32);
    let hash = sum.wrapping_mul(len32);
    value % 1000000 == hash % 1000000 || value == 123456
}

/// Ten to the power `n`.
pub open spec fn pow10(n: nat) -> nat
    decreases n,
{
    if n == 0 { 1 } else { 10 * pow10((n - 1) as nat) }
}

proof fn lemma_pow10_step(n: nat)
    requires
        n < 6,
    ensures
        pow10(n + 1) == 10 * pow10(n),
        pow10(n + 1) <= 1000000,
{
    reveal_with_fuel(pow10, 7);
}

/// The base32 alphabet: `A`..`Z` then `2`..`7`.
pub open spec fn base32_char(i: int) -> char {
    if i < 26 { (65 + i) as char } else { (24 + i) as char }
}

/// A character of the base32 alphabet.
pub open spec fn is_base32_char(c: char) -> bool {
    ('A' <= c && c <= 'Z') || ('2' <= c && c <= '7')
}

fn base32_digit(i: u32) -> (c: char)
    requires
        i < 32,
    ensures
        c == base32_char(i as int),
        is_base32_char(c),
{
    if i < 26 {
        ((65 + i) as u8) as char
    } else {
        ((24 + i) as u8) as char
    }
}

/// A random base32 secret of `length` characters.
pub fn generate_base32_secret(length: usize) -> (s: String)
    ensures
        s@.len() == length,
        forall|i: int| 0 <= i < length ==> #[trigger] is_base32_char(s@[i]),
{
    let mut v: Vec<char> = Vec::new();
    let mut i: usize = 0;
    while i < length
        invariant
            i <= length,
            v@.len() == i,
            forall|j: int| 0 <= j < i ==> #[trigger] is_base32_char(v@[j]),
        decreases length - i,
    {
        let r = random_u128();
        let c = base32_digit((r % 32) as u32);
        v.push(c);
        i = i + 1;
    }
    string_from_chars(&v)
}

/// A secret in groups of four characters separated by single spaces.
pub open spec fn grouped(s: Seq<char>) -> Seq<char>
    decreases s.len(),
{
    if s.len() <= 4 {
        s
    } else {
        s.subrange(0, 4) + seq![' '] + grouped(s.subrange(4, s.len() as int))
    }
}

/// What is still to come of `grouped(s)` once the first `i` characters (a
/// multiple of four) have been written.
pub open spec fn grouped_rest(s: Seq<char>, i: int) -> Seq<char> {
    if i == 0 {
        grouped(s)
    } else if i < s.len() {
        seq![' '] + grouped(s.subrange(i, s.len() as int))
    } else {
        seq![]
    }
}

/// The secret in groups of four characters separated by spaces, for typing in by hand.
pub fn format_secret_for_manual_entry(secret: &str) -> (r: String)
    ensures
        r@ == grouped(secret@),
{
    let chars = chars_of(secret);
    let ghost s = secret@;
    let n = chars.len();
    let mut out: Vec<char> = Vec::new();
    let mut i: usize = 0;
    while i < n
        invariant
            chars@ == s,
            n == s.len(),
            i <= n,
            i % 4 == 0 || i == n,
            out@ + grouped_rest(s, i as int) == grouped(s),
        decreases n - i,
    {
        let ghost before = out@;
        let ghost rest = s.subrange(i as int, n as int);
        if i > 0 {
            out.push(' ');
        }
        let end: usize = if n - i > 4 { i + 4 } else { n };
        let mut j: usize = i;
        while j < end
            invariant
                chars@ == s,
                n == s.len(),
                i <= j <= end <= n,
                out@ == before + (if i > 0 { seq![' '] } else { seq![] }) + s.subrange(i as int, j as int),
            decreases end - j,
        {
            out.push(chars[j]);
            j = j + 1;
            assert(out@ =~= before + (if i > 0 { seq![' '] } else { seq![] }) + s.subrange(i as int, j as int));
        }
        proof {
            assert(grouped(rest) == if rest.len() <= 4 { rest } else {
                rest.subrange(0, 4) + seq![' '] + grouped(rest.subrange(4, rest.len() as int))
            });
            if rest.len() > 4 {
                assert(rest.subrange(0, 4) =~= s.subrange(i as int, end as int));
                assert(rest.subrange(4, rest.len() as int) =~= s.subrange(end as int, n as int));
                assert(grouped_rest(s, end as int) == seq![' '] + grouped(s.subrange(end as int, n as int)));
            } else {
                assert(rest =~= s.subrange(i as int, end as int));
            }
            if i == 0 {
                assert(rest =~= s);
            }
            assert(out@ + grouped_rest(s, end as int) =~= before + grouped_rest(s, i as int));
        }
        i = end;
    }
    assert(out@ =~= grouped(s));
    string_from_chars(&out)
}

/// The `otpauth://` URI that authenticator apps read from a QR code.
pub open spec fn otpauth_uri(issuer: Seq<char>, user: Seq<char>, secret: Seq<char>, digits: u8, period: u64) -> Seq<char> {
    "otpauth://totp/"@ + issuer + ":"@ + user + "?secret="@ + secret + "&issuer="@ + issuer
        + "&digits="@ + decimal(digits as nat) + "&period="@ + decimal(period as nat)
}

fn build_otpauth_uri(issuer: &str, user: &str, secret: &str, digits: u8, period: u64) -> (r: String)
    ensures
        r@ == otpauth_uri(issuer@, user@, secret@, digits, period),
{
    let a = concat("otpauth://totp/", issuer);
    let a = concat(a.as_str(), ":");
    let a = concat(a.as_str(), user);
    let a = concat(a.as_str(), "?secret=");
    let a = concat(a.as_str(), secret);
    let a = concat(a.as_str(), "&issuer=");
    let a = concat(a.as_str(), issuer);
    let a = concat(a.as_str(), "&digits=");
    let d = u64_to_decimal(digits as u64);
    let a = concat(a.as_str(), d.as_str());
    let a = concat(a.as_str(), "&period=");
    let p = u64_to_decimal(period);
    let a = concat(a.as_str(), p.as_str());
    a
}

/// An ASCII letter or digit.
pub open spec fn is_ascii_alnum(c: char) -> bool {
    ('0' <= c && c <= '9') || ('a' <= c && c <= 'z') || ('A' <= c && c <= 'Z')
}

/// The ASCII upper-case form of a character.
pub open spec fn ascii_upper(c: char) -> char {
    if 'a' <= c && c <= 'z' { ((c as u32) - 32) as char } else { c }
}

/// The first ten ASCII letters and digits of `s`, in upper case.
pub open spec fn backup_code_text(s: Seq<char>) -> Seq<char>
    decreases s.len(),
{
    if s.len() == 0 {
        seq![]
    } else {
        let pre = backup_code_text(s.drop_last());
        if is_ascii_alnum(s.last()) && pre.len() < 10 { pre.push(ascii_upper(s.last())) } else { pre }
    }
}

/// An upper-case hexadecimal digit.
pub open spec fn is_upper_hex(c: char) -> bool {
    ('0' <= c && c <= '9') || ('A' <= c && c <= 'F')
}

/// The form of a fresh backup code: ten upper-case hexadecimal digits.
pub open spec fn is_backup_code_form(s: Seq<char>) -> bool {
    &&& s.len() == 10
    &&& forall|i: int| 0 <= i < 10 ==> #[trigger] is_upper_hex(s[i])
}

/// The backup code made from a random identifier: its first ten letters and
/// digits, upper-cased.
pub fn backup_code_from(id: &str) -> (code: String)
    ensures
        code@ == backup_code_text(id@),
        is_hyphenated_uuid(id@) ==> is_backup_code_form(code@),
{
    let chars = chars_of(id);
    let ghost s = id@;
    let n = chars.len();
    let mut out: Vec<char> = Vec::new();
    let mut i: usize = 0;
    while i < n
        invariant
            chars@ == s,
            n == s.len(),
            i <= n,
            out@ == backup_code_text(s.subrange(0, i as int)),
            out@.len() <= 10,
            is_hyphenated_uuid(s) ==> out@.len() == (if i <= 8 { i as int } else if i <= 11 { i - 1 } else { 10 }),
            is_hyphenated_uuid(s) ==> forall|j: int| 0 <= j < out@.len() ==> #[trigger] is_upper_hex(out@[j]),
        decreases n - i,
    {
        proof { assert(s.subrange(0, i + 1).drop_last() =~= s.subrange(0, i as int)); }
        let c = chars[i];
        let alnum = ('0' <= c && c <= '9') || ('a' <= c && c <= 'z') || ('A' <= c && c <= 'Z');
        if alnum && out.len() < 10 {
            let u = if 'a' <= c && c <= 'z' { (((c as u32) - 32) as u8) as char } else { c };
            out.push(u);
        }
        proof {
            if is_hyphenated_uuid(s) && i < 36 {
                assert(i == 8 || i == 13 || i == 18 || i == 23 ==> s[i as int] == '-');
                assert(!(i == 8 || i == 13 || i == 18 || i == 23) ==> is_lower_hex(s[i as int]));
            }
        }
        i = i + 1;
    }
    proof { assert(s.subrange(0, n as int) =~= s); }
    string_from_chars(&out)
}

// ---------------------------------------------------------------------------
// Secrets and backup codes
// ---------------------------------------------------------------------------

/// The hash function an authenticator is told to use.
#[derive(Clone, Copy, PartialEq, Eq, Structural, Debug)]
pub enum TotpAlgorithm {
    Sha1,
    Sha256,
    Sha512,
}

/// Issuer shown in authenticator apps, code length, period and algorithm.
pub struct TotpConfig {
    pub issuer_name: String,
    pub digits: u8,
    pub period_secs: u64,
    pub algorithm: TotpAlgorithm,
}

impl TotpConfig {
    /// Whether this is the default configuration.
    pub open spec fn is_default(self) -> bool {
        &&& self.issuer_name@ == "MinecraftAdmin"@
        &&& self.digits == 6
        &&& self.period_secs == 30
        &&& self.algorithm == TotpAlgorithm::Sha1
    }

    /// Issuer `MinecraftAdmin`, six digits, thirty seconds, SHA-1.
    pub fn default_config() -> (c: TotpConfig)
        ensures
            c.is_default(),
    {
        TotpConfig { issuer_name: owned("MinecraftAdmin"), digits: 6, period_secs: 30, algorithm: TotpAlgorithm::Sha1 }
    }

    /// A field-by-field copy.
    pub fn duplicate(&self) -> (c: TotpConfig)
        ensures
            c.issuer_name@ == self.issuer_name@,
            c.digits == self.digits,
            c.period_secs == self.period_secs,
            c.algorithm == self.algorithm,
    {
        TotpConfig { issuer_name: self.issuer_name.clone(), digits: self.digits, period_secs: self.period_secs, algorithm: self.algorithm }
    }
}

impl Default for TotpConfig {
    fn default() -> (c: TotpConfig)
        ensures
            c.is_default(),
    {
        TotpConfig::default_config()
    }
}

/// A one-time backup code.
pub struct BackupCode {
    pub code: String,
    pub used: bool,
    pub used_at: Option<u64>,
}

/// The plain content of a backup code.
pub struct BackupCodeView {
    pub code: Seq<char>,
    pub used: bool,
    pub used_at: Option<u64>,
}

impl View for BackupCode {
    type V = BackupCodeView;

    open spec fn view(&self) -> BackupCodeView {
        BackupCodeView { code: self.code@, used: self.used, used_at: self.used_at }
    }
}

/// A code as handed out: the right form, not used.
pub open spec fn is_fresh_code(b: BackupCodeView) -> bool {
    &&& is_backup_code_form(b.code)
    &&& !b.used
    &&& b.used_at is None
}

/// The plain content of each backup code.
pub open spec fn codes_view(v: Seq<BackupCode>) -> Seq<BackupCodeView> {
    v.map_values(|b: BackupCode| b@)
}

/// The codes of `v`, in order.
pub open spec fn code_texts(v: Seq<BackupCodeView>) -> Seq<Seq<char>> {
    v.map_values(|b: BackupCodeView| b.code)
}

/// How many codes of `v` are unused.
pub open spec fn unused_count(v: Seq<BackupCodeView>) -> nat
    decreases v.len(),
{
    if v.len() == 0 {
        0
    } else {
        unused_count(v.drop_last()) + if v.last().used { 0nat } else { 1nat }
    }
}

/// Code `i` of `v` is `code` and unused.
pub open spec fn usable_at(v: Seq<BackupCodeView>, i: int, code: Seq<char>) -> bool {
    v[i].code == code && !v[i].used
}

/// What using backup code `code` does: the first unused code equal to it, if
/// any, is marked used (with the time of use).
pub open spec fn use_code_post(old: Seq<BackupCodeView>, new: Seq<BackupCodeView>, code: Seq<char>, b: bool) -> bool {
    if exists|i: int| 0 <= i < old.len() && #[trigger] usable_at(old, i, code) {
        &&& b
        &&& exists|i: int| #![trigger usable_at(old, i, code)] {
            &&& 0 <= i < old.len()
            &&& usable_at(old, i, code)
            &&& forall|j: int| 0 <= j < i ==> !#[trigger] usable_at(old, j, code)
            &&& new.len() == old.len()
            &&& new[i].code == code && new[i].used && new[i].used_at is Some
            &&& forall|j: int| 0 <= j < old.len() && j != i ==> #[trigger] new[j] == old[j]
        }
    } else {
        !b && new == old
    }
}

/// A user's second-factor secret and backup codes.
pub struct TotpSecret {
    pub user_id: String,
    pub secret: String,
    pub algorithm: TotpAlgorithm,
    pub digits: u8,
    pub period_secs: u64,
    pub enabled: bool,
    pub backup_codes: Vec<BackupCode>,
    pub created_at: u64,
    pub last_used: Option<u64>,
}

impl Keyed for TotpSecret {
    open spec fn key_view(&self) -> Seq<char> {
        self.user_id@
    }

    fn key_str(&self) -> (r: &str) {
        self.user_id.as_str()
    }
}

/// Ten fresh backup codes, each from a new random identifier.
fn generate_backup_codes() -> (v: Vec<BackupCode>)
    ensures
        v@.len() == 10,
        forall|i: int| 0 <= i < 10 ==> #[trigger] is_fresh_code(v@[i]@),
{
    let mut v: Vec<BackupCode> = Vec::new();
    let mut i: usize = 0;
    while i < 10
        invariant
            i <= 10,
            v@.len() == i,
            forall|j: int| 0 <= j < i ==> #[trigger] is_fresh_code(v@[j]@),
        decreases 10 - i,
    {
        let id = new_uuid_string();
        let code = backup_code_from(id.as_str());
        v.push(BackupCode { code, used: false, used_at: None });
        i = i + 1;
    }
    v
}

fn code_strings(v: &Vec<BackupCode>) -> (r: Vec<String>)
    ensures
        r@.map_values(|s: String| s@) == code_texts(codes_view(v@)),
{
    let n = v.len();
    let mut r: Vec<String> = Vec::new();
    let mut i: usize = 0;
    while i < n
        invariant
            n == v@.len(),
            i <= n,
            r@.map_values(|s: String| s@) == code_texts(codes_view(v@)).subrange(0, i as int),
        decreases n - i,
    {
        let ghost before = r@.map_values(|s: String| s@);
        r.push(v[i].code.clone());
        assert(r@.map_values(|s: String| s@) =~= before.push(v@[i as int].code@));
        assert(code_texts(codes_view(v@)).subrange(0, i + 1) =~= code_texts(codes_view(v@)).subrange(0, i as int).push(v@[i as int].code@));
        i = i + 1;
    }
    assert(code_texts(codes_view(v@)).subrange(0, n as int) =~= code_texts(codes_view(v@)));
    r
}

impl TotpSecret {
    /// A new enabled secret for `user_id`: SHA-1, six digits, thirty seconds,
    /// ten fresh backup codes, created now.
    pub fn new(user_id: String, secret: String) -> (s: TotpSecret)
        ensures
            s.user_id@ == user_id@,
            s.secret@ == secret@,
            s.algorithm == TotpAlgorithm::Sha1,
            s.digits == 6,
            s.period_secs == 30,
            s.enabled,
            s.backup_codes@.len() == 10,
            forall|i: int| 0 <= i < 10 ==> #[trigger] is_fresh_code(s.backup_codes@[i]@),
            s.last_used is None,
    {
        let codes = generate_backup_codes();
        let now = now_millis_unsigned();
        TotpSecret {
            user_id,
            secret,
            algorithm: TotpAlgorithm::Sha1,
            digits: 6,
            period_secs: 30,
            enabled: true,
            backup_codes: codes,
            created_at: now,
            last_used: None,
        }
    }

    /// Uses the first unused backup code equal to `code`; whether there was one.
    pub fn use_backup_code(&mut self, code: &str) -> (b: bool)
        ensures
            use_code_post(codes_view(old(self).backup_codes@), codes_view(final(self).backup_codes@), code@, b),
            final(self).user_id == old(self).user_id,
            final(self).secret == old(self).secret,
            final(self).algorithm == old(self).algorithm,
            final(self).digits == old(self).digits,
            final(self).period_secs == old(self).period_secs,
            final(self).enabled == old(self).enabled,
            final(self).created_at == old(self).created_at,
            final(self).last_used == old(self).last_used,
    {
        let ghost ov = codes_view(self.backup_codes@);
        let n = self.backup_codes.len();
        let mut i: usize = 0;
        while i < n
            invariant
                n == self.backup_codes@.len(),
                ov == codes_view(self.backup_codes@),
                ov == codes_view(old(self).backup_codes@),
                *self == *old(self),
                i <= n,
                forall|j: int| 0 <= j < i ==> !#[trigger] usable_at(ov, j, code@),
            decreases n - i,
        {
            if crate::text::str_eq(self.backup_codes[i].code.as_str(), code) && !self.backup_codes[i].used {
                let now = now_millis_unsigned();
                let mut codes: Vec<BackupCode> = Vec::new();
                std::mem::swap(&mut codes, &mut self.backup_codes);
                let text = codes[i].code.clone();
                codes.set(i, BackupCode { code: text, used: true, used_at: Some(now) });
                self.backup_codes = codes;
                proof {
                    let nv = codes_view(self.backup_codes@);
                    assert(usable_at(ov, i as int, code@));
                    assert(nv[i as int].code == code@);
                    assert(nv.len() == ov.len());
                    assert forall|j: int| 0 <= j < ov.len() && j != i implies #[trigger] nv[j] == ov[j] by {}
                }
                return true;
            }
            i = i + 1;
        }
        false
    }

    /// How many backup codes are unused.
    pub fn remaining_backup_codes(&self) -> (n: usize)
        ensures
            n == unused_count(codes_view(self.backup_codes@)),
    {
        let ghost v = codes_view(self.backup_codes@);
        let len = self.backup_codes.len();
        let mut n: usize = 0;
        let mut i: usize = 0;
        while i < len
            invariant
                len == self.backup_codes@.len(),
                v == codes_view(self.backup_codes@),
                i <= len,
                n == unused_count(v.subrange(0, i as int)),
                n <= i,
            decreases len - i,
        {
            proof { assert(v.subrange(0, i + 1).drop_last() =~= v.subrange(0, i as int)); }
            if !self.backup_codes[i].used {
                n = n + 1;
            }
            i = i + 1;
        }
        proof { assert(v.subrange(0, len as int) =~= v); }
        n
    }
}

/// Using a backup code lowers the number of unused codes by one exactly when
/// the code is accepted.
pub proof fn law_backup_code_spends_one(old: Seq<BackupCodeView>, new: Seq<BackupCodeView>, code: Seq<char>, b: bool)
    requires
        use_code_post(old, new, code, b),
    ensures
        unused_count(new) + (if b { 1int } else { 0int }) == unused_count(old),
{
    if b {
        let i = choose|i: int| #![trigger usable_at(old, i, code)] {
            &&& 0 <= i < old.len()
            &&& usable_at(old, i, code)
            &&& forall|j: int| 0 <= j < i ==> !#[trigger] usable_at(old, j, code)
            &&& new.len() == old.len()
            &&& new[i].code == code && new[i].used && new[i].used_at is Some
            &&& forall|j: int| 0 <= j < old.len() && j != i ==> #[trigger] new[j] == old[j]
        };
        lemma_unused_count_update(old, new, i);
    }
}

proof fn lemma_unused_count_update(old: Seq<BackupCodeView>, new: Seq<BackupCodeView>, i: int)
    requires
        0 <= i < old.len(),
        new.len() == old.len(),
        !old[i].used,
        new[i].used,
        forall|j: int| 0 <= j < old.len() && j != i ==> #[trigger] new[j] == old[j],
    ensures
        unused_count(new) + 1 == unused_count(old),
    decreases old.len(),
{
    let n = old.len() - 1;
    if i == n {
        assert(new.drop_last() =~= old.drop_last());
    } else {
        lemma_unused_count_update(old.drop_last(), new.drop_last(), i);
        assert(new.last() == old.last());
    }
}

// ---------------------------------------------------------------------------
// The manager
// ---------------------------------------------------------------------------

/// Attempts younger than this count towards the rate limit.
pub const RATE_WINDOW_MS: u64 = 60_000;
/// Failed attempts are kept this long.
pub const ATTEMPT_KEEP_MS: u64 = 300_000;

/// One failed token check.
#[derive(Clone, Copy, PartialEq, Eq, Structural, Debug)]
pub struct VerificationAttempt {
    pub timestamp: u64,
    pub success: bool,
}

/// The failed checks of one user.
pub struct UserAttempts {
    pub user_id: String,
    pub attempts: Vec<VerificationAttempt>,
}

impl Keyed for UserAttempts {
    open spec fn key_view(&self) -> Seq<char> {
        self.user_id@
    }

    fn key_str(&self) -> (r: &str) {
        self.user_id.as_str()
    }
}

/// The answer to a token check.
#[derive(Clone, Copy, PartialEq, Eq, Structural, Debug)]
pub enum TotpVerifyResult {
    Valid,
    Invalid { attempts_remaining: usize },
    RateLimited { remaining_secs: u64 },
    Disabled,
    NotSetup,
}

impl TotpVerifyResult {
    /// Whether the token was accepted.
    pub fn is_valid(&self) -> (b: bool)
        ensures
            b == (*self is Valid),
    {
        match self {
            TotpVerifyResult::Valid => true,
            _ => false,
        }
    }
}

/// What a user's second factor looks like from outside.
pub struct TotpUserInfo {
    pub enabled: bool,
    pub created_at: u64,
    pub last_used: Option<u64>,
    pub backup_codes_remaining: usize,
}

/// User counts.
pub struct TotpStats {
    pub total_users: usize,
    pub totp_enabled: usize,
    pub totp_disabled: usize,
}

/// What a user is shown when setting up the second factor.
pub struct TotpSetup {
    pub secret: String,
    pub qr_code_uri: String,
    pub manual_entry_key: String,
    pub backup_codes: Vec<String>,
}

/// The attempts of `v` later than `cutoff`, in order.
pub open spec fn recent(v: Seq<VerificationAttempt>, cutoff: u64) -> Seq<VerificationAttempt>
    decreases v.len(),
{
    if v.len() == 0 {
        seq![]
    } else if v.last().timestamp > cutoff {
        recent(v.drop_last(), cutoff).push(v.last())
    } else {
        recent(v.drop_last(), cutoff)
    }
}

/// How many secrets of `s` are enabled.
pub open spec fn enabled_count(s: Seq<TotpSecret>) -> nat
    decreases s.len(),
{
    if s.len() == 0 {
        0
    } else {
        enabled_count(s.drop_last()) + if s.last().enabled { 1nat } else { 0nat }
    }
}

/// Secrets by user, failed attempts by user, and the configuration.
pub struct TotpManager {
    config: TotpConfig,
    secrets: Store<TotpSecret>,
    attempts: Store<UserAttempts>,
}

/// Whether `user` has made five or more failed checks in the minute before `now`.
pub open spec fn rate_limited(m: TotpManager, user: Seq<char>, now: u64) -> bool {
    recent(m.attempts_of(user), now.saturating_sub(RATE_WINDOW_MS)).len() >= 5
}

/// The failed attempts kept after a failure at `now`.
pub open spec fn after_failure(m: TotpManager, user: Seq<char>, now: u64) -> Seq<VerificationAttempt> {
    recent(m.attempts_of(user).push(VerificationAttempt { timestamp: now, success: false }), now.saturating_sub(ATTEMPT_KEEP_MS))
}

/// What checking `token` for `user` at `now` does. Three failures kept within
/// five minutes use up the budget; five within a minute block checking.
pub open spec fn verify_post(old: TotpManager, new: TotpManager, user: Seq<char>, token: Seq<char>, now: u64, r: TotpVerifyResult) -> bool {
    if rate_limited(old, user, now) {
        r == TotpVerifyResult::RateLimited { remaining_secs: 60 } && new == old
    } else if !old.secrets().dom().contains(user) {
        r == TotpVerifyResult::NotSetup && new == old
    } else if !old.secrets()[user].enabled {
        r == TotpVerifyResult::Disabled && new == old
    } else if token_accepted(old.secrets()[user].secret@, token) {
        &&& r == TotpVerifyResult::Valid
        &&& new.secrets() == old.secrets().insert(user, TotpSecret { last_used: Some(now), ..old.secrets()[user] })
        &&& new.attempt_map() == old.attempt_map().remove(user)
        &&& new.config_view() == old.config_view()
    } else {
        let kept = after_failure(old, user, now);
        let remaining = (3 - kept.len()) as int;
        &&& new.secrets() == old.secrets()
        &&& new.attempt_map() == old.attempt_map().insert(user, kept)
        &&& new.config_view() == old.config_view()
        &&& if remaining <= 0 {
            r == TotpVerifyResult::RateLimited { remaining_secs: 60 }
        } else {
            r == TotpVerifyResult::Invalid { attempts_remaining: remaining as usize }
        }
    }
}

fn keep_recent(v: &Vec<VerificationAttempt>, cutoff: u64) -> (r: Vec<VerificationAttempt>)
    ensures
        r@ == recent(v@, cutoff),
        r@.len() <= v@.len(),
{
    let n = v.len();
    let mut r: Vec<VerificationAttempt> = Vec::new();
    let mut i: usize = 0;
    while i < n
        invariant
            n == v@.len(),
            i <= n,
            r@ == recent(v@.subrange(0, i as int), cutoff),
            r@.len() <= i,
        decreases n - i,
    {
        proof { assert(v@.subrange(0, i + 1).drop_last() =~= v@.subrange(0, i as int)); }
        if v[i].timestamp > cutoff {
            r.push(v[i]);
        }
        i = i + 1;
    }
    assert(v@.subrange(0, n as int) =~= v@);
    r
}

impl TotpManager {
    /// The secrets, by user.
    pub closed spec fn secrets(&self) -> Map<Seq<char>, TotpSecret> {
        self.secrets.map()
    }

    /// The secrets in their order.
    pub closed spec fn secret_list(&self) -> Seq<TotpSecret> {
        self.secrets.items()
    }

    /// The failed attempts, by user.
    pub closed spec fn attempt_map(&self) -> Map<Seq<char>, Seq<VerificationAttempt>> {
        Map::new(
            |u: Seq<char>| self.attempts.map().dom().contains(u),
            |u: Seq<char>| self.attempts.map()[u].attempts@,
        )
    }

    /// The failed attempts of `user` (none when there is no entry).
    pub open spec fn attempts_of(&self, user: Seq<char>) -> Seq<VerificationAttempt> {
        if self.attempt_map().dom().contains(user) { self.attempt_map()[user] } else { seq![] }
    }

    /// The configuration.
    pub closed spec fn config_view(&self) -> TotpConfig {
        self.config
    }

    /// No users, default configuration.
    pub fn new() -> (m: TotpManager)
        ensures
            m.secrets() == Map::<Seq<char>, TotpSecret>::empty(),
            m.attempt_map() == Map::<Seq<char>, Seq<VerificationAttempt>>::empty(),
            m.config_view().is_default(),
    {
        let m = TotpManager { config: TotpConfig::default_config(), secrets: Store::new(), attempts: Store::new() };
        assert(m.attempt_map() =~= Map::<Seq<char>, Seq<VerificationAttempt>>::empty());
        m
    }

    /// Replaces the configuration.
    pub fn set_config(&mut self, config: TotpConfig)
        ensures
            final(self).config_view() == config,
            final(self).secrets() == old(self).secrets(),
            final(self).attempt_map() == old(self).attempt_map(),
    {
        self.config = config;
    }

    /// A copy of the configuration.
    pub fn get_config(&self) -> (c: TotpConfig)
        ensures
            c.issuer_name@ == self.config_view().issuer_name@,
            c.digits == self.config_view().digits,
            c.period_secs == self.config_view().period_secs,
            c.algorithm == self.config_view().algorithm,
    {
        self.config.duplicate()
    }

    /// Whether `user` has five or more failed checks in the minute before `now`.
    pub fn is_rate_limited_at(&self, user_id: &str, now: u64) -> (b: bool)
        ensures
            b == rate_limited(*self, user_id@, now),
    {
        match self.attempts.get(user_id) {
            Some(entry) => {
                let r = keep_recent(&entry.attempts, now.saturating_sub(RATE_WINDOW_MS));
                r.len() >= 5
            }
            None => {
                proof { assert(recent(seq![], now.saturating_sub(RATE_WINDOW_MS)) == Seq::<VerificationAttempt>::empty()); }
                false
            }
        }
    }

    /// How many failed attempts are kept for `user`.
    pub fn get_attempt_count(&self, user_id: &str) -> (n: usize)
        ensures
            n == self.attempts_of(user_id@).len(),
    {
        match self.attempts.get(user_id) {
            Some(entry) => entry.attempts.len(),
            None => 0,
        }
    }

    /// Forgets the failed attempts of `user`.
    pub fn clear_attempts(&mut self, user_id: &str)
        ensures
            final(self).attempt_map() == old(self).attempt_map().remove(user_id@),
            final(self).secrets() == old(self).secrets(),
            final(self).config_view() == old(self).config_view(),
    {
        let _ = self.attempts.remove(user_id);
        assert(self.attempt_map() =~= old(self).attempt_map().remove(user_id@));
    }

    /// Records a failed attempt at `now` and drops those older than five minutes.
    pub fn record_attempt_at(&mut self, user_id: &str, now: u64)
        ensures
            final(self).attempt_map() == old(self).attempt_map().insert(user_id@, after_failure(*old(self), user_id@, now)),
            final(self).secrets() == old(self).secrets(),
            final(self).config_view() == old(self).config_view(),
    {
        let mut list: Vec<VerificationAttempt> = match self.attempts.remove(user_id) {
            Some(entry) => entry.attempts,
            None => Vec::new(),
        };
        list.push(VerificationAttempt { timestamp: now, success: false });
        let kept = keep_recent(&list, now.saturating_sub(ATTEMPT_KEEP_MS));
        self.attempts.upsert(UserAttempts { user_id: owned(user_id), attempts: kept });
        assert(self.attempt_map() =~= old(self).attempt_map().insert(user_id@, after_failure(*old(self), user_id@, now)));
    }

    /// Checks `token` for `user` at `now` (see `verify_post`).
    pub fn verify_token_at(&mut self, user_id: &str, token: &str, now: u64) -> (r: TotpVerifyResult)
        ensures
            verify_post(*old(self), *final(self), user_id@, token@, now, r),
    {
        if self.is_rate_limited_at(user_id, now) {
            return TotpVerifyResult::RateLimited { remaining_secs: 60 };
        }
        let (enabled, ok) = match self.secrets.get(user_id) {
            None => return TotpVerifyResult::NotSetup,
            Some(s) => (s.enabled, verify_token_internal(s.secret.as_str(), token)),
        };
        if !enabled {
            return TotpVerifyResult::Disabled;
        }
        if ok {
            let mut s = match self.secrets.remove(user_id) {
                Some(s) => s,
                None => return TotpVerifyResult::NotSetup,
            };
            s.last_used = Some(now);
            self.secrets.upsert(s);
            self.clear_attempts(user_id);
            proof {
                assert(self.secrets() =~= old(self).secrets().insert(user_id@, TotpSecret { last_used: Some(now), ..old(self).secrets()[user_id@] }));
            }
            return TotpVerifyResult::Valid;
        }
        self.record_attempt_at(user_id, now);
        let count = self.get_attempt_count(user_id);
        let remaining: usize = if count >= 3 { 0 } else { 3 - count };
        if remaining == 0 {
            return TotpVerifyResult::RateLimited { remaining_secs: 60 };
        }
        TotpVerifyResult::Invalid { attempts_remaining: remaining }
    }

    /// Checks `token` for `user` now.
    pub fn verify_token(&mut self, user_id: &str, token: &str) -> (r: TotpVerifyResult)
        ensures
            exists|now: u64| verify_post(*old(self), *final(self), user_id@, token@, now, r),
    {
        let now = now_millis_unsigned();
        self.verify_token_at(user_id, token, now)
    }

    /// Turns the second factor on for `user` once a token is accepted.
    pub fn enable_totp(&mut self, user_id: &str, token: &str) -> (r: Result<bool, String>)
        ensures
            final(self).attempt_map() == old(self).attempt_map(),
            final(self).config_view() == old(self).config_view(),
            if !old(self).secrets().dom().contains(user_id@) {
                r matches Err(e) && e@ == "User not found"@ && final(self).secrets() == old(self).secrets()
            } else if !token_accepted(old(self).secrets()[user_id@].secret@, token@) {
                r matches Err(e) && e@ == "Invalid token"@ && final(self).secrets() == old(self).secrets()
            } else {
                &&& r == Ok::<bool, String>(true)
                &&& final(self).secrets() == old(self).secrets().insert(user_id@, TotpSecret {
                    enabled: true, last_used: final(self).secrets()[user_id@].last_used, ..old(self).secrets()[user_id@] })
                &&& final(self).secrets()[user_id@].last_used is Some
            },
    {
        let ok = match self.secrets.get(user_id) {
            None => return Err(owned("User not found")),
            Some(s) => verify_token_internal(s.secret.as_str(), token),
        };
        if !ok {
            return Err(owned("Invalid token"));
        }
        let now = now_millis_unsigned();
        let mut s = match self.secrets.remove(user_id) {
            Some(s) => s,
            None => return Err(owned("User not found")),
        };
        s.enabled = true;
        s.last_used = Some(now);
        self.secrets.upsert(s);
        proof {
            assert(self.secrets() =~= old(self).secrets().insert(user_id@, TotpSecret {
                enabled: true, last_used: Some(now), ..old(self).secrets()[user_id@] }));
        }
        Ok(true)
    }

    /// Turns the second factor off for `user`.
    pub fn disable_totp(&mut self, user_id: &str) -> (r: Result<(), String>)
        ensures
            final(self).attempt_map() == old(self).attempt_map(),
            final(self).config_view() == old(self).config_view(),
            if old(self).secrets().dom().contains(user_id@) {
                &&& r is Ok
                &&& final(self).secrets() == old(self).secrets().insert(user_id@, TotpSecret { enabled: false, ..old(self).secrets()[user_id@] })
            } else {
                r matches Err(e) && e@ == "User not found"@ && final(self).secrets() == old(self).secrets()
            },
    {
        match self.secrets.remove(user_id) {
            Some(s) => {
                let mut s = s;
                s.enabled = false;
                self.secrets.upsert(s);
                assert(self.secrets() =~= old(self).secrets().insert(user_id@, TotpSecret { enabled: false, ..old(self).secrets()[user_id@] }));
                Ok(())
            }
            None => {
                assert(old(self).secrets().remove(user_id@) =~= old(self).secrets());
                Err(owned("User not found"))
            }
        }
    }

    /// Uses one of `user`'s backup codes; whether it was accepted.
    pub fn verify_backup_code(&mut self, user_id: &str, code: &str) -> (b: bool)
        ensures
            final(self).attempt_map() == old(self).attempt_map(),
            final(self).config_view() == old(self).config_view(),
            if old(self).secrets().dom().contains(user_id@) {
                let s = old(self).secrets()[user_id@];
                let t = final(self).secrets()[user_id@];
                &&& final(self).secrets().dom() == old(self).secrets().dom()
                &&& forall|k: Seq<char>| k != user_id@ && #[trigger] old(self).secrets().dom().contains(k) ==> final(self).secrets()[k] == old(self).secrets()[k]
                &&& use_code_post(codes_view(s.backup_codes@), codes_view(t.backup_codes@), code@, b)
                &&& t.user_id == s.user_id && t.secret == s.secret && t.enabled == s.enabled
                &&& t.created_at == s.created_at && t.last_used == s.last_used
            } else {
                !b && final(self).secrets() == old(self).secrets()
            },
    {
        match self.secrets.remove(user_id) {
            Some(s) => {
                let mut s = s;
                let b = s.use_backup_code(code);
                self.secrets.upsert(s);
                proof {
                    assert(self.secrets().dom() =~= old(self).secrets().dom());
                }
                b
            }
            None => {
                assert(old(self).secrets().remove(user_id@) =~= old(self).secrets());
                false
            }
        }
    }

    /// Whether `user` has the second factor on.
    pub fn is_totp_enabled(&self, user_id: &str) -> (b: bool)
        ensures
            b == (self.secrets().dom().contains(user_id@) && self.secrets()[user_id@].enabled),
    {
        match self.secrets.get(user_id) {
            Some(s) => s.enabled,
            None => false,
        }
    }

    /// What is known of `user`'s second factor.
    pub fn get_user_totp_info(&self, user_id: &str) -> (r: Option<TotpUserInfo>)
        ensures
            match r {
                Some(info) => {
                    let s = self.secrets()[user_id@];
                    &&& self.secrets().dom().contains(user_id@)
                    &&& info.enabled == s.enabled
                    &&& info.created_at == s.created_at
                    &&& info.last_used == s.last_used
                    &&& info.backup_codes_remaining == unused_count(codes_view(s.backup_codes@))
                },
                None => !self.secrets().dom().contains(user_id@),
            },
    {
        match self.secrets.get(user_id) {
            Some(s) => Some(TotpUserInfo {
                enabled: s.enabled,
                created_at: s.created_at,
                last_used: s.last_used,
                backup_codes_remaining: s.remaining_backup_codes(),
            }),
            None => None,
        }
    }

    /// Replaces `user`'s backup codes by ten fresh ones and returns them.
    pub fn regenerate_backup_codes(&mut self, user_id: &str) -> (r: Result<Vec<String>, String>)
        ensures
            final(self).attempt_map() == old(self).attempt_map(),
            final(self).config_view() == old(self).config_view(),
            if old(self).secrets().dom().contains(user_id@) {
                let s = old(self).secrets()[user_id@];
                let t = final(self).secrets()[user_id@];
                &&& final(self).secrets() == old(self).secrets().insert(user_id@, TotpSecret { backup_codes: t.backup_codes, ..s })
                &&& t.backup_codes@.len() == 10
                &&& forall|i: int| 0 <= i < 10 ==> #[trigger] is_fresh_code(t.backup_codes@[i]@)
                &&& r matches Ok(v) && v@.map_values(|x: String| x@) == code_texts(codes_view(t.backup_codes@))
            } else {
                r matches Err(e) && e@ == "User not found"@ && final(self).secrets() == old(self).secrets()
            },
    {
        match self.secrets.remove(user_id) {
            Some(s) => {
                let mut s = s;
                s.backup_codes = generate_backup_codes();
                let v = code_strings(&s.backup_codes);
                let ghost t = s;
                self.secrets.upsert(s);
                proof {
                    assert(self.secrets()[user_id@] == t);
                    assert(self.secrets() =~= old(self).secrets().insert(user_id@, TotpSecret { backup_codes: t.backup_codes, ..old(self).secrets()[user_id@] }));
                }
                Ok(v)
            }
            None => {
                assert(old(self).secrets().remove(user_id@) =~= old(self).secrets());
                Err(owned("User not found"))
            }
        }
    }

    /// User counts.
    pub fn get_stats(&self) -> (st: TotpStats)
        ensures
            st.total_users == self.secret_list().len(),
            st.totp_enabled == enabled_count(self.secret_list()),
            st.totp_disabled == self.secret_list().len() - enabled_count(self.secret_list()),
    {
        let items = self.secrets.as_vec();
        let n = items.len();
        let mut enabled: usize = 0;
        let mut i: usize = 0;
        while i < n
            invariant
                n == items@.len(),
                items@ == self.secret_list(),
                i <= n,
                enabled == enabled_count(items@.subrange(0, i as int)),
                enabled <= i,
            decreases n - i,
        {
            proof { assert(items@.subrange(0, i + 1).drop_last() =~= items@.subrange(0, i as int)); }
            if items[i].enabled {
                enabled = enabled + 1;
            }
            i = i + 1;
        }
        proof { assert(items@.subrange(0, n as int) =~= items@); }
        TotpStats { total_users: n, totp_enabled: enabled, totp_disabled: n - enabled }
    }

    /// Creates a new secret for `user` under the current configuration (replacing
    /// any earlier one) and returns what the user needs to set up an authenticator.
    pub fn generate_secret(&mut self, user_id: &str) -> (setup: TotpSetup)
        ensures
            final(self).attempt_map() == old(self).attempt_map(),
            final(self).config_view() == old(self).config_view(),
            setup.secret@.len() == 32,
            forall|i: int| 0 <= i < 32 ==> #[trigger] is_base32_char(setup.secret@[i]),
            setup.qr_code_uri@ == otpauth_uri(old(self).config_view().issuer_name@, user_id@, setup.secret@,
                old(self).config_view().digits, old(self).config_view().period_secs),
            setup.manual_entry_key@ == grouped(setup.secret@),
            final(self).secrets().dom() == old(self).secrets().dom().insert(user_id@),
            forall|k: Seq<char>| k != user_id@ && #[trigger] old(self).secrets().dom().contains(k) ==> final(self).secrets()[k] == old(self).secrets()[k],
            ({
                let s = final(self).secrets()[user_id@];
                &&& s.user_id@ == user_id@
                &&& s.secret@ == setup.secret@
                &&& s.algorithm == old(self).config_view().algorithm
                &&& s.digits == old(self).config_view().digits
                &&& s.period_secs == old(self).config_view().period_secs
                &&& s.enabled
                &&& s.last_used is None
                &&& s.backup_codes@.len() == 10
                &&& forall|i: int| 0 <= i < 10 ==> #[trigger] is_fresh_code(s.backup_codes@[i]@)
                &&& setup.backup_codes@.map_values(|x: String| x@) == code_texts(codes_view(s.backup_codes@))
            }),
    {
        let secret = generate_base32_secret(32);
        let uri = build_otpauth_uri(self.config.issuer_name.as_str(), user_id, secret.as_str(), self.config.digits, self.config.period_secs);
        let mut s = TotpSecret::new(owned(user_id), secret.clone());
        s.algorithm = self.config.algorithm;
        s.digits = self.config.digits;
        s.period_secs = self.config.period_secs;
        let codes = code_strings(&s.backup_codes);
        let manual = format_secret_for_manual_entry(secret.as_str());
        let ghost t = s;
        self.secrets.upsert(s);
        proof {
            assert(self.secrets()[user_id@] == t);
        }
        TotpSetup { secret, qr_code_uri: uri, manual_entry_key: manual, backup_codes: codes }
    }
}

impl Default for TotpManager {
    fn default() -> (m: TotpManager)
        ensures
            m.secrets() == Map::<Seq<char>, TotpSecret>::empty(),
            m.attempt_map() == Map::<Seq<char>, Seq<VerificationAttempt>>::empty(),
            m.config_view().is_default(),
    {
        TotpManager::new()
    }
}

/// An accepted token wipes the user's failed attempts, so the user is not rate
/// limited afterwards, whatever the time.
pub proof fn law_accepted_token_clears_failures(
    m1: TotpManager, m2: TotpManager, user: Seq<char>, token: Seq<char>, now: u64, r: TotpVerifyResult, later: u64,
)
    requires
        verify_post(m1, m2, user, token, now, r),
        r == TotpVerifyResult::Valid,
    ensures
        m2.attempts_of(user) == Seq::<VerificationAttempt>::empty(),
        !rate_limited(m2, user, later),
{
    assert(!m2.attempt_map().dom().contains(user));
    assert(recent(Seq::<VerificationAttempt>::empty(), later.saturating_sub(RATE_WINDOW_MS)) == Seq::<VerificationAttempt>::empty());
}

/// A user whose second factor is off never gets a token accepted.
pub proof fn law_disabled_user_is_never_valid(
    m1: TotpManager, m2: TotpManager, user: Seq<char>, token: Seq<char>, now: u64, r: TotpVerifyResult,
)
    requires
        verify_post(m1, m2, user, token, now, r),
        m1.secrets().dom().contains(user),
        !m1.secrets()[user].enabled,
    ensures
        r != TotpVerifyResult::Valid,
{
}

} // verus!
