//! JSON values as plain data, read from text by serde_json, and setting a
//! value at a dotted path inside a
//! configuration: the last part of the path names the key written, the
//! parts before it the objects walked through. Text is typed as it is
//! written: "true" and "false" become booleans, text that reads as a
//! floating-point number becomes a number, anything else a string.
use vstd::prelude::*;
use crate::text::{owned, str_eq, chars_of, string_from_chars, strings_view};

verus! {

/// A JSON value; a number keeps the text it was written with, an object
/// its entries in order.
#[derive(Debug, PartialEq)]
pub enum JsonValue {
    Null,
    Bool(bool),
    Number(String),
    Text(String),
    Array(Vec<JsonValue>),
    Object(Vec<(String, JsonValue)>),
}

/// The plain content of a JSON value.
pub enum JsonView {
    Null,
    Bool(bool),
    Number(Seq<char>),
    Text(Seq<char>),
    Array(Seq<JsonView>),
    Object(Seq<(Seq<char>, JsonView)>),
}

impl View for JsonValue {
    type V = JsonView;

    open spec fn view(&self) -> JsonView
        decreases self,
    {
        match self {
            JsonValue::Null => JsonView::Null,
            JsonValue::Bool(b) => JsonView::Bool(*b),
            JsonValue::Number(s) => JsonView::Number(s@),
            JsonValue::Text(s) => JsonView::Text(s@),
            JsonValue::Array(v) => JsonView::Array(Seq::new(v@.len(), |i: int| if 0 <= i < v@.len() { v@[i].view() } else { JsonView::Null })),
            JsonValue::Object(v) => JsonView::Object(pair_up(
                Seq::new(v@.len(), |i: int| v@[i].0@),
                Seq::new(v@.len(), |i: int| if 0 <= i < v@.len() { v@[i].1.view() } else { JsonView::Null }),
            )),
        }
    }
}

/// The pairs of the items of `a` and `b` at equal positions.
pub open spec fn pair_up(a: Seq<Seq<char>>, b: Seq<JsonView>) -> Seq<(Seq<char>, JsonView)> {
    Seq::new(a.len(), |i: int| (a[i], b[i]))
}

/// The plain content of object entries.
pub open spec fn entries(v: Seq<(String, JsonValue)>) -> Seq<(Seq<char>, JsonView)> {
    Seq::new(v.len(), |i: int| if 0 <= i < v.len() { (v[i].0@, v[i].1@) } else { (Seq::empty(), JsonView::Null) })
}

proof fn lemma_object_view(v: Vec<(String, JsonValue)>)
    ensures
        JsonValue::Object(v)@ == JsonView::Object(entries(v@)),
{
    let s = JsonValue::Object(v)@->Object_0;
    assert forall|i: int| 0 <= i < v@.len() implies s[i] == entries(v@)[i] by {
        assert(s[i] == (v@[i].0@, v@[i].1.view()));
    }
    assert(s =~= entries(v@));
}

// ---------------------------------------------------------------------------
// Reading JSON text
// ---------------------------------------------------------------------------

/// serde_json's `Value`, which its parser hands back.
#[verifier::external_type_specification]
#[verifier::external_body]
pub struct ExSerdeValue(serde_json::Value);

/// What serde_json makes of the text `text` as a JSON value: the value,
/// each number written as serde_json writes it and each object's keys in
/// serde_json's order, or the message of its error.
pub uninterp spec fn json_parsed(text: Seq<char>) -> Result<JsonView, Seq<char>>;

/// `serde_json::Value` as a `JsonValue`, variant by variant; a number keeps
/// the text its `to_string` gives. Only `parse_json` calls it, and nothing
/// is stated of it beyond what `parse_json` states.
#[verifier::external_body]
fn value_to_json(v: serde_json::Value) -> JsonValue {
    match v {
        serde_json::Value::Null => JsonValue::Null,
        serde_json::Value::Bool(b) => JsonValue::Bool(b),
        serde_json::Value::Number(n) => JsonValue::Number(n.to_string()),
        serde_json::Value::String(s) => JsonValue::Text(s),
        serde_json::Value::Array(a) => JsonValue::Array(a.into_iter().map(value_to_json).collect()),
        serde_json::Value::Object(m) => JsonValue::Object(m.into_iter().map(|(k, x)| (k, value_to_json(x))).collect()),
    }
}

/// Reads `text` with `serde_json::from_str` as a `serde_json::Value`. The
/// contract claims that the outcome is a function of the text alone
/// (`json_parsed`): the value read, or the error's message (`to_string`).
#[verifier::external_body]
pub(crate) fn parse_json(text: &str) -> (r: Result<JsonValue, String>)
    ensures
        match r {
            Ok(v) => json_parsed(text@) == Ok::<JsonView, Seq<char>>(v@),
            Err(e) => json_parsed(text@) == Err::<JsonView, Seq<char>>(e@),
        },
{
    match serde_json::from_str::<serde_json::Value>(text) {
        Ok(v) => Ok(value_to_json(v)),
        Err(e) => Err(e.to_string()),
    }
}

// ---------------------------------------------------------------------------
// Numbers as text
// ---------------------------------------------------------------------------

/// An ASCII decimal digit.
pub open spec fn ascii_digit(c: char) -> bool {
    '0' <= c && c <= '9'
}

/// `c` with an ASCII capital turned small.
pub open spec fn ascii_lower(c: char) -> char {
    if 'A' <= c && c <= 'Z' { ((c as u32) + 32) as char } else { c }
}

/// `s` without one leading '+' or '-'.
pub open spec fn unsigned(s: Seq<char>) -> Seq<char> {
    if s.len() > 0 && (s[0] == '+' || s[0] == '-') { s.drop_first() } else { s }
}

/// Digits with at most one '.', and at least one digit.
pub open spec fn mantissa_ok(m: Seq<char>) -> bool {
    &&& forall|i: int| 0 <= i < m.len() ==> ascii_digit(#[trigger] m[i]) || m[i] == '.'
    &&& forall|i: int, j: int| 0 <= i < j < m.len() && #[trigger] m[i] == '.' ==> #[trigger] m[j] != '.'
    &&& exists|i: int| 0 <= i < m.len() && ascii_digit(#[trigger] m[i])
}

/// Nothing, or 'e' or 'E' followed by an optional sign and at least one digit.
pub open spec fn exponent_ok(x: Seq<char>) -> bool {
    x.len() == 0 || (x.len() >= 2 && (x[0] == 'e' || x[0] == 'E') && unsigned(x.drop_first()).len() > 0
        && forall|i: int| 0 <= i < unsigned(x.drop_first()).len() ==> ascii_digit(#[trigger] unsigned(x.drop_first())[i]))
}

/// Whether `p` is where the exponent of `b` begins: the first 'e' or 'E', or the end.
pub open spec fn exponent_at(b: Seq<char>, p: int) -> bool {
    &&& 0 <= p <= b.len()
    &&& forall|k: int| 0 <= k < p ==> #[trigger] b[k] != 'e' && b[k] != 'E'
    &&& (p == b.len() || b[p] == 'e' || b[p] == 'E')
}

/// Whether `s` reads as a floating-point number: an optional sign, then
/// "inf", "infinity" or "nan" in any case of ASCII letters, or digits with at
/// most one '.' (at least one digit) and an optional exponent.
pub open spec fn double_syntax(s: Seq<char>) -> bool {
    let b = unsigned(s);
    ||| b.map_values(|c: char| ascii_lower(c)) == "inf"@
    ||| b.map_values(|c: char| ascii_lower(c)) == "infinity"@
    ||| b.map_values(|c: char| ascii_lower(c)) == "nan"@
    ||| exists|p: int| exponent_at(b, p) && mantissa_ok(b.take(p)) && exponent_ok(b.skip(p))
}

fn lower_char(c: char) -> (r: char)
    ensures
        r == ascii_lower(c),
{
    if 'A' <= c && c <= 'Z' {
        let u = (c as u32) + 32;
        assert(u < 0xD800);
        proof { assert(ascii_lower(c) == ((c as u32) + 32) as char); }
        char_from(u)
    } else {
        c
    }
}

fn char_from(u: u32) -> (c: char)
    requires
        0x41 + 32 <= u <= 0x5A + 32,
    ensures
        c == u as char,
{
    if u == 97 { 'a' } else if u == 98 { 'b' } else if u == 99 { 'c' } else if u == 100 { 'd' }
    else if u == 101 { 'e' } else if u == 102 { 'f' } else if u == 103 { 'g' } else if u == 104 { 'h' }
    else if u == 105 { 'i' } else if u == 106 { 'j' } else if u == 107 { 'k' } else if u == 108 { 'l' }
    else if u == 109 { 'm' } else if u == 110 { 'n' } else if u == 111 { 'o' } else if u == 112 { 'p' }
    else if u == 113 { 'q' } else if u == 114 { 'r' } else if u == 115 { 's' } else if u == 116 { 't' }
    else if u == 117 { 'u' } else if u == 118 { 'v' } else if u == 119 { 'w' } else if u == 120 { 'x' }
    else if u == 121 { 'y' } else { 'z' }
}

/// Whether `b` with ASCII capitals made small is `word`.
fn lower_is(b: &Vec<char>, word: &str) -> (r: bool)
    ensures
        r == (b@.map_values(|c: char| ascii_lower(c)) == word@),
{
    let w = chars_of(word);
    if b.len() != w.len() {
        assert(b@.map_values(|c: char| ascii_lower(c)).len() != word@.len());
        return false;
    }
    let n = b.len();
    let mut i: usize = 0;
    while i < n
        invariant
            n == b@.len(),
            n == w@.len(),
            w@ == word@,
            i <= n,
            forall|k: int| 0 <= k < i ==> ascii_lower(b@[k]) == w@[k],
        decreases n - i,
    {
        if lower_char(b[i]) != w[i] {
            assert(b@.map_values(|c: char| ascii_lower(c))[i as int] != word@[i as int]);
            return false;
        }
        i = i + 1;
    }
    assert(b@.map_values(|c: char| ascii_lower(c)) =~= word@);
    true
}

/// Whether the characters `m` form a mantissa (see `mantissa_ok`).
fn mantissa_check(m: &Vec<char>) -> (r: bool)
    ensures
        r == mantissa_ok(m@),
{
    let n = m.len();
    let mut dot: Option<usize> = None;
    let mut digit = false;
    let mut i: usize = 0;
    while i < n
        invariant
            n == m@.len(),
            i <= n,
            forall|k: int| 0 <= k < i ==> ascii_digit(#[trigger] m@[k]) || m@[k] == '.',
            match dot {
                None => forall|k: int| 0 <= k < i ==> #[trigger] m@[k] != '.',
                Some(d) => d < i && m@[d as int] == '.' && forall|k: int| 0 <= k < i && k != d ==> #[trigger] m@[k] != '.',
            },
            digit == exists|k: int| 0 <= k < i && ascii_digit(#[trigger] m@[k]),
        decreases n - i,
    {
        let c = m[i];
        if '0' <= c && c <= '9' {
            digit = true;
        } else if c == '.' {
            if let Some(d) = dot {
                assert(m@[d as int] == '.' && m@[i as int] == '.');
                return false;
            }
            dot = Some(i);
        } else {
            assert(!(ascii_digit(m@[i as int]) || m@[i as int] == '.'));
            return false;
        }
        i = i + 1;
    }
    proof {
        assert forall|a: int, b: int| 0 <= a < b < n && #[trigger] m@[a] == '.' implies #[trigger] m@[b] != '.' by {
            match dot {
                None => {}
                Some(d) => {
                    if m@[b] == '.' {
                        assert(b == d);
                        assert(a == d);
                    }
                }
            }
        }
    }
    digit
}

/// Whether the characters `x` form an exponent (see `exponent_ok`).
fn exponent_check(x: &Vec<char>) -> (r: bool)
    ensures
        r == exponent_ok(x@),
{
    let n = x.len();
    if n == 0 {
        return true;
    }
    if n < 2 || !(x[0] == 'e' || x[0] == 'E') {
        return false;
    }
    let ghost u = unsigned(x@.drop_first());
    let start: usize = if x[1] == '+' || x[1] == '-' { 2 } else { 1 };
    assert(u =~= x@.skip(start as int));
    if start >= n {
        assert(u.len() == 0);
        return false;
    }
    let mut i = start;
    while i < n
        invariant
            n == x@.len(),
            start <= i <= n,
            u == x@.skip(start as int),
            u == unsigned(x@.drop_first()),
            forall|k: int| start <= k < i ==> ascii_digit(#[trigger] x@[k]),
        decreases n - i,
    {
        if !('0' <= x[i] && x[i] <= '9') {
            assert(u[i - start] == x@[i as int]);
            return false;
        }
        i = i + 1;
    }
    assert forall|k: int| 0 <= k < u.len() implies ascii_digit(#[trigger] u[k]) by {
        assert(u[k] == x@[k + start]);
    }
    true
}

/// Whether `s` reads as a floating-point number (see `double_syntax`).
pub fn reads_as_number(s: &str) -> (r: bool)
    ensures
        r == double_syntax(s@),
{
    let c = chars_of(s);
    let n = c.len();
    let start: usize = if n > 0 && (c[0] == '+' || c[0] == '-') { 1 } else { 0 };
    let mut b: Vec<char> = Vec::new();
    let mut i = start;
    while i < n
        invariant
            n == c@.len(),
            start <= i <= n,
            b@ == c@.subrange(start as int, i as int),
        decreases n - i,
    {
        b.push(c[i]);
        assert(c@.subrange(start as int, i + 1) =~= c@.subrange(start as int, i as int).push(c@[i as int]));
        i = i + 1;
    }
    assert(b@ =~= unsigned(s@));
    if lower_is(&b, "inf") || lower_is(&b, "infinity") || lower_is(&b, "nan") {
        return true;
    }
    let m = b.len();
    let mut p: usize = 0;
    while p < m && b[p] != 'e' && b[p] != 'E'
        invariant
            m == b@.len(),
            p <= m,
            forall|k: int| 0 <= k < p ==> #[trigger] b@[k] != 'e' && b@[k] != 'E',
        decreases m - p,
    {
        p = p + 1;
    }
    assert(exponent_at(b@, p as int));
    let mut mant: Vec<char> = Vec::new();
    let mut k: usize = 0;
    while k < p
        invariant
            p <= m,
            m == b@.len(),
            k <= p,
            mant@ == b@.take(k as int),
        decreases p - k,
    {
        mant.push(b[k]);
        assert(b@.take(k + 1) =~= b@.take(k as int).push(b@[k as int]));
        k = k + 1;
    }
    let mut expo: Vec<char> = Vec::new();
    let mut k = p;
    while k < m
        invariant
            p <= k <= m,
            m == b@.len(),
            expo@ == b@.subrange(p as int, k as int),
        decreases m - k,
    {
        expo.push(b[k]);
        assert(b@.subrange(p as int, k + 1) =~= b@.subrange(p as int, k as int).push(b@[k as int]));
        k = k + 1;
    }
    assert(expo@ =~= b@.skip(p as int));
    let ok = mantissa_check(&mant) && exponent_check(&expo);
    proof {
        let bb = unsigned(s@);
        if exists|q: int| exponent_at(bb, q) && mantissa_ok(bb.take(q)) && exponent_ok(bb.skip(q)) {
            let q = choose|q: int| exponent_at(bb, q) && mantissa_ok(bb.take(q)) && exponent_ok(bb.skip(q));
            if q < p {
                assert(bb[q] != 'e' && bb[q] != 'E');
            } else if q > p {
                assert(bb[p as int] != 'e' && bb[p as int] != 'E');
            }
            assert(q == p);
        }
    }
    ok
}

// ---------------------------------------------------------------------------
// Setting a value at a dotted path
// ---------------------------------------------------------------------------

/// The parts of `s` between dots, as `split('.')` gives them (an empty text
/// is one empty part).
pub open spec fn split_dots(s: Seq<char>) -> Seq<Seq<char>>
    decreases s.len(),
{
    if s.len() == 0 {
        seq![seq![]]
    } else {
        let p = split_dots(s.drop_last());
        if s.last() == '.' { p.push(seq![]) } else { p.update(p.len() - 1, p.last().push(s.last())) }
    }
}

proof fn lemma_split_nonempty(s: Seq<char>)
    ensures
        split_dots(s).len() > 0,
    decreases s.len(),
{
    if s.len() > 0 {
        lemma_split_nonempty(s.drop_last());
    }
}

/// The JSON value the text `v` is typed as: "true" and "false" as booleans,
/// a number when `is_number`, otherwise a string.
pub open spec fn typed(v: Seq<char>, is_number: bool) -> JsonView {
    if v == "true"@ { JsonView::Bool(true) }
    else if v == "false"@ { JsonView::Bool(false) }
    else if is_number { JsonView::Number(v) }
    else { JsonView::Text(v) }
}

/// The position of the first entry of `es` with key `k`, if any.
pub open spec fn first_key(es: Seq<(Seq<char>, JsonView)>, k: Seq<char>) -> Option<int>
    decreases es.len(),
{
    if es.len() == 0 {
        None
    } else if es[0].0 == k {
        Some(0)
    } else {
        match first_key(es.drop_first(), k) {
            Some(i) => Some(i + 1),
            None => None,
        }
    }
}

/// `es` with the value under `k` replaced by `v`, or `(k, v)` added at the end.
pub open spec fn put_entry(es: Seq<(Seq<char>, JsonView)>, k: Seq<char>, v: JsonView) -> Seq<(Seq<char>, JsonView)> {
    match first_key(es, k) {
        Some(i) => es.update(i, (k, v)),
        None => es.push((k, v)),
    }
}

/// `config` with `leaf` set at the path `parts`: the last part is written
/// into the object reached, the earlier parts walk through existing
/// entries; a path through something that is not an object, or through a
/// missing key, changes nothing.
pub open spec fn nested_set(config: JsonView, parts: Seq<Seq<char>>, leaf: JsonView) -> JsonView
    decreases parts.len(),
{
    match config {
        JsonView::Object(es) => {
            if parts.len() <= 1 {
                JsonView::Object(put_entry(es, if parts.len() == 1 { parts[0] } else { seq![] }, leaf))
            } else {
                match first_key(es, parts[0]) {
                    Some(i) => if 0 <= i < es.len() {
                        JsonView::Object(es.update(i, (es[i].0, nested_set(es[i].1, parts.drop_first(), leaf))))
                    } else {
                        config
                    },
                    None => config,
                }
            }
        }
        _ => config,
    }
}

proof fn lemma_first_key(es: Seq<(Seq<char>, JsonView)>, k: Seq<char>, p: int)
    requires
        0 <= p <= es.len(),
        forall|j: int| 0 <= j < p ==> #[trigger] es[j].0 != k,
        p == es.len() || es[p].0 == k,
    ensures
        first_key(es, k) == (if p == es.len() { None } else { Some(p) }),
    decreases p,
{
    if p > 0 {
        let t = es.drop_first();
        assert forall|j: int| 0 <= j < p - 1 implies #[trigger] t[j].0 != k by {
            assert(t[j] == es[j + 1]);
        }
        lemma_first_key(t, k, p - 1);
    }
}

/// The position of the first entry of `es` with key `k`, if any.
fn find_key(es: &Vec<(String, JsonValue)>, k: &str) -> (r: Option<usize>)
    ensures
        match r {
            Some(i) => i < es@.len() && first_key(entries(es@), k@) == Some(i as int),
            None => first_key(entries(es@), k@) is None,
        },
{
    let ghost e = entries(es@);
    let n = es.len();
    let mut i: usize = 0;
    while i < n
        invariant
            n == es@.len(),
            e == entries(es@),
            i <= n,
            forall|j: int| 0 <= j < i ==> #[trigger] e[j].0 != k@,
        decreases n - i,
    {
        if str_eq(es[i].0.as_str(), k) {
            proof { lemma_first_key(e, k@, i as int); }
            return Some(i);
        }
        i = i + 1;
    }
    proof { lemma_first_key(e, k@, n as int); }
    None
}

/// The parts of `path` between dots (see `split_dots`).
pub fn split_path(path: &str) -> (v: Vec<String>)
    ensures
        strings_view(v@) == split_dots(path@),
{
    let c = chars_of(path);
    let n = c.len();
    let mut done: Vec<String> = Vec::new();
    let mut cur: Vec<char> = Vec::new();
    let mut i: usize = 0;
    proof { assert(c@.take(0) =~= Seq::<char>::empty()); }
    while i < n
        invariant
            n == c@.len(),
            c@ == path@,
            i <= n,
            strings_view(done@).push(cur@) == split_dots(c@.take(i as int)),
        decreases n - i,
    {
        let ch = c[i];
        let ghost before = strings_view(done@).push(cur@);
        proof {
            assert(c@.take(i + 1).drop_last() =~= c@.take(i as int));
            assert(c@.take(i + 1).last() == ch);
        }
        if ch == '.' {
            let piece = string_from_chars(&cur);
            done.push(piece);
            cur = Vec::new();
            assert(strings_view(done@).push(cur@) =~= before.push(seq![]));
        } else {
            let ghost dv = strings_view(done@);
            cur.push(ch);
            assert(strings_view(done@).push(cur@) =~= before.update(before.len() - 1, before.last().push(ch)));
        }
        i = i + 1;
    }
    proof { assert(c@.take(n as int) =~= c@); }
    let last = string_from_chars(&cur);
    let ghost dv = strings_view(done@);
    done.push(last);
    assert(strings_view(done@) =~= dv.push(cur@));
    done
}

/// The JSON value the text `value` is typed as (see `typed`).
pub fn typed_value(value: &str, is_number: bool) -> (v: JsonValue)
    ensures
        v@ == typed(value@, is_number),
{
    if str_eq(value, "true") {
        JsonValue::Bool(true)
    } else if str_eq(value, "false") {
        JsonValue::Bool(false)
    } else if is_number {
        JsonValue::Number(owned(value))
    } else {
        JsonValue::Text(owned(value))
    }
}

fn set_at(parts: &Vec<String>, k: usize, leaf: JsonValue, config: JsonValue) -> (r: JsonValue)
    requires
        k < parts@.len(),
    ensures
        r@ == nested_set(config@, strings_view(parts@).skip(k as int), leaf@),
    decreases parts@.len() - k,
{
    let ghost ps = strings_view(parts@).skip(k as int);
    assert(ps[0] == parts@[k as int]@);
    assert(ps.len() == parts@.len() - k);
    let ghost cfg = config@;
    match config {
        JsonValue::Object(es) => {
            let mut es = es;
            proof { lemma_object_view(es); }
            let idx = find_key(&es, parts[k].as_str());
            if k == parts.len() - 1 {
                let ghost e0 = entries(es@);
                let ghost lv = leaf@;
                assert(cfg == JsonView::Object(e0));
                assert(nested_set(cfg, ps, lv) == JsonView::Object(put_entry(e0, ps[0], lv)));
                match idx {
                    Some(i) => {
                        let key = owned(parts[k].as_str());
                        let _ = es.remove(i);
                        es.insert(i, (key, leaf));
                        assert(entries(es@) =~= e0.update(i as int, (parts@[k as int]@, lv)));
                        assert(first_key(e0, ps[0]) == Some(i as int));
                        assert(entries(es@) == put_entry(e0, ps[0], lv));
                    }
                    None => {
                        es.push((owned(parts[k].as_str()), leaf));
                        assert(entries(es@) =~= e0.push((parts@[k as int]@, lv)));
                        assert(entries(es@) == put_entry(e0, ps[0], lv));
                    }
                }
                proof { lemma_object_view(es); }
                assert(ps.len() == 1);
                assert(JsonValue::Object(es)@ == nested_set(cfg, ps, lv));
                JsonValue::Object(es)
            } else {
                match idx {
                    Some(i) => {
                        let ghost e0 = entries(es@);
                        let (key, child) = es.remove(i);
                        let ghost cv = child@;
                        assert(cv == e0[i as int].1);
                        let new_child = set_at(parts, k + 1, leaf, child);
                        proof { assert(strings_view(parts@).skip(k + 1) =~= ps.drop_first()); }
                        let ghost nv = new_child@;
                        es.insert(i, (key, new_child));
                        assert(entries(es@) =~= e0.update(i as int, (e0[i as int].0, nv)));
                        proof { lemma_object_view(es); }
                        assert(JsonValue::Object(es)@ == nested_set(cfg, ps, leaf@));
                        JsonValue::Object(es)
                    }
                    None => {
                        proof { lemma_object_view(es); }
                        assert(JsonValue::Object(es)@ == nested_set(cfg, ps, leaf@));
                        JsonValue::Object(es)
                    }
                }
            }
        }
        other => {
            assert(other@ == nested_set(cfg, ps, leaf@));
            other
        }
    }
}

/// `config` with the text `value` (typed; see `typed`, where `is_number`
/// tells whether it reads as a number) set at the dotted `path` (see
/// `nested_set`).
pub fn set_nested_value(path: &str, value: &str, is_number: bool, config: JsonValue) -> (r: JsonValue)
    ensures
        r@ == nested_set(config@, split_dots(path@), typed(value@, is_number)),
{
    let parts = split_path(path);
    proof {
        lemma_split_nonempty(path@);
        assert(strings_view(parts@).skip(0) =~= strings_view(parts@));
    }
    let leaf = typed_value(value, is_number);
    set_at(&parts, 0, leaf, config)
}

} // verus!
