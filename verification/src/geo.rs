//! The geolocation resolver's decoding half.
//!
//! The provider answers an IP lookup with a JSON object holding
//! numeric `lat` and `lon` fields. The transport fetches that body;
//! this module decides what it means. A light scanner tracks string
//! literals (with backslash escapes) and brace/bracket depth, so a
//! field counts only as a member of the top-level object — never a
//! quoted value or a member of a nested object — with whitespace
//! allowed around its colon; of several members with one name the
//! last wins, as it does when a JSON object is built. The value
//! follows JSON's number grammar: an optional minus, an integer part
//! with no leading zero, an optional fraction, an optional exponent
//! that is applied in the conversion to microdegrees, and then a
//! delimiter or the end of the body.
//!
//! The model carries up to seventeen digits in each of the integer
//! and fraction parts — binary64, which the original read the fields
//! into, resolves no more — up to three exponent digits, and
//! magnitudes up to the signed 64-bit microdegree range; beyond any
//! of these the field is out of the model and reads as unknown.
//! Whatever falls short — there, or anywhere in the shape — yields
//! `None`, which the orchestrator replaces with the default
//! coordinates; a lookup never fails a registration.

use vstd::arithmetic::div_mod::lemma_basic_div_specific_divisor;
use vstd::prelude::*;

use crate::account::Coordinates;

verus! {

/// A decimal digit byte.
pub open spec fn is_digit(b: u8) -> bool {
    48 <= b <= 57
}

/// A JSON whitespace byte: space, tab, line feed, carriage return.
pub open spec fn is_ws(b: u8) -> bool {
    b == 32 || b == 9 || b == 10 || b == 13
}

/// A byte that may legally follow a number: a comma, a closing brace
/// or bracket, or whitespace. Anything else stuck to the digits makes
/// the value malformed.
pub open spec fn is_delim(b: u8) -> bool {
    b == 44 || b == 125 || b == 93 || is_ws(b)
}

/// The value of a run of digit bytes, most significant first.
pub open spec fn dec_val(s: Seq<u8>) -> int
    decreases s.len(),
{
    if s.len() == 0 {
        0
    } else {
        dec_val(s.drop_last()) * 10 + (s.last() - 48)
    }
}

/// Ten to the `n`.
pub open spec fn pow10(n: nat) -> int
    decreases n,
{
    if n == 0 {
        1
    } else {
        10 * pow10((n - 1) as nat)
    }
}

/// The first position at or after `i` that does not hold whitespace.
pub open spec fn ws_end(s: Seq<u8>, i: int) -> int
    decreases s.len() - i,
    when 0 <= i <= s.len()
{
    if i >= s.len() || !is_ws(s[i]) {
        i
    } else {
        ws_end(s, i + 1)
    }
}

/// The first position at or after `i` that does not hold a digit.
pub open spec fn digits_end(s: Seq<u8>, i: int) -> int
    decreases s.len() - i,
    when 0 <= i <= s.len()
{
    if i >= s.len() || !is_digit(s[i]) {
        i
    } else {
        digits_end(s, i + 1)
    }
}

/// A value scaled by ten to the `t`: multiplied for a non-negative
/// `t`, divided — truncating towards zero — otherwise.
pub open spec fn scaled_mag(v: int, t: int) -> int {
    if t >= 0 {
        v * pow10(t as nat)
    } else {
        v / pow10((-t) as nat)
    }
}

/// The microdegree magnitude of a digit run scaled by ten to the `t`.
pub open spec fn micro_mag(digits: Seq<u8>, t: int) -> int {
    scaled_mag(dec_val(digits), t)
}

/// The signed microdegree value, or `None` where the magnitude leaves
/// the signed 64-bit range of the model.
pub open spec fn finish_number(neg: bool, digits: Seq<u8>, t: int) -> Option<int> {
    let mag = micro_mag(digits, t);
    if mag > 0x7FFF_FFFF_FFFF_FFFF {
        None
    } else if neg {
        Some(-mag)
    } else {
        Some(mag)
    }
}

/// The microdegree value of the JSON number written at position `i`
/// of `s`: an optional minus; one to seventeen integer digits with no
/// leading zero (a lone zero is allowed); optionally a point followed
/// by one to seventeen fraction digits; optionally an exponent — `e`
/// or `E`, an optional sign, one to three digits — applied in the
/// conversion; then a delimiter or the end of the body. `None` when
/// nothing of that shape starts there, or when the magnitude leaves
/// the model's range.
pub open spec fn spec_number_micro(s: Seq<u8>, i: int) -> Option<int>
    recommends
        0 <= i <= s.len(),
{
    let neg = i < s.len() && s[i] == 45;
    let d0 = if neg {
        i + 1
    } else {
        i
    };
    let d1 = digits_end(s, d0);
    if d1 == d0 || d1 - d0 > 17 || (d1 - d0 > 1 && s[d0] == 48) {
        None
    } else {
        let point = d1 < s.len() && s[d1] == 46;
        let f0 = if point {
            d1 + 1
        } else {
            d1
        };
        let f1 = if point {
            digits_end(s, d1 + 1)
        } else {
            d1
        };
        if point && (f1 == f0 || f1 - f0 > 17) {
            None
        } else {
            let digits = s.subrange(d0, d1) + s.subrange(f0, f1);
            if f1 < s.len() && (s[f1] == 101 || s[f1] == 69) {
                let eneg = f1 + 1 < s.len() && s[f1 + 1] == 45;
                let esigned = f1 + 1 < s.len() && (s[f1 + 1] == 43 || s[f1 + 1] == 45);
                let e0 = if esigned {
                    f1 + 2
                } else {
                    f1 + 1
                };
                let e1 = digits_end(s, e0);
                if e1 == e0 || e1 - e0 > 3 {
                    None
                } else if e1 < s.len() && !is_delim(s[e1]) {
                    None
                } else {
                    let e = if eneg {
                        -dec_val(s.subrange(e0, e1))
                    } else {
                        dec_val(s.subrange(e0, e1))
                    };
                    finish_number(neg, digits, e + 6 - (f1 - f0))
                }
            } else if f1 < s.len() && !is_delim(s[f1]) {
                None
            } else {
                finish_number(neg, digits, 6 - (f1 - f0))
            }
        }
    }
}

/// `pat` occurs in `s` at position `i`.
pub open spec fn matches_at(s: Seq<u8>, pat: Seq<u8>, i: int) -> bool {
    0 <= i && i + pat.len() <= s.len() && s.subrange(i, i + pat.len()) == pat
}

/// The scanner's position in the body: the brace and bracket depth,
/// whether inside a string literal, whether right after a backslash.
pub struct ScanState {
    pub depth: int,
    pub in_string: bool,
    pub escaped: bool,
}

/// One byte moves the scanner: a string swallows everything up to its
/// closing quote, honouring backslash escapes; outside strings, braces
/// and brackets change the depth.
pub open spec fn scan_step(st: ScanState, b: u8) -> ScanState {
    if st.in_string {
        if st.escaped {
            ScanState { depth: st.depth, in_string: true, escaped: false }
        } else if b == 92 {
            ScanState { depth: st.depth, in_string: true, escaped: true }
        } else if b == 34 {
            ScanState { depth: st.depth, in_string: false, escaped: false }
        } else {
            st
        }
    } else if b == 34 {
        ScanState { depth: st.depth, in_string: true, escaped: false }
    } else if b == 123 || b == 91 {
        ScanState { depth: st.depth + 1, in_string: false, escaped: false }
    } else if b == 125 || b == 93 {
        ScanState { depth: st.depth - 1, in_string: false, escaped: false }
    } else {
        st
    }
}

/// The scanner's position after the first `i` bytes of `s`.
pub open spec fn scan_at(s: Seq<u8>, i: int) -> ScanState
    decreases i,
{
    if i <= 0 {
        ScanState { depth: 0, in_string: false, escaped: false }
    } else {
        scan_step(scan_at(s, i - 1), s[i - 1])
    }
}

/// `key` — a quoted member name such as the five bytes of `"lat"` —
/// names a member of the top-level object at `i`: the scanner stands
/// at depth one outside any string, the quoted name follows, then
/// optional whitespace and the colon.
pub open spec fn key_at(s: Seq<u8>, key: Seq<u8>, i: int) -> bool {
    &&& matches_at(s, key, i)
    &&& scan_at(s, i) == (ScanState { depth: 1, in_string: false, escaped: false })
    &&& ws_end(s, i + key.len()) < s.len()
    &&& s[ws_end(s, i + key.len())] == 58
}

/// The last position strictly below `i` where `key` names a top-level
/// member.
pub open spec fn last_key_before(s: Seq<u8>, key: Seq<u8>, i: int) -> Option<int>
    decreases i,
{
    if i <= 0 {
        None
    } else if key_at(s, key, i - 1) {
        Some(i - 1)
    } else {
        last_key_before(s, key, i - 1)
    }
}

/// The bytes of the quoted name `"lat"`.
pub open spec fn lat_key() -> Seq<u8> {
    seq![34u8, 108u8, 97u8, 116u8, 34u8]
}

/// The bytes of the quoted name `"lon"`.
pub open spec fn lon_key() -> Seq<u8> {
    seq![34u8, 108u8, 111u8, 110u8, 34u8]
}

/// The microdegree value of the top-level member that `key` names —
/// the last member with that name — read after its colon, whitespace
/// allowed on either side of the colon.
pub open spec fn spec_field_micro(s: Seq<u8>, key: Seq<u8>) -> Option<int>
    recommends
        1 <= key.len(),
{
    match last_key_before(s, key, s.len() as int + 1) {
        Option::None => None,
        Option::Some(i) => spec_number_micro(s, ws_end(s, ws_end(s, i + key.len()) + 1)),
    }
}

/// What a provider response body resolves to: the microdegree pair
/// exactly when both fields parse, otherwise nothing.
pub open spec fn spec_location(s: Seq<u8>) -> Option<(int, int)> {
    match (spec_field_micro(s, lat_key()), spec_field_micro(s, lon_key())) {
        (Option::Some(la), Option::Some(lo)) => Some((la, lo)),
        _ => None,
    }
}

/// A digit run's value is bounded by ten to its length.
proof fn lemma_dec_val_bound(s: Seq<u8>)
    requires
        forall|k: int| 0 <= k < s.len() ==> is_digit(#[trigger] s[k]),
    ensures
        0 <= dec_val(s) < pow10(s.len()),
    decreases s.len(),
{
    if s.len() > 0 {
        lemma_dec_val_bound(s.drop_last());
    }
}

/// Ten to the power is monotone in the exponent.
proof fn lemma_pow10_mono(a: nat, b: nat)
    requires
        a <= b,
    ensures
        pow10(a) <= pow10(b),
    decreases b,
{
    if a < b {
        lemma_pow10_mono(a, (b - 1) as nat);
        assert(pow10((b - 1) as nat) >= 1) by {
            lemma_pow10_mono(0, (b - 1) as nat);
        }
    }
}

/// Powers of ten multiply by adding exponents.
proof fn lemma_pow10_add(a: nat, b: nat)
    ensures
        pow10(a) * pow10(b) == pow10((a + b) as nat),
    decreases a,
{
    if a == 0 {
    } else {
        lemma_pow10_add((a - 1) as nat, b);
        assert((10 * pow10((a - 1) as nat)) * pow10(b) == 10 * (pow10((a - 1) as nat) * pow10(
            b,
        ))) by (nonlinear_arith);
    }
}

/// Concatenating digit runs: the left run shifts by the length of the
/// right one.
proof fn lemma_dec_val_append(a: Seq<u8>, b: Seq<u8>)
    ensures
        dec_val(a + b) == dec_val(a) * pow10(b.len()) + dec_val(b),
    decreases b.len(),
{
    if b.len() == 0 {
        assert(a + b =~= a);
    } else {
        lemma_dec_val_append(a, b.drop_last());
        assert(a + b =~= (a + b.drop_last()).push(b.last()));
        assert((a + b.drop_last()).push(b.last()).drop_last() =~= a + b.drop_last());
        assert(dec_val(a) * pow10(b.drop_last().len()) * 10 == dec_val(a) * (10 * pow10(
            b.drop_last().len(),
        ))) by (nonlinear_arith);
    }
}

/// With no member position in `[a, b)`, the search below `b` equals
/// the search below `a`.
proof fn lemma_key_cap(s: Seq<u8>, key: Seq<u8>, a: int, b: int)
    requires
        0 <= a <= b,
        forall|j: int| a <= j < b ==> !key_at(s, key, j),
    ensures
        last_key_before(s, key, b) == last_key_before(s, key, a),
    decreases b - a,
{
    if a < b {
        lemma_key_cap(s, key, a, b - 1);
    }
}

/// The first position at or after `i` without whitespace.
fn skip_ws(s: &[u8], i: usize) -> (j: usize)
    requires
        i <= s@.len(),
    ensures
        j == ws_end(s@, i as int),
        i <= j <= s@.len(),
{
    let n = s.len();
    let mut j = i;
    while j < n && (s[j] == 32 || s[j] == 9 || s[j] == 10 || s[j] == 13)
        invariant
            i <= j <= n,
            n == s@.len(),
            ws_end(s@, i as int) == ws_end(s@, j as int),
        decreases n - j,
    {
        j = j + 1;
    }
    j
}

/// The first position at or after `i` without a digit.
fn digit_run_end(s: &[u8], i: usize) -> (j: usize)
    requires
        i <= s@.len(),
    ensures
        j == digits_end(s@, i as int),
        i <= j <= s@.len(),
        forall|k: int| i <= k < j ==> is_digit(#[trigger] s@[k]),
        j < s@.len() ==> !is_digit(s@[j as int]),
{
    let n = s.len();
    let mut j = i;
    while j < n && 48 <= s[j] && s[j] <= 57
        invariant
            i <= j <= n,
            n == s@.len(),
            digits_end(s@, i as int) == digits_end(s@, j as int),
            forall|k: int| i <= k < j ==> is_digit(#[trigger] s@[k]),
        decreases n - j,
    {
        j = j + 1;
    }
    j
}

/// Whether `b` may close a number.
fn delim_byte(b: u8) -> (r: bool)
    ensures
        r == is_delim(b),
{
    b == 44 || b == 125 || b == 93 || b == 32 || b == 9 || b == 10 || b == 13
}

/// Ten to the `k` as a 128-bit value.
fn pow10_u128(k: usize) -> (r: u128)
    requires
        k <= 34,
    ensures
        r == pow10(k as nat),
{
    proof {
        assert(pow10(34) == 0x1ED09BEAD87C0378D8E6400000000i128) by {
            reveal_with_fuel(pow10, 35);
        }
    }
    let mut r: u128 = 1;
    let mut i: usize = 0;
    while i < k
        invariant
            i <= k <= 34,
            r == pow10(i as nat),
            pow10(34) == 0x1ED09BEAD87C0378D8E6400000000i128,
        decreases k - i,
    {
        proof {
            lemma_pow10_mono(i as nat, 33);
            assert(pow10(33) * 10 == pow10(34));
        }
        r = r * 10;
        i = i + 1;
    }
    r
}

/// The value of the digit run `s[a..b]`.
fn dec_value(s: &[u8], a: usize, b: usize) -> (v: u128)
    requires
        a <= b <= s@.len(),
        b - a <= 17,
        forall|k: int| a <= k < b ==> is_digit(#[trigger] s@[k]),
    ensures
        v == dec_val(s@.subrange(a as int, b as int)),
        0 <= v < pow10((b - a) as nat),
{
    proof {
        assert(pow10(17) == 100000000000000000i128) by {
            reveal_with_fuel(pow10, 18);
        }
    }
    let mut v: u128 = 0;
    let mut i = a;
    while i < b
        invariant
            a <= i <= b <= s@.len(),
            b - a <= 17,
            forall|k: int| a <= k < b ==> is_digit(#[trigger] s@[k]),
            v == dec_val(s@.subrange(a as int, i as int)),
            0 <= v < pow10((i - a) as nat),
            pow10(17) == 100000000000000000i128,
        decreases b - i,
    {
        proof {
            assert(s@.subrange(a as int, i + 1).drop_last() =~= s@.subrange(a as int, i as int));
            assert(s@.subrange(a as int, i + 1).last() == s@[i as int]);
            lemma_pow10_mono((i - a) as nat, 16);
            assert(pow10(16) * 10 == pow10(17));
        }
        v = v * 10 + (s[i] - 48) as u128;
        i = i + 1;
    }
    proof {
        lemma_pow10_mono((b - a) as nat, 17);
    }
    v
}

/// Whether the quoted name stands at `i` with its colon after
/// optional whitespace.
fn key_shape_at(s: &[u8], key: &[u8], i: usize) -> (r: bool)
    requires
        1 <= key@.len(),
        i + key@.len() <= s@.len(),
    ensures
        r == (matches_at(s@, key@, i as int) && ws_end(s@, i + key@.len()) < s@.len() && s@[ws_end(
            s@,
            i + key@.len(),
        )] == 58),
{
    let n = s.len();
    let m = key.len();
    let mut k: usize = 0;
    while k < m
        invariant
            n == s@.len(),
            i + m <= n,
            m == key@.len(),
            k <= m,
            forall|t: int| 0 <= t < k ==> s@[i + t] == key@[t],
        decreases m - k,
    {
        if s[i + k] != key[k] {
            proof {
                if matches_at(s@, key@, i as int) {
                    assert(s@.subrange(i as int, i + m)[k as int] == s@[i + k]);
                }
            }
            return false;
        }
        k = k + 1;
    }
    proof {
        assert forall|t: int| 0 <= t < m implies s@.subrange(i as int, i + m)[t] == key@[t] by {
            assert(s@.subrange(i as int, i + m)[t] == s@[i + t]);
        }
        assert(s@.subrange(i as int, i + m) =~= key@);
    }
    let j = skip_ws(s, i + m);
    j < s.len() && s[j] == 58
}

/// The last top-level member named by `key`.
fn find_key(s: &[u8], key: &[u8]) -> (r: Option<usize>)
    requires
        1 <= key@.len(),
    ensures
        r matches Some(i) ==> last_key_before(s@, key@, s@.len() as int + 1) == Some(i as int) && key_at(
            s@,
            key@,
            i as int,
        ),
        r is None ==> last_key_before(s@, key@, s@.len() as int + 1) is None,
{
    let n = s.len();
    let m = key.len();
    if m > n {
        proof {
            assert forall|j: int| 0 <= j < n + 1 implies !key_at(s@, key@, j) by {
                assert(j + m > n);
            }
            lemma_key_cap(s@, key@, 0, n as int + 1);
        }
        return None;
    }
    let mut found: Option<usize> = None;
    let mut depth: i128 = 0;
    let mut in_str = false;
    let mut esc = false;
    let mut i: usize = 0;
    while i <= n - m
        invariant
            1 <= m <= n,
            n == s@.len(),
            m == key@.len(),
            i <= n - m + 1,
            scan_at(s@, i as int) == (ScanState {
                depth: depth as int,
                in_string: in_str,
                escaped: esc,
            }),
            -(i as int) <= depth as int <= i as int,
            !in_str ==> !esc,
            (match found {
                Option::Some(x) => last_key_before(s@, key@, i as int) == Some(x as int) && key_at(
                    s@,
                    key@,
                    x as int,
                ),
                Option::None => last_key_before(s@, key@, i as int) is None,
            }),
        decreases n - i,
    {
        if depth == 1 && !in_str && !esc {
            if key_shape_at(s, key, i) {
                found = Some(i);
            }
        }
        let b = s[i];
        proof {
            assert(scan_at(s@, i + 1) == scan_step(scan_at(s@, i as int), s@[i as int]));
        }
        if in_str {
            if esc {
                esc = false;
            } else if b == 92 {
                esc = true;
            } else if b == 34 {
                in_str = false;
            }
        } else if b == 34 {
            in_str = true;
        } else if b == 123 || b == 91 {
            depth = depth + 1;
        } else if b == 125 || b == 93 {
            depth = depth - 1;
        }
        i = i + 1;
    }
    proof {
        assert forall|j: int| i <= j < n + 1 implies !key_at(s@, key@, j) by {
            assert(j + m > n);
        }
        lemma_key_cap(s@, key@, i as int, n as int + 1);
    }
    found
}

/// The microdegree value of the JSON number at position `i`.
#[verifier::spinoff_prover]
#[verifier::rlimit(80)]
fn parse_number_micro(s: &[u8], i: usize) -> (r: Option<i64>)
    requires
        i <= s@.len(),
    ensures
        r matches Some(v) ==> spec_number_micro(s@, i as int) == Some(v as int),
        r is None ==> spec_number_micro(s@, i as int) is None,
{
    proof {
        assert(pow10(3) == 1000 && pow10(18) == 1000000000000000000i128 && pow10(19)
            == 10000000000000000000i128) by {
            reveal_with_fuel(pow10, 20);
        }
    }
    let n = s.len();
    let neg = i < n && s[i] == 45;
    let d0 = if neg {
        i + 1
    } else {
        i
    };
    let d1 = digit_run_end(s, d0);
    if d1 == d0 || d1 - d0 > 17 {
        return None;
    }
    if d1 - d0 > 1 && s[d0] == 48 {
        return None;
    }
    let point = d1 < n && s[d1] == 46;
    let f0 = if point {
        d1 + 1
    } else {
        d1
    };
    let f1 = if point {
        digit_run_end(s, d1 + 1)
    } else {
        d1
    };
    if point && (f1 == f0 || f1 - f0 > 17) {
        return None;
    }
    let flen = f1 - f0;
    let e_signed: i64;
    if f1 < n && (s[f1] == 101 || s[f1] == 69) {
        let esigned = f1 + 1 < n && (s[f1 + 1] == 43 || s[f1 + 1] == 45);
        let eneg = f1 + 1 < n && s[f1 + 1] == 45;
        let e0 = if esigned {
            f1 + 2
        } else {
            f1 + 1
        };
        let e1 = digit_run_end(s, e0);
        if e1 == e0 || e1 - e0 > 3 {
            return None;
        }
        if e1 < n && !delim_byte(s[e1]) {
            return None;
        }
        let ev = dec_value(s, e0, e1);
        proof {
            lemma_pow10_mono((e1 - e0) as nat, 3);
        }
        e_signed = if eneg {
            -(ev as i64)
        } else {
            ev as i64
        };
    } else {
        if f1 < n && !delim_byte(s[f1]) {
            return None;
        }
        e_signed = 0;
    }
    let m = combined_digits(s, d0, d1, f0, f1);
    let t: i64 = e_signed + 6 - (flen as i64);
    match scale_value(m, t) {
        None => None,
        Some(mag) => {
            if neg {
                Some(-mag)
            } else {
                Some(mag)
            }
        },
    }
}

/// The value written by the integer digits `s[d0..d1]` followed by
/// the fraction digits `s[f0..f1]`.
fn combined_digits(s: &[u8], d0: usize, d1: usize, f0: usize, f1: usize) -> (m: u128)
    requires
        d0 <= d1 <= s@.len(),
        f0 <= f1 <= s@.len(),
        d1 - d0 <= 17,
        f1 - f0 <= 17,
        forall|k: int| d0 <= k < d1 ==> is_digit(#[trigger] s@[k]),
        forall|k: int| f0 <= k < f1 ==> is_digit(#[trigger] s@[k]),
    ensures
        m == dec_val(s@.subrange(d0 as int, d1 as int) + s@.subrange(f0 as int, f1 as int)),
        m < pow10(34),
{
    proof {
        assert(pow10(34) == 0x1ED09BEAD87C0378D8E6400000000i128) by {
            reveal_with_fuel(pow10, 35);
        }
    }
    let vi = dec_value(s, d0, d1);
    let vf = dec_value(s, f0, f1);
    let pw = pow10_u128(f1 - f0);
    proof {
        lemma_pow10_mono((d1 - d0) as nat, 17);
        lemma_pow10_mono((f1 - f0) as nat, 17);
        lemma_pow10_add(17, 17);
        assert((vi as int) * (pw as int) < pow10(17) * pow10(17)) by (nonlinear_arith)
            requires
                0 <= vi as int,
                (vi as int) < pow10(17),
                0 < pw as int,
                (pw as int) <= pow10(17),
        {
        }
        lemma_dec_val_append(
            s@.subrange(d0 as int, d1 as int),
            s@.subrange(f0 as int, f1 as int),
        );
        lemma_dec_val_bound(
            s@.subrange(d0 as int, d1 as int) + s@.subrange(f0 as int, f1 as int),
        );
        lemma_pow10_mono(
            (s@.subrange(d0 as int, d1 as int) + s@.subrange(f0 as int, f1 as int)).len() as nat,
            34,
        );
    }
    vi * pw + vf
}

/// Scales a digit value into the signed 64-bit microdegree range, or
/// reports that it falls outside it.
fn scale_value(m: u128, t: i64) -> (r: Option<i64>)
    requires
        m < pow10(34),
        -1010 <= t <= 1005,
    ensures
        r matches Some(v) ==> 0 <= v == scaled_mag(m as int, t as int)
            <= 0x7FFF_FFFF_FFFF_FFFF,
        r is None ==> scaled_mag(m as int, t as int) > 0x7FFF_FFFF_FFFF_FFFF,
{
    proof {
        assert(pow10(18) == 1000000000000000000i128 && pow10(19) == 10000000000000000000i128)
            by {
            reveal_with_fuel(pow10, 20);
        }
    }
    if t >= 0 {
        if m == 0 {
            return Some(0);
        }
        if m > 0x7FFF_FFFF_FFFF_FFFFu128 {
            proof {
                lemma_pow10_mono(0, t as nat);
                assert(scaled_mag(m as int, t as int) >= (m as int) * 1) by (nonlinear_arith)
                    requires
                        scaled_mag(m as int, t as int) == (m as int) * pow10(t as nat),
                        pow10(t as nat) >= 1,
                        (m as int) >= 0,
                {
                }
            }
            return None;
        }
        if t >= 19 {
            proof {
                lemma_pow10_mono(19, t as nat);
                assert(scaled_mag(m as int, t as int) >= 1 * pow10(t as nat)) by (nonlinear_arith)
                    requires
                        scaled_mag(m as int, t as int) == (m as int) * pow10(t as nat),
                        pow10(t as nat) >= 1,
                        (m as int) >= 1,
                {
                }
            }
            return None;
        }
        let p = pow10_u128(t as usize);
        proof {
            lemma_pow10_mono(0, t as nat);
            lemma_pow10_mono(t as nat, 18);
            assert((m as int) * (p as int) <= 0x7FFF_FFFF_FFFF_FFFF * pow10(18))
                by (nonlinear_arith)
                requires
                    0 <= m as int,
                    (m as int) <= 0x7FFF_FFFF_FFFF_FFFF,
                    0 < p as int,
                    (p as int) <= pow10(18),
            {
            }
        }
        let mag = m * p;
        if mag > 0x7FFF_FFFF_FFFF_FFFFu128 {
            None
        } else {
            Some(mag as i64)
        }
    } else {
        let k = (-t) as usize;
        if k >= 35 {
            proof {
                lemma_pow10_mono(0, 34);
                lemma_pow10_mono(0, k as nat);
                lemma_pow10_mono(35, k as nat);
                assert(pow10(35) == 10 * pow10(34));
                lemma_basic_div_specific_divisor(pow10(k as nat));
            }
            return Some(0);
        }
        let p = pow10_u128(k);
        proof {
            lemma_pow10_mono(0, k as nat);
        }
        let mag = m / p;
        if mag > 0x7FFF_FFFF_FFFF_FFFFu128 {
            None
        } else {
            Some(mag as i64)
        }
    }
}

/// The microdegree value of the top-level member that `key` names.
fn parse_field_micro(s: &[u8], key: &[u8]) -> (r: Option<i64>)
    requires
        1 <= key@.len(),
    ensures
        r matches Some(v) ==> spec_field_micro(s@, key@) == Some(v as int),
        r is None ==> spec_field_micro(s@, key@) is None,
{
    match find_key(s, key) {
        None => None,
        Some(i) => {
            let n = s.len();
            proof {
                assert(i + key@.len() <= n);
            }
            let colon = skip_ws(s, i + key.len());
            let j = skip_ws(s, colon + 1);
            parse_number_micro(s, j)
        },
    }
}

/// Reads the provider's response body: the coordinate pair exactly
/// when the top-level `lat` and `lon` members both carry a number the
/// model represents, and nothing on any malformed or incomplete body.
pub fn parse_location_payload(body: &[u8]) -> (r: Option<Coordinates>)
    ensures
        r matches Some(c) ==> spec_location(body@) == Some(
            (c.lat_micro as int, c.lon_micro as int),
        ),
        r is None ==> spec_location(body@) is None,
{
    let lat_pat: Vec<u8> = vec![34u8, 108u8, 97u8, 116u8, 34u8];
    let lon_pat: Vec<u8> = vec![34u8, 108u8, 111u8, 110u8, 34u8];
    proof {
        assert(lat_pat@ =~= lat_key());
        assert(lon_pat@ =~= lon_key());
    }
    let lat = parse_field_micro(body, lat_pat.as_slice());
    let lon = parse_field_micro(body, lon_pat.as_slice());
    match (lat, lon) {
        (Some(la), Some(lo)) => Some(Coordinates { lat_micro: la, lon_micro: lo }),
        _ => None,
    }
}

} // verus!
