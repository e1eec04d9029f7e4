//! Decimal numbers in text: reading them as `str::parse` does for `u32`,
//! `u64` and `i64` (an optional sign, then digits only, within range), and
//! writing an `i64` as `to_string` does; and telling which texts read as a
//! floating-point number.
use vstd::prelude::*;
use crate::text::{chars_of, concat, decimal, decimal_string, digit_char};

verus! {

/// `c` is an ASCII digit.
pub open spec fn is_digit(c: char) -> bool {
    '0' <= c && c <= '9'
}

/// `s` is one or more ASCII digits.
pub open spec fn all_digits(s: Seq<char>) -> bool {
    s.len() > 0 && forall|i: int| 0 <= i < s.len() ==> is_digit(#[trigger] s[i])
}

/// The value of a string of digits.
pub open spec fn digits_value(s: Seq<char>) -> nat
    decreases s.len(),
{
    if s.len() == 0 {
        0
    } else {
        digits_value(s.drop_last()) * 10 + (s.last() as nat - '0' as nat) as nat
    }
}

/// The value of an unsigned decimal with an optional `+`.
pub open spec fn unsigned_value(s: Seq<char>) -> Option<nat> {
    let d = if s.len() > 0 && s[0] == '+' {
        s.drop_first()
    } else {
        s
    };
    if all_digits(d) {
        Some(digits_value(d))
    } else {
        None
    }
}

/// What `s.parse::<u32>()` gives, as an option.
pub open spec fn parse_u32_spec(s: Seq<char>) -> Option<u32> {
    match unsigned_value(s) {
        Some(v) => if v <= u32::MAX {
            Some(v as u32)
        } else {
            None
        },
        None => None,
    }
}

/// What `s.parse::<u64>()` gives, as an option.
pub open spec fn parse_u64_spec(s: Seq<char>) -> Option<u64> {
    match unsigned_value(s) {
        Some(v) => if v <= u64::MAX {
            Some(v as u64)
        } else {
            None
        },
        None => None,
    }
}

/// What `s.parse::<i64>()` gives, as an option.
pub open spec fn parse_i64_spec(s: Seq<char>) -> Option<i64> {
    if s.len() > 0 && s[0] == '-' {
        let d = s.drop_first();
        if all_digits(d) && digits_value(d) <= 0x8000_0000_0000_0000 {
            Some((0 - digits_value(d)) as i64)
        } else {
            None
        }
    } else {
        match unsigned_value(s) {
            Some(v) => if v <= i64::MAX {
                Some(v as i64)
            } else {
                None
            },
            None => None,
        }
    }
}

/// The text `n.to_string()` gives for an `i64`.
pub open spec fn signed_decimal(n: int) -> Seq<char> {
    if n < 0 {
        seq!['-'] + decimal((0 - n) as nat)
    } else {
        decimal(n as nat)
    }
}

proof fn lemma_digits_value_grows(s: Seq<char>, k: int)
    requires
        0 <= k <= s.len(),
    ensures
        digits_value(s.take(k)) <= digits_value(s),
    decreases s.len() - k,
{
    if k < s.len() {
        lemma_digits_value_grows(s.drop_last(), k);
        assert(s.drop_last().take(k) =~= s.take(k));
    } else {
        assert(s.take(k) =~= s);
    }
}

/// The value of the digits `v[from..]`, or `None` where one is not a digit,
/// there are none, or the value exceeds `limit`.
fn digits_up_to(v: &Vec<char>, from: usize, limit: u64) -> (r: Option<u64>)
    requires
        from <= v@.len(),
        limit >= 9,
    ensures
        ({
            let d = v@.skip(from as int);
            match r {
                Some(x) => all_digits(d) && x == digits_value(d) && x <= limit,
                None => !(all_digits(d) && digits_value(d) <= limit),
            }
        }),
{
    let ghost d = v@.skip(from as int);
    if from == v.len() {
        return None;
    }
    let mut acc: u64 = 0;
    let mut i: usize = from;
    while i < v.len()
        invariant
            from <= i <= v@.len(),
            d == v@.skip(from as int),
            forall|k: int| 0 <= k < i - from ==> is_digit(#[trigger] d[k]),
            acc == digits_value(d.take(i - from)),
            acc <= limit,
            limit >= 9,
        decreases v@.len() - i,
    {
        let c = v[i];
        assert(d[i - from] == c);
        if !('0' <= c && c <= '9') {
            return None;
        }
        let dv: u64 = (c as u32 - '0' as u32) as u64;
        assert(d.take(i + 1 - from).drop_last() =~= d.take(i - from));
        if acc > (limit - dv) / 10 {
            proof {
                lemma_digits_value_grows(d, i + 1 - from);
                assert(digits_value(d.take(i + 1 - from)) == acc * 10 + dv);
                assert(acc * 10 + dv > limit) by (nonlinear_arith)
                    requires
                        acc > (limit - dv) / 10,
                        limit >= dv,
                        dv >= 0,
                ;
            }
            return None;
        }
        assert(acc * 10 + dv <= limit) by (nonlinear_arith)
            requires
                acc <= (limit - dv) / 10,
                dv <= 9,
                limit >= dv,
        ;
        acc = acc * 10 + dv;
        i = i + 1;
    }
    assert(d.take(i - from) =~= d);
    Some(acc)
}

/// Reads a `u32` as `str::parse` does.
pub fn parse_u32_text(s: &str) -> (r: Option<u32>)
    ensures
        r == parse_u32_spec(s@),
{
    let v = chars_of(s);
    let from: usize = if v.len() > 0 && v[0] == '+' {
        1
    } else {
        0
    };
    assert(v@.skip(from as int) =~= (if v@.len() > 0 && v@[0] == '+' {
        v@.drop_first()
    } else {
        v@
    }));
    match digits_up_to(&v, from, 0xffff_ffff) {
        Some(x) => Some(x as u32),
        None => None,
    }
}

/// Reads a `u64` as `str::parse` does.
pub fn parse_u64_text(s: &str) -> (r: Option<u64>)
    ensures
        r == parse_u64_spec(s@),
{
    let v = chars_of(s);
    let from: usize = if v.len() > 0 && v[0] == '+' {
        1
    } else {
        0
    };
    assert(v@.skip(from as int) =~= (if v@.len() > 0 && v@[0] == '+' {
        v@.drop_first()
    } else {
        v@
    }));
    digits_up_to(&v, from, 0xffff_ffff_ffff_ffff)
}

/// Reads an `i64` as `str::parse` does.
pub fn parse_i64_text(s: &str) -> (r: Option<i64>)
    ensures
        r == parse_i64_spec(s@),
{
    let v = chars_of(s);
    if v.len() > 0 && v[0] == '-' {
        assert(v@.skip(1) =~= v@.drop_first());
        match digits_up_to(&v, 1, 0x8000_0000_0000_0000) {
            Some(x) => {
                if x == 0x8000_0000_0000_0000 {
                    Some(i64::MIN)
                } else {
                    Some(0 - (x as i64))
                }
            },
            None => None,
        }
    } else {
        let from: usize = if v.len() > 0 && v[0] == '+' {
            1
        } else {
            0
        };
        assert(v@.skip(from as int) =~= (if v@.len() > 0 && v@[0] == '+' {
            v@.drop_first()
        } else {
            v@
        }));
        match digits_up_to(&v, from, 0x7fff_ffff_ffff_ffff) {
            Some(x) => Some(x as i64),
            None => None,
        }
    }
}

/// Writes an `i64` as `to_string` does.
pub fn signed_decimal_string(n: i64) -> (s: String)
    ensures
        s@ == signed_decimal(n as int),
{
    if n < 0 {
        let magnitude: u64 = if n == i64::MIN {
            0x8000_0000_0000_0000
        } else {
            (0 - n) as u64
        };
        let digits = decimal_string(magnitude);
        let r = concat("-", digits.as_str());
        proof {
            reveal_strlit("-");
        }
        r
    } else {
        decimal_string(n as u64)
    }
}

proof fn lemma_digit_char(d: nat)
    requires
        d < 10,
    ensures
        is_digit(digit_char(d)),
        digit_char(d) as nat - '0' as nat == d,
{
}

/// The digits of a decimal are digits.
pub proof fn lemma_decimal_digits(n: nat)
    ensures
        all_digits(decimal(n)),
        digits_value(decimal(n)) == n,
    decreases n,
{
    lemma_digit_char(n % 10);
    let s = decimal(n);
    if n < 10 {
        assert(n % 10 == n);
        assert(s.drop_last() =~= Seq::<char>::empty());
        assert(s.last() == digit_char(n));
        assert(digits_value(s) == digits_value(s.drop_last()) * 10 + (s.last() as nat - '0' as nat) as nat);
    } else {
        lemma_decimal_digits(n / 10);
        assert((n / 10) * 10 + n % 10 == n) by (nonlinear_arith);
        assert(s.drop_last() =~= decimal(n / 10));
        assert(s.last() == digit_char(n % 10));
        assert(digits_value(s) == digits_value(s.drop_last()) * 10 + (s.last() as nat - '0' as nat) as nat);
        assert forall|i: int| 0 <= i < s.len() implies is_digit(#[trigger] s[i]) by {
            if i < s.len() - 1 {
                assert(s[i] == decimal(n / 10)[i]);
            }
        }
    }
}

/// Reading back the text of a `u32` gives the number.
pub proof fn lemma_parse_u32_decimal(n: u32)
    ensures
        parse_u32_spec(decimal(n as nat)) == Some(n),
{
    lemma_decimal_digits(n as nat);
}

/// Reading back the text of an `i64` gives the number.
pub proof fn lemma_parse_i64_decimal(n: i64)
    ensures
        parse_i64_spec(signed_decimal(n as int)) == Some(n),
{
    if n < 0 {
        let m = (0 - n) as nat;
        lemma_decimal_digits(m);
        let s = signed_decimal(n as int);
        assert(s.drop_first() =~= decimal(m));
    } else {
        lemma_decimal_digits(n as nat);
        assert(is_digit(decimal(n as nat)[0]));
    }
}

/// `s` without one leading `+` or `-`.
pub open spec fn unsigned_part(s: Seq<char>) -> Seq<char> {
    if s.len() > 0 && (s[0] == '+' || s[0] == '-') {
        s.drop_first()
    } else {
        s
    }
}

/// `s` is the word `lower`, each letter written small or as in `upper`.
pub open spec fn caseless_eq(s: Seq<char>, lower: Seq<char>, upper: Seq<char>) -> bool {
    &&& s.len() == lower.len()
    &&& lower.len() == upper.len()
    &&& forall|i: int| 0 <= i < s.len() ==> #[trigger] s[i] == lower[i] || s[i] == upper[i]
}

/// Digits with at most one `.` among them, and at least one digit.
pub open spec fn is_mantissa(m: Seq<char>) -> bool {
    &&& forall|i: int| 0 <= i < m.len() ==> is_digit(#[trigger] m[i]) || m[i] == '.'
    &&& forall|i: int, j: int| 0 <= i < j < m.len() && #[trigger] m[i] == '.' ==> #[trigger] m[j] != '.'
    &&& exists|i: int| 0 <= i < m.len() && is_digit(#[trigger] m[i])
}

/// An exponent after its `e`: an optional sign, then one or more digits.
pub open spec fn is_exponent(x: Seq<char>) -> bool {
    all_digits(unsigned_part(x))
}

/// `e` or `E`.
pub open spec fn is_exponent_mark(c: char) -> bool {
    c == 'e' || c == 'E'
}

/// A mantissa, then optionally an exponent mark and an exponent.
pub open spec fn is_decimal_number(b: Seq<char>) -> bool {
    ||| is_mantissa(b)
    ||| exists|k: int|
        0 <= k < b.len() && is_exponent_mark(#[trigger] b[k]) && is_mantissa(b.take(k)) && is_exponent(
            b.skip(k + 1),
        )
}

/// `s` is a text that `s.parse::<f64>()` accepts: std's grammar for
/// floating-point numbers (an optional sign, then `inf`, `infinity`, `nan`
/// or a decimal number with an optional exponent), letters in either case,
/// no surrounding white space.
pub open spec fn float_text(s: Seq<char>) -> bool {
    let b = unsigned_part(s);
    ||| caseless_eq(b, "inf"@, "INF"@)
    ||| caseless_eq(b, "infinity"@, "INFINITY"@)
    ||| caseless_eq(b, "nan"@, "NAN"@)
    ||| is_decimal_number(b)
}

/// Whether `v[lo..hi]` is a mantissa.
fn mantissa_check(v: &Vec<char>, lo: usize, hi: usize) -> (r: bool)
    requires
        lo <= hi <= v@.len(),
    ensures
        r == is_mantissa(v@.subrange(lo as int, hi as int)),
{
    let ghost m = v@.subrange(lo as int, hi as int);
    let mut i: usize = lo;
    let mut dot = false;
    let mut digit = false;
    while i < hi
        invariant
            lo <= i <= hi,
            hi <= v@.len(),
            m == v@.subrange(lo as int, hi as int),
            forall|k: int| 0 <= k < i - lo ==> is_digit(#[trigger] m[k]) || m[k] == '.',
            forall|k: int, l: int| 0 <= k < l < i - lo && #[trigger] m[k] == '.' ==> #[trigger] m[l] != '.',
            dot == exists|k: int| 0 <= k < i - lo && #[trigger] m[k] == '.',
            digit == exists|k: int| 0 <= k < i - lo && is_digit(#[trigger] m[k]),
        decreases hi - i,
    {
        let c = v[i];
        assert(m[i - lo] == c);
        if c == '.' {
            if dot {
                let ghost k = choose|k: int| 0 <= k < i - lo && #[trigger] m[k] == '.';
                assert(m[k] == '.' && m[i - lo] == '.');
                return false;
            }
            dot = true;
        } else if '0' <= c && c <= '9' {
            digit = true;
        } else {
            return false;
        }
        i = i + 1;
    }
    digit
}

/// Whether `v[lo..hi]` is an exponent.
fn exponent_check(v: &Vec<char>, lo: usize, hi: usize) -> (r: bool)
    requires
        lo <= hi <= v@.len(),
    ensures
        r == is_exponent(v@.subrange(lo as int, hi as int)),
{
    let ghost x = v@.subrange(lo as int, hi as int);
    let start: usize = if lo < hi && (v[lo] == '+' || v[lo] == '-') {
        lo + 1
    } else {
        lo
    };
    let ghost d = v@.subrange(start as int, hi as int);
    assert(unsigned_part(x) =~= d);
    if start == hi {
        return false;
    }
    let mut i: usize = start;
    while i < hi
        invariant
            start <= i <= hi,
            hi <= v@.len(),
            d == v@.subrange(start as int, hi as int),
            x == v@.subrange(lo as int, hi as int),
            unsigned_part(x) == d,
            forall|k: int| 0 <= k < i - start ==> is_digit(#[trigger] d[k]),
        decreases hi - i,
    {
        let c = v[i];
        assert(d[i - start] == c);
        if !('0' <= c && c <= '9') {
            return false;
        }
        i = i + 1;
    }
    true
}

/// Whether `v[lo..hi]` is the word `lower`, each letter small or as in `upper`.
fn caseless_check(v: &Vec<char>, lo: usize, hi: usize, lower: &Vec<char>, upper: &Vec<char>) -> (r: bool)
    requires
        lo <= hi <= v@.len(),
    ensures
        r == caseless_eq(v@.subrange(lo as int, hi as int), lower@, upper@),
{
    let ghost s = v@.subrange(lo as int, hi as int);
    if hi - lo != lower.len() || lower.len() != upper.len() {
        return false;
    }
    let mut i: usize = 0;
    while i < lower.len()
        invariant
            i <= lower@.len(),
            s == v@.subrange(lo as int, hi as int),
            hi - lo == lower@.len(),
            lower@.len() == upper@.len(),
            hi <= v@.len(),
            forall|k: int| 0 <= k < i ==> #[trigger] s[k] == lower@[k] || s[k] == upper@[k],
        decreases lower@.len() - i,
    {
        let c = v[lo + i];
        assert(s[i as int] == c);
        if c != lower[i] && c != upper[i] {
            return false;
        }
        i = i + 1;
    }
    true
}

/// With no exponent mark in `b`, it is a decimal number exactly when it is
/// a mantissa.
proof fn lemma_no_exponent(b: Seq<char>)
    requires
        forall|j: int| 0 <= j < b.len() ==> !is_exponent_mark(#[trigger] b[j]),
    ensures
        is_decimal_number(b) == is_mantissa(b),
{
}

/// With its first exponent mark at `k`, `b` is a decimal number exactly
/// when a mantissa comes before the mark and an exponent after it.
proof fn lemma_first_exponent(b: Seq<char>, k: int)
    requires
        0 <= k < b.len(),
        is_exponent_mark(b[k]),
        forall|j: int| 0 <= j < k ==> !is_exponent_mark(#[trigger] b[j]),
    ensures
        is_decimal_number(b) == (is_mantissa(b.take(k)) && is_exponent(b.skip(k + 1))),
{
    if is_mantissa(b) {
        assert(is_digit(b[k]) || b[k] == '.');
    }
    if exists|k2: int|
        0 <= k2 < b.len() && is_exponent_mark(#[trigger] b[k2]) && is_mantissa(b.take(k2)) && is_exponent(
            b.skip(k2 + 1),
        ) {
        let k2 = choose|k2: int|
            0 <= k2 < b.len() && is_exponent_mark(#[trigger] b[k2]) && is_mantissa(b.take(k2)) && is_exponent(
                b.skip(k2 + 1),
            );
        if k2 > k {
            assert(b.take(k2)[k] == b[k]);
        }
        assert(k2 == k);
    }
}

/// Whether `s.parse::<f64>()` accepts `s` (see `float_text`).
pub fn is_float_text(s: &str) -> (r: bool)
    ensures
        r == float_text(s@),
{
    let v = chars_of(s);
    let n = v.len();
    let from: usize = if n > 0 && (v[0] == '+' || v[0] == '-') {
        1
    } else {
        0
    };
    let ghost b = unsigned_part(s@);
    assert(v@.subrange(from as int, n as int) =~= b);
    let inf_lower = chars_of("inf");
    let inf_upper = chars_of("INF");
    let infinity_lower = chars_of("infinity");
    let infinity_upper = chars_of("INFINITY");
    let nan_lower = chars_of("nan");
    let nan_upper = chars_of("NAN");
    if caseless_check(&v, from, n, &inf_lower, &inf_upper) || caseless_check(
        &v,
        from,
        n,
        &infinity_lower,
        &infinity_upper,
    ) || caseless_check(&v, from, n, &nan_lower, &nan_upper) {
        return true;
    }
    let mut k: usize = from;
    while k < n && v[k] != 'e' && v[k] != 'E'
        invariant
            from <= k <= n,
            n == v@.len(),
            b == v@.subrange(from as int, n as int),
            forall|j: int| 0 <= j < k - from ==> !is_exponent_mark(#[trigger] b[j]),
        decreases n - k,
    {
        assert(b[k - from] == v@[k as int]);
        k = k + 1;
    }
    if k == n {
        proof {
            lemma_no_exponent(b);
        }
        mantissa_check(&v, from, n)
    } else {
        proof {
            assert(b[k - from] == v@[k as int]);
            lemma_first_exponent(b, k - from);
            assert(b.take(k - from) =~= v@.subrange(from as int, k as int));
            assert(b.skip(k - from + 1) =~= v@.subrange(k + 1, n as int));
        }
        mantissa_check(&v, from, k) && exponent_check(&v, k + 1, n)
    }
}

} // verus!
