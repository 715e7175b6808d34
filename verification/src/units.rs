//! Parsing of human-readable size and time strings such as `"128MB"` or
//! `"500ms"` into plain integers.
//!
//! A readable value is a decimal number followed by a unit suffix.  Size
//! units are powers of 1024; time units scale to milliseconds.  Unit
//! matching ignores ASCII case.

use vstd::prelude::*;

verus! {

/// Why a size/time string was rejected.
#[derive(Debug, Clone, Copy, PartialEq, Eq, Structural)]
pub enum ParseError {
    /// The numeric prefix is missing or is not a well-formed decimal number.
    BadNumber,
    /// The unit suffix is not one of the recognized size or time units.
    UnknownUnit,
}

pub const KB: u64 = 1024;
pub const MB: u64 = 1024 * KB;
pub const GB: u64 = 1024 * MB;
pub const TB: u64 = 1024 * GB;
pub const PB: u64 = 1024 * TB;

pub const MS: u64 = 1;
pub const SECOND: u64 = 1000 * MS;
pub const MINUTE: u64 = 60 * SECOND;
pub const HOUR: u64 = 60 * MINUTE;

pub open spec fn is_ascii_digit(c: char) -> bool {
    '0' <= c <= '9'
}

pub open spec fn is_number_char(c: char) -> bool {
    is_ascii_digit(c) || c == '.'
}

pub open spec fn digit_val(c: char) -> int {
    c as int - '0' as int
}

/// ASCII case folding of a single character: uppercase letters map to the
/// scalar value of their lowercase form, everything else to its own value.
pub open spec fn fold_char(c: char) -> int {
    if 'A' <= c <= 'Z' {
        c as int + 32
    } else {
        c as int
    }
}

/// Length of the leading run of digits and dots.
pub open spec fn numeric_prefix_len(s: Seq<char>) -> nat
    decreases s.len(),
{
    if s.len() == 0 || !is_number_char(s[0]) {
        0
    } else {
        1 + numeric_prefix_len(s.drop_first())
    }
}

pub proof fn lemma_numeric_prefix_len_characterize(s: Seq<char>, p: int)
    requires
        0 <= p <= s.len(),
        forall|i: int| 0 <= i < p ==> is_number_char(#[trigger] s[i]),
        p < s.len() ==> !is_number_char(s[p]),
    ensures
        numeric_prefix_len(s) == p,
    decreases s.len(),
{
    if s.len() == 0 {
    } else if p == 0 {
    } else {
        assert(is_number_char(s[0]));
        let t = s.drop_first();
        assert(forall|i: int| 0 <= i < p - 1 ==> #[trigger] t[i] == s[i + 1]);
        lemma_numeric_prefix_len_characterize(t, p - 1);
    }
}

pub open spec fn dot_count(s: Seq<char>) -> nat
    decreases s.len(),
{
    if s.len() == 0 {
        0
    } else {
        dot_count(s.drop_last()) + if s.last() == '.' {
            1nat
        } else {
            0nat
        }
    }
}

pub open spec fn digit_count(s: Seq<char>) -> nat
    decreases s.len(),
{
    if s.len() == 0 {
        0
    } else {
        digit_count(s.drop_last()) + if is_ascii_digit(s.last()) {
            1nat
        } else {
            0nat
        }
    }
}

/// A well-formed decimal number: at least one digit and at most one dot,
/// drawn entirely from digits and dots.
pub open spec fn wf_number(s: Seq<char>) -> bool {
    &&& digit_count(s) >= 1
    &&& dot_count(s) <= 1
    &&& forall|i: int| 0 <= i < s.len() ==> is_number_char(#[trigger] s[i])
}

/// Index of the first dot, or the length when there is none.
pub open spec fn dot_pos(s: Seq<char>) -> nat
    decreases s.len(),
{
    if s.len() == 0 || s[0] == '.' {
        0
    } else {
        1 + dot_pos(s.drop_first())
    }
}

pub proof fn lemma_dot_pos_characterize(s: Seq<char>, p: int)
    requires
        0 <= p <= s.len(),
        forall|i: int| 0 <= i < p ==> #[trigger] s[i] != '.',
        p < s.len() ==> s[p] == '.',
    ensures
        dot_pos(s) == p,
    decreases s.len(),
{
    if s.len() == 0 {
    } else if p == 0 {
    } else {
        let t = s.drop_first();
        assert(forall|i: int| 0 <= i < p - 1 ==> #[trigger] t[i] == s[i + 1]);
        lemma_dot_pos_characterize(t, p - 1);
    }
}

/// The integer-part digits of a well-formed number: everything before the
/// first dot.
pub open spec fn int_digits(s: Seq<char>) -> Seq<char> {
    s.take(dot_pos(s) as int)
}

/// The fraction digits of a well-formed number: everything after the first
/// dot (empty when there is no dot).
pub open spec fn frac_digits(s: Seq<char>) -> Seq<char> {
    if dot_pos(s) == s.len() {
        Seq::empty()
    } else {
        s.skip(dot_pos(s) as int + 1)
    }
}

/// Value of a digit string read as a decimal integer.
pub open spec fn digits_val(s: Seq<char>) -> int
    decreases s.len(),
{
    if s.len() == 0 {
        0
    } else {
        digits_val(s.drop_last()) * 10 + digit_val(s.last())
    }
}

/// `floor(0.f * scale)` for a fraction digit string `f`, computed by the
/// exact long-division recurrence
/// `floor((d + x) / 10) == floor((d + floor(x)) / 10)` for integer `d`.
pub open spec fn frac_scaled(s: Seq<char>, scale: int) -> int
    decreases s.len(),
{
    if s.len() == 0 {
        0
    } else {
        (digit_val(s[0]) * scale + frac_scaled(s.drop_first(), scale)) / 10
    }
}

/// The exact scaled value of a parsed number: integer part times the unit
/// scale, plus the floor of the fraction part times the unit scale.
pub open spec fn scaled_value(num: Seq<char>, scale: int) -> int {
    digits_val(int_digits(num)) * scale + frac_scaled(frac_digits(num), scale)
}

/// Scale factor of a unit suffix, matched without regard to ASCII case;
/// `None` for anything unrecognized (including an empty suffix).
pub open spec fn unit_scale(u: Seq<char>) -> Option<int> {
    if u.len() == 2 && fold_char(u[0]) == 'k' as int && fold_char(u[1]) == 'b' as int {
        Some(KB as int)
    } else if u.len() == 2 && fold_char(u[0]) == 'm' as int && fold_char(u[1]) == 'b' as int {
        Some(MB as int)
    } else if u.len() == 2 && fold_char(u[0]) == 'g' as int && fold_char(u[1]) == 'b' as int {
        Some(GB as int)
    } else if u.len() == 2 && fold_char(u[0]) == 't' as int && fold_char(u[1]) == 'b' as int {
        Some(TB as int)
    } else if u.len() == 2 && fold_char(u[0]) == 'p' as int && fold_char(u[1]) == 'b' as int {
        Some(PB as int)
    } else if u.len() == 2 && fold_char(u[0]) == 'm' as int && fold_char(u[1]) == 's' as int {
        Some(MS as int)
    } else if u.len() == 1 && fold_char(u[0]) == 's' as int {
        Some(SECOND as int)
    } else if u.len() == 1 && fold_char(u[0]) == 'm' as int {
        Some(MINUTE as int)
    } else if u.len() == 1 && fold_char(u[0]) == 'h' as int {
        Some(HOUR as int)
    } else {
        None
    }
}

/// 10 raised to `n`.
pub open spec fn pow10(n: nat) -> nat
    decreases n,
{
    if n == 0 {
        1
    } else {
        10 * pow10((n - 1) as nat)
    }
}

pub proof fn lemma_pow10_pos(n: nat)
    ensures
        pow10(n) >= 1,
    decreases n,
{
    if n > 0 {
        lemma_pow10_pos((n - 1) as nat);
    }
}

/// A digit string's value decomposes at the front: the first digit
/// weighs a power of ten given by the number of digits after it.
proof fn lemma_digits_val_front(s: Seq<char>)
    requires
        s.len() > 0,
        forall|i: int| 0 <= i < s.len() ==> is_ascii_digit(#[trigger] s[i]),
    ensures
        digits_val(s) == digit_val(s[0]) * pow10((s.len() - 1) as nat) + digits_val(
            s.drop_first(),
        ),
    decreases s.len(),
{
    let d0 = digit_val(s[0]);
    if s.len() == 1 {
        assert(s.drop_first() =~= Seq::<char>::empty());
        assert(s.drop_last() =~= Seq::<char>::empty());
        assert(pow10(0) == 1);
        assert(d0 * 1 == d0) by (nonlinear_arith);
    } else {
        let sp = s.drop_last();
        lemma_digits_val_front(sp);
        assert(s.drop_first().drop_last() =~= sp.drop_first());
        assert(s.drop_first().last() == s.last());
        let p2 = pow10((s.len() - 2) as nat) as int;
        let r = digits_val(sp.drop_first());
        assert(digits_val(s) == (d0 * p2 + r) * 10 + digit_val(s.last()));
        assert(digits_val(s.drop_first()) == r * 10 + digit_val(s.last()));
        assert(pow10((s.len() - 1) as nat) == 10 * p2);
        assert((d0 * p2 + r) * 10 == d0 * (10 * p2) + r * 10) by (nonlinear_arith);
    }
}

/// The long-division recurrence `frac_scaled` computes exactly the
/// floor of the fraction digits times the scale: for digit string `f`
/// of length `k`, `frac_scaled(f, scale) == (f as integer) * scale
/// divided by 10^k, rounded down` — that is, `floor(0.f * scale)`.
pub proof fn lemma_frac_scaled_is_floor(s: Seq<char>, scale: int)
    requires
        forall|i: int| 0 <= i < s.len() ==> is_ascii_digit(#[trigger] s[i]),
        scale >= 0,
    ensures
        frac_scaled(s, scale) == digits_val(s) * scale / (pow10(s.len()) as int),
    decreases s.len(),
{
    if s.len() == 0 {
        assert(pow10(0) == 1);
        assert(0int * scale == 0) by (nonlinear_arith);
        assert(0int / 1 == 0);
    } else {
        let rest = s.drop_first();
        lemma_frac_scaled_is_floor(rest, scale);
        lemma_digits_val_nonneg(rest);
        lemma_digits_val_nonneg(s);
        lemma_pow10_pos((s.len() - 1) as nat);
        let d0 = digit_val(s[0]);
        let p1 = pow10((s.len() - 1) as nat) as int;
        let b = digits_val(rest) * scale;
        vstd::arithmetic::mul::lemma_mul_nonnegative(digits_val(rest), scale);
        vstd::arithmetic::mul::lemma_mul_nonnegative(d0, scale);
        vstd::arithmetic::mul::lemma_mul_nonnegative(d0 * scale, p1);
        // Hoist the integer part of the sum over the denominator.
        vstd::arithmetic::div_mod::lemma_hoist_over_denominator(
            b,
            d0 * scale,
            pow10((s.len() - 1) as nat),
        );
        assert(d0 * scale + b / p1 == (b + d0 * scale * p1) / p1);
        // Divide once by 10^(k-1) and once by 10 in one go.
        let x = b + d0 * scale * p1;
        vstd::arithmetic::div_mod::lemma_div_denominator(x, p1, 10);
        assert(x / p1 / 10 == x / (p1 * 10));
        assert(p1 * 10 == pow10(s.len())) by (nonlinear_arith)
            requires
                pow10(s.len()) == 10 * pow10((s.len() - 1) as nat),
                p1 == pow10((s.len() - 1) as nat),
        ;
        // The shifted numerator is the whole digit string's value.
        lemma_digits_val_front(s);
        assert(digits_val(s) * scale == b + d0 * scale * p1) by (nonlinear_arith)
            requires
                digits_val(s) == d0 * p1 + digits_val(rest),
                b == digits_val(rest) * scale,
        ;
    }
}

/// Clamp a nonnegative mathematical integer into the `i64` range.
pub open spec fn saturate_i64(v: int) -> int {
    if v > i64::MAX {
        i64::MAX as int
    } else {
        v
    }
}

pub proof fn lemma_dot_count_pos(s: Seq<char>, i: int)
    requires
        0 <= i < s.len(),
        s[i] == '.',
    ensures
        dot_count(s) >= 1,
    decreases s.len(),
{
    if i < s.len() - 1 {
        lemma_dot_count_pos(s.drop_last(), i);
    }
}

pub proof fn lemma_dot_count_ge_two(s: Seq<char>, i: int, j: int)
    requires
        0 <= i < j < s.len(),
        s[i] == '.',
        s[j] == '.',
    ensures
        dot_count(s) >= 2,
    decreases s.len(),
{
    if j < s.len() - 1 {
        lemma_dot_count_ge_two(s.drop_last(), i, j);
    } else {
        lemma_dot_count_pos(s.drop_last(), i);
    }
}

pub proof fn lemma_digits_val_nonneg(s: Seq<char>)
    requires
        forall|i: int| 0 <= i < s.len() ==> is_ascii_digit(#[trigger] s[i]),
    ensures
        digits_val(s) >= 0,
    decreases s.len(),
{
    if s.len() > 0 {
        lemma_digits_val_nonneg(s.drop_last());
    }
}

pub proof fn lemma_frac_scaled_nonneg(s: Seq<char>, scale: int)
    requires
        forall|i: int| 0 <= i < s.len() ==> is_ascii_digit(#[trigger] s[i]),
        scale >= 0,
    ensures
        frac_scaled(s, scale) >= 0,
    decreases s.len(),
{
    if s.len() > 0 {
        lemma_frac_scaled_nonneg(s.drop_first(), scale);
    }
}

/// What `parse_readable_int` returns: split the string at the first
/// character that is neither a digit nor a dot, read the prefix as a
/// decimal number, and scale it by the unit suffix, saturating at
/// `i64::MAX`.
pub open spec fn spec_parse_readable_int(s: Seq<char>) -> Result<i64, ParseError> {
    let p = numeric_prefix_len(s) as int;
    let num = s.take(p);
    let unit = s.skip(p);
    if !wf_number(num) {
        Err(ParseError::BadNumber)
    } else {
        match unit_scale(unit) {
            Some(scale) => Ok(saturate_i64(scaled_value(num, scale)) as i64),
            None => Err(ParseError::UnknownUnit),
        }
    }
}

pub proof fn lemma_numeric_prefix_len_props(s: Seq<char>)
    ensures
        numeric_prefix_len(s) <= s.len(),
        forall|i: int| 0 <= i < numeric_prefix_len(s) ==> is_number_char(#[trigger] s[i]),
        numeric_prefix_len(s) < s.len() ==> !is_number_char(s[numeric_prefix_len(s) as int]),
    decreases s.len(),
{
    if s.len() == 0 || !is_number_char(s[0]) {
    } else {
        let t = s.drop_first();
        lemma_numeric_prefix_len_props(t);
        assert(forall|i: int| 0 <= i < t.len() ==> #[trigger] t[i] == s[i + 1]);
        assert forall|i: int| 0 <= i < numeric_prefix_len(s) implies is_number_char(
            #[trigger] s[i],
        ) by {
            if i > 0 {
                assert(is_number_char(t[i - 1]));
            }
        }
    }
}

/// Characters that agree under ASCII case folding are identical when one
/// of them is a digit or a dot.
pub proof fn lemma_fold_eq_number(a: char, b: char)
    requires
        fold_char(a) == fold_char(b),
        is_number_char(a),
    ensures
        a == b,
{
}

/// Unit parsing ignores ASCII case: two strings whose characters agree
/// under ASCII case folding parse to the same result.
pub proof fn lemma_parse_readable_int_case_insensitive(s: Seq<char>, t: Seq<char>)
    requires
        s.len() == t.len(),
        forall|i: int| 0 <= i < s.len() ==> fold_char(#[trigger] s[i]) == fold_char(t[i]),
    ensures
        spec_parse_readable_int(s) == spec_parse_readable_int(t),
{
    let p = numeric_prefix_len(s) as int;
    lemma_numeric_prefix_len_props(s);
    assert forall|i: int| 0 <= i < p implies #[trigger] t[i] == s[i] by {
        lemma_fold_eq_number(s[i], t[i]);
    }
    if p < s.len() && is_number_char(t[p]) {
        lemma_fold_eq_number(t[p], s[p]);
    }
    lemma_numeric_prefix_len_characterize(t, p);
    assert(t.take(p) =~= s.take(p));
    let us = s.skip(p);
    let ut = t.skip(p);
    assert(forall|i: int| 0 <= i < us.len() ==> fold_char(#[trigger] us[i]) == fold_char(ut[i]));
    assert(unit_scale(us) == unit_scale(ut));
}

/// Parse a human-readable size or time string such as `"128MB"` or `"2h"`
/// into the corresponding integer number of bytes or milliseconds.
///
/// The string is split at the first character that is neither an ASCII
/// digit nor a dot; the prefix must be a well-formed decimal number and the
/// rest must be a recognized unit, matched without regard to ASCII case.
/// The exact scaled value is truncated toward zero and saturates at
/// `i64::MAX`.
pub fn parse_readable_int(size: &str) -> (r: Result<i64, ParseError>)
    ensures
        r == spec_parse_readable_int(size@),
{
    let n = size.unicode_len();

    // Find the end of the numeric prefix.
    let mut p: usize = 0;
    loop
        invariant
            0 <= p <= n,
            n == size@.len(),
            forall|i: int| 0 <= i < p ==> is_number_char(#[trigger] size@[i]),
        ensures
            0 <= p <= n,
            forall|i: int| 0 <= i < p ==> is_number_char(#[trigger] size@[i]),
            p < n ==> !is_number_char(size@[p as int]),
        decreases n - p,
    {
        if p == n {
            break;
        }
        let c = size.get_char(p);
        if !((c >= '0' && c <= '9') || c == '.') {
            break;
        }
        p = p + 1;
    }
    let ghost num = size@.take(p as int);
    proof {
        assert(forall|i: int| 0 <= i < p ==> num[i] == size@[i]);
        lemma_numeric_prefix_len_characterize(size@, p as int);
    }

    // Scan the numeric prefix: count digits and dots, remember the first dot.
    let mut digit_cnt: usize = 0;
    let mut dot_cnt: usize = 0;
    let mut dot_at: usize = p;
    let mut i: usize = 0;
    while i < p
        invariant
            0 <= i <= p <= n,
            n == size@.len(),
            num == size@.take(p as int),
            forall|j: int| 0 <= j < p ==> is_number_char(#[trigger] num[j]),
            digit_cnt == digit_count(num.take(i as int)),
            dot_cnt == dot_count(num.take(i as int)),
            digit_cnt <= i,
            dot_cnt <= i,
            dot_cnt == 0 ==> dot_at == p,
            dot_cnt > 0 ==> dot_at < i && num[dot_at as int] == '.',
            forall|j: int| 0 <= j < i && j < dot_at ==> #[trigger] num[j] != '.',
        decreases p - i,
    {
        let c = size.get_char(i);
        proof {
            assert(num.take(i as int + 1).drop_last() =~= num.take(i as int));
            assert(num.take(i as int + 1).last() == num[i as int]);
        }
        if c == '.' {
            if dot_cnt == 0 {
                dot_at = i;
            }
            dot_cnt = dot_cnt + 1;
        } else {
            digit_cnt = digit_cnt + 1;
        }
        i = i + 1;
    }
    proof {
        assert(num.take(p as int) =~= num);
    }
    if digit_cnt == 0 || dot_cnt > 1 {
        return Err(ParseError::BadNumber);
    }
    proof {
        lemma_dot_pos_characterize(num, dot_at as int);
        assert(wf_number(num));
    }

    // Match the unit suffix, ignoring ASCII case.
    let ghost unit = size@.skip(p as int);
    proof {
        assert(forall|i: int| 0 <= i < n - p ==> unit[i] == size@[i + p]);
    }
    let ulen = n - p;
    let scale_opt: Option<u64> = if ulen == 2 {
        let c0 = size.get_char(p);
        let c1 = size.get_char(p + 1);
        if (c0 == 'k' || c0 == 'K') && (c1 == 'b' || c1 == 'B') {
            Some(KB)
        } else if (c0 == 'm' || c0 == 'M') && (c1 == 'b' || c1 == 'B') {
            Some(MB)
        } else if (c0 == 'g' || c0 == 'G') && (c1 == 'b' || c1 == 'B') {
            Some(GB)
        } else if (c0 == 't' || c0 == 'T') && (c1 == 'b' || c1 == 'B') {
            Some(TB)
        } else if (c0 == 'p' || c0 == 'P') && (c1 == 'b' || c1 == 'B') {
            Some(PB)
        } else if (c0 == 'm' || c0 == 'M') && (c1 == 's' || c1 == 'S') {
            Some(MS)
        } else {
            None
        }
    } else if ulen == 1 {
        let c0 = size.get_char(p);
        if c0 == 's' || c0 == 'S' {
            Some(SECOND)
        } else if c0 == 'm' || c0 == 'M' {
            Some(MINUTE)
        } else if c0 == 'h' || c0 == 'H' {
            Some(HOUR)
        } else {
            None
        }
    } else {
        None
    };
    let scale: u64 = match scale_opt {
        Some(s) => s,
        None => {
            return Err(ParseError::UnknownUnit);
        },
    };
    proof {
        assert(unit_scale(unit) == Some(scale as int));
        assert(1 <= scale <= PB);
    }

    // Integer part: accumulate with saturation at i64::MAX.
    let ghost ipart = int_digits(num);
    proof {
        assert(ipart =~= num.take(dot_at as int));
        assert(forall|j: int| 0 <= j < dot_at ==> is_ascii_digit(#[trigger] ipart[j]));
    }
    let mut acc: u64 = 0;
    let mut sat: bool = false;
    let mut i: usize = 0;
    while i < dot_at
        invariant
            0 <= i <= dot_at <= p <= n,
            n == size@.len(),
            num == size@.take(p as int),
            ipart == int_digits(num),
            ipart.len() == dot_at,
            forall|j: int| 0 <= j < dot_at ==> #[trigger] ipart[j] == size@[j],
            forall|j: int| 0 <= j < dot_at ==> is_ascii_digit(#[trigger] ipart[j]),
            acc <= i64::MAX,
            !sat ==> acc == digits_val(ipart.take(i as int)),
            sat ==> digits_val(ipart.take(i as int)) > i64::MAX,
        decreases dot_at - i,
    {
        let c = size.get_char(i);
        proof {
            assert(c == ipart[i as int]);
            assert(is_ascii_digit(c));
        }
        let d: u64 = (c as u32 - '0' as u32) as u64;
        proof {
            assert(ipart.take(i as int + 1).drop_last() =~= ipart.take(i as int));
            assert(ipart.take(i as int + 1).last() == ipart[i as int]);
            lemma_digits_val_nonneg(ipart.take(i as int));
        }
        if sat {
            proof {
                let prev = digits_val(ipart.take(i as int));
                assert(digits_val(ipart.take(i as int + 1)) == prev * 10 + digit_val(
                    ipart[i as int],
                ));
                assert(prev * 10 >= prev) by (nonlinear_arith)
                    requires
                        prev >= 0,
                ;
            }
        } else {
            let wide: u128 = acc as u128 * 10 + d as u128;
            if wide > i64::MAX as u128 {
                sat = true;
            } else {
                acc = wide as u64;
            }
        }
        i = i + 1;
    }
    proof {
        assert(ipart.take(dot_at as int) =~= ipart);
    }

    // Fraction part: exact long division by powers of ten.
    let ghost fpart = frac_digits(num);
    let fstart: usize = if dot_at == p {
        p
    } else {
        dot_at + 1
    };
    let flen: usize = p - fstart;
    proof {
        if dot_at == p {
            assert(fpart =~= Seq::<char>::empty());
        } else {
            assert(fpart =~= num.skip(dot_at as int + 1));
        }
        assert(fpart.len() == flen);
        assert(forall|j: int| 0 <= j < flen ==> #[trigger] fpart[j] == size@[fstart + j]);
        assert forall|j: int| 0 <= j < flen implies is_ascii_digit(#[trigger] fpart[j]) by {
            assert(fpart[j] == num[dot_at + 1 + j]);
            assert(is_number_char(num[dot_at + 1 + j]));
            if num[dot_at + 1 + j] == '.' {
                lemma_dot_count_ge_two(num, dot_at as int, dot_at + 1 + j);
            }
        }
    }
    let mut t: u64 = 0;
    let mut j: usize = flen;
    while j > 0
        invariant
            0 <= j <= flen,
            flen == fpart.len(),
            fstart + flen <= n,
            n == size@.len(),
            forall|k: int| 0 <= k < flen ==> #[trigger] fpart[k] == size@[fstart + k],
            forall|k: int| 0 <= k < flen ==> is_ascii_digit(#[trigger] fpart[k]),
            1 <= scale <= PB,
            t == frac_scaled(fpart.skip(j as int), scale as int),
            t <= scale,
        decreases j,
    {
        j = j - 1;
        let c = size.get_char(fstart + j);
        proof {
            assert(c == fpart[j as int]);
            assert(is_ascii_digit(c));
        }
        let d: u64 = (c as u32 - '0' as u32) as u64;
        proof {
            let tail = fpart.skip(j as int);
            assert(tail[0] == fpart[j as int]);
            assert(tail.drop_first() =~= fpart.skip(j as int + 1));
            assert(d * scale <= 9 * 0x4_0000_0000_0000_u64) by (nonlinear_arith)
                requires
                    d <= 9,
                    scale <= 0x4_0000_0000_0000_u64,
            ;
            assert(d * scale + t <= 10 * scale) by (nonlinear_arith)
                requires
                    d <= 9,
                    t <= scale,
                    scale >= 0,
            ;
        }
        t = (d * scale + t) / 10;
    }
    proof {
        assert(fpart.skip(0) =~= fpart);
    }

    // Combine, saturating at i64::MAX.
    proof {
        assert(acc as u128 * scale as u128 <= 0x7fff_ffff_ffff_ffff_u128 * 0x4_0000_0000_0000_u128)
            by (nonlinear_arith)
            requires
                acc <= 0x7fff_ffff_ffff_ffff_u128,
                scale <= 0x4_0000_0000_0000_u128,
        ;
    }
    let total: u128 = acc as u128 * scale as u128 + t as u128;
    proof {
        let dv = digits_val(ipart);
        let fs = frac_scaled(fpart, scale as int);
        lemma_digits_val_nonneg(ipart);
        lemma_frac_scaled_nonneg(fpart, scale as int);
        if sat {
            assert(dv * scale >= dv) by (nonlinear_arith)
                requires
                    scale >= 1,
                    dv >= 0,
            ;
        } else {
            assert(total == dv * scale + fs);
        }
    }
    if sat || total > i64::MAX as u128 {
        Ok(i64::MAX)
    } else {
        Ok(total as i64)
    }
}

} // verus!
