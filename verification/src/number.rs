//! Decimal numbers: reading them from text and writing them back, as whole
//! numbers or with a fixed count of fractional digits.

use vstd::prelude::*;

verus! {

/// Whether `c` is one of `0` to `9`.
pub open spec fn is_digit(c: char) -> bool {
    0x30 <= c as u32 <= 0x39
}

/// The value of the digit `c`; 0 for any other character.
pub open spec fn digit_value(c: char) -> nat {
    if is_digit(c) {
        (c as u32 - 0x30) as nat
    } else {
        0
    }
}

/// Whether `s` holds digits only.
pub open spec fn all_digits(s: Seq<char>) -> bool {
    forall|i: int| 0 <= i < s.len() ==> is_digit(#[trigger] s[i])
}

/// The number that the digits of `s` write in base ten.
pub open spec fn digits_value(s: Seq<char>) -> nat
    decreases s.len(),
{
    if s.len() == 0 {
        0
    } else {
        digits_value(s.drop_last()) * 10 + digit_value(s.last())
    }
}

/// What a non-empty run of digits stands for, when it fits in 64 bits.
pub open spec fn natural(s: Seq<char>) -> Option<u64> {
    if s.len() > 0 && all_digits(s) && digits_value(s) <= u64::MAX {
        Some(digits_value(s) as u64)
    } else {
        None
    }
}

/// The unsigned number that `s` writes: digits, with an optional `+` in
/// front. Anything else, and any number above `u64::MAX`, is no number.
pub open spec fn u64_of(s: Seq<char>) -> Option<u64> {
    if s.len() > 0 && s[0] == '+' {
        natural(s.drop_first())
    } else {
        natural(s)
    }
}

/// The signed number that `s` writes: digits, with an optional `+` or `-` in
/// front. Anything else, and any number outside of `i64`, is no number.
pub open spec fn i64_of(s: Seq<char>) -> Option<i64> {
    if s.len() > 0 && s[0] == '-' {
        match natural(s.drop_first()) {
            Some(m) if m <= 0x8000_0000_0000_0000 => Some((-(m as int)) as i64),
            _ => None,
        }
    } else {
        match u64_of(s) {
            Some(m) if m <= i64::MAX => Some(m as i64),
            _ => None,
        }
    }
}

/// A longer run of digits never writes a smaller number than one of its prefixes.
pub proof fn lemma_digits_prefix(s: Seq<char>, k: int)
    requires
        0 <= k <= s.len(),
    ensures
        digits_value(s.take(k)) <= digits_value(s),
    decreases s.len() - k,
{
    if k == s.len() {
        assert(s.take(k) == s);
    } else {
        assert(s.drop_last().take(k) == s.take(k));
        lemma_digits_prefix(s.drop_last(), k);
    }
}

/// Reads the digits `s[start..]`.
fn parse_digits(s: &[char], start: usize) -> (r: Option<u64>)
    requires
        start <= s.len(),
    ensures
        r == natural(s@.subrange(start as int, s.len() as int)),
{
    let ghost body = s@.subrange(start as int, s.len() as int);
    if start >= s.len() {
        return None;
    }
    let mut acc: u64 = 0;
    let mut i: usize = start;
    assert(body.take(0) == Seq::<char>::empty());
    while i < s.len()
        invariant
            start <= i <= s.len(),
            body == s@.subrange(start as int, s.len() as int),
            all_digits(body.take(i - start)),
            acc == digits_value(body.take(i - start)),
        decreases s.len() - i,
    {
        let c = s[i];
        let u: u32 = c as u32;
        if u < 0x30 || u > 0x39 {
            assert(!is_digit(body[i - start]));
            return None;
        }
        let d: u64 = (u - 0x30) as u64;
        proof {
            let next = body.take(i - start + 1);
            assert(next.drop_last() == body.take(i - start));
            assert(next.last() == c);
            assert(digits_value(next) == acc * 10 + d);
            lemma_digits_prefix(body, i - start + 1);
            assert forall|j: int| 0 <= j < next.len() implies is_digit(#[trigger] next[j]) by {
                if j < i - start {
                    assert(next[j] == body.take(i - start)[j]);
                }
            }
        }
        let scaled = match acc.checked_mul(10) {
            Some(scaled) => scaled,
            None => {
                return None;
            },
        };
        acc = match scaled.checked_add(d) {
            Some(sum) => sum,
            None => {
                return None;
            },
        };
        i += 1;
    }
    assert(body.take(i - start) == body);
    Some(acc)
}

/// Reads an unsigned decimal number: the whole of `s` must be one.
pub fn parse_u64(s: &[char]) -> (r: Option<u64>)
    ensures
        r == u64_of(s@),
{
    if s.len() > 0 && s[0] == '+' {
        assert(s@.drop_first() == s@.subrange(1, s.len() as int));
        parse_digits(s, 1)
    } else {
        assert(s@ == s@.subrange(0, s.len() as int));
        parse_digits(s, 0)
    }
}

/// Reads a signed decimal number: the whole of `s` must be one.
pub fn parse_i64(s: &[char]) -> (r: Option<i64>)
    ensures
        r == i64_of(s@),
{
    if s.len() > 0 && s[0] == '-' {
        assert(s@.drop_first() == s@.subrange(1, s.len() as int));
        match parse_digits(s, 1) {
            Some(m) => {
                if m < 0x8000_0000_0000_0000 {
                    Some(-(m as i64))
                } else if m == 0x8000_0000_0000_0000 {
                    Some(i64::MIN)
                } else {
                    None
                }
            },
            None => None,
        }
    } else {
        match parse_u64(s) {
            Some(m) => {
                if m <= 0x7fff_ffff_ffff_ffff {
                    Some(m as i64)
                } else {
                    None
                }
            },
            None => None,
        }
    }
}

/// The character that writes the digit `d`.
pub open spec fn digit_char(d: nat) -> char {
    if d == 0 {
        '0'
    } else if d == 1 {
        '1'
    } else if d == 2 {
        '2'
    } else if d == 3 {
        '3'
    } else if d == 4 {
        '4'
    } else if d == 5 {
        '5'
    } else if d == 6 {
        '6'
    } else if d == 7 {
        '7'
    } else if d == 8 {
        '8'
    } else {
        '9'
    }
}

/// Executable form of [`digit_char`].
fn digit(d: u8) -> (c: char)
    requires
        d < 10,
    ensures
        c == digit_char(d as nat),
{
    if d == 0 {
        '0'
    } else if d == 1 {
        '1'
    } else if d == 2 {
        '2'
    } else if d == 3 {
        '3'
    } else if d == 4 {
        '4'
    } else if d == 5 {
        '5'
    } else if d == 6 {
        '6'
    } else if d == 7 {
        '7'
    } else if d == 8 {
        '8'
    } else {
        '9'
    }
}

/// `n` in base ten, without leading zeros.
pub open spec fn decimal(n: nat) -> Seq<char>
    decreases n,
{
    if n < 10 {
        seq![digit_char(n)]
    } else {
        decimal(n / 10).push(digit_char(n % 10))
    }
}

/// The last `width` digits of `n` in base ten, padded with zeros on the left.
pub open spec fn padded(n: nat, width: nat) -> Seq<char>
    decreases width,
{
    if width == 0 {
        Seq::empty()
    } else {
        padded(n / 10, (width - 1) as nat).push(digit_char(n % 10))
    }
}

/// Ten to the power `p`.
pub open spec fn pow10(p: nat) -> nat
    decreases p,
{
    if p == 0 {
        1
    } else {
        10 * pow10((p - 1) as nat)
    }
}

/// `scaled / 10^places` written with exactly `places` fractional digits.
pub open spec fn fixed_point(scaled: nat, places: nat) -> Seq<char> {
    decimal(scaled / pow10(places)) + seq!['.'] + padded(scaled % pow10(places), places)
}

/// The quotient `n / d` in units of `10^-places`, rounded to the nearest
/// unit; a tie rounds up.
pub open spec fn rounded_ratio(n: nat, d: nat, places: nat) -> nat {
    (2 * n * pow10(places) + d) / (2 * d)
}

/// Appends `n` in base ten.
pub fn push_decimal(w: &mut String, n: u128)
    ensures
        final(w)@ == old(w)@ + decimal(n as nat),
    decreases n,
{
    if n >= 10 {
        push_decimal(w, n / 10);
    }
    let ghost before = w@;
    w.push(digit((n % 10) as u8));
    proof {
        if n >= 10 {
            assert(w@ == old(w)@ + decimal(n as nat / 10).push(digit_char(n as nat % 10)));
        } else {
            assert(w@ == old(w)@ + seq![digit_char(n as nat)]);
        }
    }
}

/// Appends the last `width` digits of `n`, padded with zeros on the left.
pub fn push_padded(w: &mut String, n: u128, width: u32)
    ensures
        final(w)@ == old(w)@ + padded(n as nat, width as nat),
    decreases width,
{
    if width == 0 {
        assert(w@ + Seq::<char>::empty() == w@);
        return ;
    }
    push_padded(w, n / 10, width - 1);
    w.push(digit((n % 10) as u8));
    assert(w@ == old(w)@ + padded(n as nat / 10, (width - 1) as nat).push(
        digit_char(n as nat % 10),
    ));
}

/// Powers of ten grow with the exponent, and the eighteenth is 10^18.
pub proof fn lemma_pow10_bound(p: nat)
    requires
        p <= 18,
    ensures
        1 <= pow10(p) <= 1_000_000_000_000_000_000,
    decreases 18 - p,
{
    if p == 18 {
        reveal_with_fuel(pow10, 19);
    } else {
        lemma_pow10_bound(p + 1);
    }
}

/// Ten to the power `places`.
pub fn power_of_ten(places: u32) -> (p: u128)
    requires
        places <= 18,
    ensures
        p == pow10(places as nat),
        1 <= p <= 1_000_000_000_000_000_000,
    decreases places,
{
    proof {
        lemma_pow10_bound(places as nat);
    }
    if places == 0 {
        1
    } else {
        10 * power_of_ten(places - 1)
    }
}

/// Appends `scaled / 10^places` with exactly `places` fractional digits.
pub fn push_fixed(w: &mut String, scaled: u128, places: u32)
    requires
        places <= 18,
    ensures
        final(w)@ == old(w)@ + fixed_point(scaled as nat, places as nat),
{
    let unit = power_of_ten(places);
    push_decimal(w, scaled / unit);
    w.push('.');
    push_padded(w, scaled % unit, places);
    assert(w@ == old(w)@ + (decimal(scaled as nat / pow10(places as nat)) + seq!['.'] + padded(
        scaled as nat % pow10(places as nat),
        places as nat,
    )));
}

/// Computes [`rounded_ratio`] for a numerator below 2^66 and a denominator
/// up to 2^126.
pub fn round_ratio(n: u128, d: u128, places: u32) -> (q: u128)
    requires
        n <= 0x4_0000_0000_0000_0000,
        0 < d <= 0x4000_0000_0000_0000_0000_0000_0000_0000,
        places <= 18,
    ensures
        q == rounded_ratio(n as nat, d as nat, places as nat),
{
    let unit = power_of_ten(places);
    let n2: u128 = 2 * n;
    assert(n2 * unit <= 0x8_0000_0000_0000_0000 * 1_000_000_000_000_000_000) by (nonlinear_arith)
        requires
            n2 <= 0x8_0000_0000_0000_0000,
            unit <= 1_000_000_000_000_000_000,
    ;
    let scaled: u128 = n2 * unit;
    assert(2 * n as nat * pow10(places as nat) == scaled) by (nonlinear_arith)
        requires
            n2 == 2 * n,
            scaled == n2 * unit,
            unit == pow10(places as nat),
    ;
    (scaled + d) / (2 * d)
}

} // verus!
