//! Decimal numbers as text, in both directions.
use vstd::prelude::*;
use crate::text::{cat2, chars_of};

verus! {

pub open spec fn is_digit(c: char) -> bool {
    '0' <= c <= '9'
}

pub open spec fn digit_value(c: char) -> nat {
    (c as int - '0' as int) as nat
}

pub open spec fn all_digits(s: Seq<char>) -> bool {
    forall|i: int| 0 <= i < s.len() ==> is_digit(#[trigger] s[i])
}

/// The value of a sequence of decimal digits.
pub open spec fn digits_value(s: Seq<char>) -> nat
    decreases s.len(),
{
    if s.len() == 0 {
        0
    } else {
        digits_value(s.drop_last()) * 10 + digit_value(s.last())
    }
}

/// The digits behind an optional sign `+`.
pub open spec fn unsigned_digits(s: Seq<char>) -> Seq<char> {
    if s.len() > 0 && s[0] == '+' {
        s.skip(1)
    } else {
        s
    }
}

/// The number that a text stands for: an optional `+` and then digits alone, at most `max`.
pub open spec fn parsed_unsigned(s: Seq<char>, max: nat) -> Option<nat> {
    let d = unsigned_digits(s);
    if d.len() > 0 && all_digits(d) && digits_value(d) <= max {
        Some(digits_value(d))
    } else {
        None
    }
}

/// The number that a text stands for: an optional sign and then digits alone, within `i64`.
pub open spec fn parsed_i64(s: Seq<char>) -> Option<int> {
    if s.len() > 0 && s[0] == '-' {
        let d = s.skip(1);
        if d.len() > 0 && all_digits(d) && digits_value(d) <= 0x8000_0000_0000_0000 {
            Some(-(digits_value(d) as int))
        } else {
            None
        }
    } else {
        match parsed_unsigned(s, 0x7fff_ffff_ffff_ffff) {
            Some(n) => Some(n as int),
            None => None,
        }
    }
}

pub open spec fn digit_char(d: nat) -> char {
    if d == 0 { '0' } else if d == 1 { '1' } else if d == 2 { '2' } else if d == 3 { '3' }
    else if d == 4 { '4' } else if d == 5 { '5' } else if d == 6 { '6' } else if d == 7 { '7' }
    else if d == 8 { '8' } else { '9' }
}

/// The decimal digits of a number, without leading zeros.
pub open spec fn decimal(n: nat) -> Seq<char>
    decreases n,
{
    if n < 10 {
        seq![digit_char(n)]
    } else {
        decimal(n / 10).push(digit_char(n % 10))
    }
}

/// The decimal text of an integer, with `-` before a negative one.
pub open spec fn signed_decimal(n: int) -> Seq<char> {
    if n < 0 {
        seq!['-'] + decimal((-n) as nat)
    } else {
        decimal(n as nat)
    }
}

/// The 32-bit integer with the low bits of `n`, as a cast gives it.
pub open spec fn wrapped_i32(n: int) -> int {
    let m = n % 0x1_0000_0000;
    if m >= 0x8000_0000 {
        m - 0x1_0000_0000
    } else {
        m
    }
}

/// The cast of an `i64` to `i32`.
pub fn wrap_i32(n: i64) -> (r: i32)
    ensures
        r == wrapped_i32(n as int),
{
    let m: u64 = if n >= 0 {
        n as u64 % 0x1_0000_0000
    } else {
        let a: u64 = (-(n + 1)) as u64;
        0xffff_ffff - a % 0x1_0000_0000
    };
    assert(m == n % 0x1_0000_0000);
    if m >= 0x8000_0000 {
        (m as i64 - 0x1_0000_0000) as i32
    } else {
        m as i32
    }
}

/// The cast of a `u64` to `u32`.
pub fn wrap_u32(n: u64) -> (r: u32)
    ensures
        r == n % 0x1_0000_0000,
{
    (n % 0x1_0000_0000) as u32
}

proof fn lemma_digits_monotone(s: Seq<char>, i: int)
    requires
        0 <= i <= s.len(),
    ensures
        digits_value(s.take(i)) <= digits_value(s),
    decreases s.len() - i,
{
    if i == s.len() {
        assert(s.take(i) == s);
    } else {
        lemma_digits_monotone(s, i + 1);
        assert(s.take(i + 1).drop_last() == s.take(i));
    }
}

/// The value of the digits from `from` on, where all of them are digits, there is one, and the
/// value is at most `max`.
fn parse_digits(v: &Vec<char>, from: usize, max: u64) -> (r: Option<u64>)
    requires
        from <= v@.len(),
    ensures
        ({
            let d = v@.skip(from as int);
            match r {
                Some(n) => d.len() > 0 && all_digits(d) && digits_value(d) <= max && n
                    == digits_value(d),
                None => !(d.len() > 0 && all_digits(d) && digits_value(d) <= max),
            }
        }),
{
    let ghost d = v@.skip(from as int);
    if from == v.len() {
        return None;
    }
    let mut n: u64 = 0;
    let mut i: usize = from;
    assert(d.take(0) == Seq::<char>::empty());
    while i < v.len()
        invariant
            from <= i <= v@.len(),
            d == v@.skip(from as int),
            forall|k: int| 0 <= k < i - from ==> is_digit(#[trigger] d[k]),
            n == digits_value(d.take(i - from)),
            n <= max,
        decreases v@.len() - i,
    {
        let c = v[i];
        assert(d[i - from] == c);
        assert(d.take(i - from + 1).drop_last() == d.take(i - from));
        if c < '0' || c > '9' {
            return None;
        }
        let x: u64 = c as u64 - '0' as u64;
        proof {
            lemma_digits_monotone(d, i - from + 1);
        }
        if x > max || n > max / 10 || n * 10 > max - x {
            assert(digits_value(d.take(i - from + 1)) > max);
            return None;
        }
        n = n * 10 + x;
        i = i + 1;
    }
    assert(d.take(d.len() as int) == d);
    Some(n)
}

fn parse_bounded(s: &str, max: u64) -> (r: Option<u64>)
    ensures
        match r {
            Some(n) => parsed_unsigned(s@, max as nat) == Some(n as nat),
            None => parsed_unsigned(s@, max as nat) is None,
        },
{
    let v = chars_of(s);
    assert(v@.skip(0) == v@);
    if v.len() > 0 && v[0] == '+' {
        parse_digits(&v, 1, max)
    } else {
        parse_digits(&v, 0, max)
    }
}

pub fn parse_u64(s: &str) -> (r: Option<u64>)
    ensures
        match r {
            Some(n) => parsed_unsigned(s@, u64::MAX as nat) == Some(n as nat),
            None => parsed_unsigned(s@, u64::MAX as nat) is None,
        },
{
    parse_bounded(s, u64::MAX)
}

pub fn parse_u32(s: &str) -> (r: Option<u32>)
    ensures
        match r {
            Some(n) => parsed_unsigned(s@, u32::MAX as nat) == Some(n as nat),
            None => parsed_unsigned(s@, u32::MAX as nat) is None,
        },
{
    match parse_bounded(s, u32::MAX as u64) {
        Some(n) => Some(n as u32),
        None => None,
    }
}

pub fn parse_u16(s: &str) -> (r: Option<u16>)
    ensures
        match r {
            Some(n) => parsed_unsigned(s@, u16::MAX as nat) == Some(n as nat),
            None => parsed_unsigned(s@, u16::MAX as nat) is None,
        },
{
    match parse_bounded(s, u16::MAX as u64) {
        Some(n) => Some(n as u16),
        None => None,
    }
}

pub fn parse_i64(s: &str) -> (r: Option<i64>)
    ensures
        match r {
            Some(n) => parsed_i64(s@) == Some(n as int),
            None => parsed_i64(s@) is None,
        },
{
    let v = chars_of(s);
    if v.len() > 0 && v[0] == '-' {
        match parse_digits(&v, 1, 0x8000_0000_0000_0000) {
            Some(n) => {
                if n == 0x8000_0000_0000_0000 {
                    Some(i64::MIN)
                } else {
                    Some(0 - (n as i64))
                }
            },
            None => None,
        }
    } else {
        match parse_bounded(s, 0x7fff_ffff_ffff_ffff) {
            Some(n) => Some(n as i64),
            None => None,
        }
    }
}

fn digit_of(d: u64) -> (c: char)
    requires
        d < 10,
    ensures
        c == digit_char(d as nat),
{
    if d == 0 { '0' } else if d == 1 { '1' } else if d == 2 { '2' } else if d == 3 { '3' }
    else if d == 4 { '4' } else if d == 5 { '5' } else if d == 6 { '6' } else if d == 7 { '7' }
    else if d == 8 { '8' } else { '9' }
}

/// The decimal text of a number.
pub fn u64_text(n: u64) -> (r: String)
    ensures
        r@ == decimal(n as nat),
    decreases n,
{
    if n < 10 {
        let mut r = String::new();
        r.push(digit_of(n));
        assert(r@ =~= seq![digit_char(n as nat)]);
        r
    } else {
        let mut r = u64_text(n / 10);
        r.push(digit_of(n % 10));
        r
    }
}

/// The decimal text of a number.
pub fn u128_text(n: u128) -> (r: String)
    ensures
        r@ == decimal(n as nat),
    decreases n,
{
    if n < 10 {
        let mut r = String::new();
        r.push(digit_of(n as u64));
        assert(r@ =~= seq![digit_char(n as nat)]);
        r
    } else {
        let mut r = u128_text(n / 10);
        r.push(digit_of((n % 10) as u64));
        r
    }
}

/// The decimal text of an integer.
pub fn i64_text(n: i64) -> (r: String)
    ensures
        r@ == signed_decimal(n as int),
{
    if n == i64::MIN {
        let digits = u64_text(0x8000_0000_0000_0000);
        let r = cat2("-", &digits);
        proof {
            reveal_strlit("-");
        }
        assert(r@ =~= seq!['-'] + decimal(0x8000_0000_0000_0000));
        r
    } else if n < 0 {
        let digits = u64_text((0 - n) as u64);
        let r = cat2("-", &digits);
        proof {
            reveal_strlit("-");
        }
        assert(r@ =~= seq!['-'] + decimal((-(n as int)) as nat));
        r
    } else {
        u64_text(n as u64)
    }
}

pub proof fn lemma_decimal_digits(n: nat)
    ensures
        all_digits(decimal(n)),
        digits_value(decimal(n)) == n,
        decimal(n).len() >= 1,
    decreases n,
{
    if n < 10 {
        assert(decimal(n).drop_last() == Seq::<char>::empty());
        assert(digits_value(decimal(n).drop_last()) == 0);
    } else {
        lemma_decimal_digits(n / 10);
        assert(decimal(n).drop_last() == decimal(n / 10));
    }
}

/// Reading back the decimal text of a number within the bound gives that number.
pub proof fn decimal_reads_back(n: nat, max: nat)
    requires
        n <= max,
    ensures
        parsed_unsigned(decimal(n), max) == Some(n),
{
    lemma_decimal_digits(n);
    assert(is_digit(decimal(n)[0]));
}

/// Reading back the decimal text of an `i64` gives that integer.
pub proof fn signed_decimal_reads_back(n: i64)
    ensures
        parsed_i64(signed_decimal(n as int)) == Some(n as int),
{
    if n < 0 {
        lemma_decimal_digits((-(n as int)) as nat);
        assert(signed_decimal(n as int).skip(1) == decimal((-(n as int)) as nat));
    } else {
        decimal_reads_back(n as nat, 0x7fff_ffff_ffff_ffff);
        lemma_decimal_digits(n as nat);
        assert(is_digit(decimal(n as nat)[0]));
    }
}

/// Different numbers have different decimal texts.
pub proof fn decimal_is_injective(a: nat, b: nat)
    requires
        decimal(a) == decimal(b),
    ensures
        a == b,
{
    lemma_decimal_digits(a);
    lemma_decimal_digits(b);
}

/// Digits count from nought to nine, and each further digit multiplies by ten what stands before it.
pub proof fn digits_count_in_tens(s: Seq<char>, c: char)
    ensures
        is_digit(c) <==> c == '0' || c == '1' || c == '2' || c == '3' || c == '4' || c == '5' || c == '6'
            || c == '7' || c == '8' || c == '9',
        digits_value(seq!['0']) == 0 && digits_value(seq!['1']) == 1 && digits_value(seq!['9']) == 9,
        is_digit(c) ==> digits_value(s.push(c)) == 10 * digits_value(s) + (c as int - '0' as int),
{
    assert(s.push(c).drop_last() =~= s);
    let none = Seq::<char>::empty();
    assert(seq!['0'].drop_last() =~= none);
    assert(seq!['1'].drop_last() =~= none);
    assert(seq!['9'].drop_last() =~= none);
    assert(digits_value(none) == 0);
}

/// A number is read exactly where a text is digits, behind one plus sign at most, and its value is
/// within the bound.
pub proof fn numbers_are_digits(s: Seq<char>, max: nat)
    ensures
        s.len() > 0 && all_digits(s) && digits_value(s) <= max ==> parsed_unsigned(s, max) == Some(
            digits_value(s),
        ) && parsed_unsigned(seq!['+'] + s, max) == Some(digits_value(s)),
        s.len() > 0 && all_digits(s) && digits_value(s) > max ==> parsed_unsigned(s, max) is None,
        s.len() == 0 ==> parsed_unsigned(s, max) is None,
        !all_digits(s) && s[0] != '+' ==> parsed_unsigned(s, max) is None,
        parsed_unsigned(s, max) is Some ==> parsed_unsigned(s, max)->0 <= max,
{
    assert((seq!['+'] + s).skip(1) =~= s);
    if s.len() > 0 && all_digits(s) {
        assert(is_digit(s[0]));
    }
}

/// A number has no leading noughts, and only digits.
pub proof fn decimals_are_short(n: nat)
    ensures
        all_digits(decimal(n)),
        digits_value(decimal(n)) == n,
        n > 0 ==> decimal(n)[0] != '0',
        n < 10 ==> decimal(n).len() == 1,
    decreases n,
{
    lemma_decimal_digits(n);
    if n >= 10 {
        decimals_are_short(n / 10);
        lemma_decimal_digits(n / 10);
        assert(decimal(n)[0] == decimal(n / 10)[0]);
    }
}

/// A negative number is a minus sign and the digits of its size; narrowing to 32 bits keeps every
/// number in range and changes others by a multiple of the size of the range.
pub proof fn signs_and_ranges(n: int)
    ensures
        n < 0 ==> signed_decimal(n) == seq!['-'] + decimal((-n) as nat),
        n >= 0 ==> signed_decimal(n) == decimal(n as nat),
        -0x8000_0000 <= n < 0x8000_0000 ==> wrapped_i32(n) == n,
        -0x8000_0000 <= wrapped_i32(n) < 0x8000_0000,
        (n - wrapped_i32(n)) % 0x1_0000_0000 == 0,
{
}

} // verus!
