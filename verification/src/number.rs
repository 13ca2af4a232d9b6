//! Decimal numbers, written and read.
use vstd::prelude::*;

use crate::text;

verus! {

/// The character of a decimal digit.
pub open spec fn digit(d: int) -> char {
    if d == 0 {
        '0'
    } else if d == 1 {
        '1'
    } else if d == 2 {
        '2'
    } else if d == 3 {
        '3'
    } else if d == 4 {
        '4'
    } else if d == 5 {
        '5'
    } else if d == 6 {
        '6'
    } else if d == 7 {
        '7'
    } else if d == 8 {
        '8'
    } else {
        '9'
    }
}

/// `n` in decimal, without leading zeros.
pub open spec fn decimal(n: int) -> Seq<char>
    decreases n,
{
    if n < 10 {
        seq![digit(n)]
    } else {
        decimal(n / 10).push(digit(n % 10))
    }
}

/// `n` in decimal, with a minus sign where it is negative.
pub open spec fn signed_decimal(n: int) -> Seq<char> {
    if n < 0 {
        seq!['-'] + decimal(-n)
    } else {
        decimal(n)
    }
}

/// The value of a decimal digit.
pub open spec fn digit_value(c: char) -> int {
    c as int - '0' as int
}

pub open spec fn is_digit(c: char) -> bool {
    '0' <= c <= '9'
}

/// The number that a run of digits writes; `None` for an empty run or another character.
pub open spec fn digits_value(s: Seq<char>) -> Option<int>
    decreases s.len(),
{
    if s.len() == 0 || !is_digit(s.last()) {
        None
    } else if s.len() == 1 {
        Some(digit_value(s.last()))
    } else {
        match digits_value(s.drop_last()) {
            Some(n) => Some(n * 10 + digit_value(s.last())),
            None => None,
        }
    }
}

/// The unsigned number that `s` writes, with or without a plus sign, if it is not above
/// `max`.
pub open spec fn unsigned_value(s: Seq<char>, max: int) -> Option<int> {
    let digits = if s.len() > 0 && s[0] == '+' {
        s.skip(1)
    } else {
        s
    };
    match digits_value(digits) {
        Some(n) => if n <= max {
            Some(n)
        } else {
            None
        },
        None => None,
    }
}

fn digit_char(d: u64) -> (r: char)
    requires
        d < 10,
    ensures
        r == digit(d as int),
{
    match d {
        0 => '0',
        1 => '1',
        2 => '2',
        3 => '3',
        4 => '4',
        5 => '5',
        6 => '6',
        7 => '7',
        8 => '8',
        _ => '9',
    }
}

fn push_decimal(out: &mut String, n: u64)
    ensures
        final(out)@ == old(out)@ + decimal(n as int),
    decreases n,
{
    if n >= 10 {
        push_decimal(out, n / 10);
    }
    out.push(digit_char(n % 10));
    assert(out@ == old(out)@ + decimal(n as int));
}

/// `n` in decimal.
pub fn u64_text(n: u64) -> (r: String)
    ensures
        r@ == decimal(n as int),
{
    let mut out = String::new();
    push_decimal(&mut out, n);
    assert(out@ == Seq::<char>::empty() + decimal(n as int));
    out
}

/// `n` in decimal, with a minus sign where it is negative.
pub fn i64_text(n: i64) -> (r: String)
    ensures
        r@ == signed_decimal(n as int),
{
    let mut out = String::new();
    if n < 0 {
        out.push('-');
        assert(out@ == seq!['-']);
        let m: u64 = if n == i64::MIN {
            0x8000_0000_0000_0000u64
        } else {
            (-n) as u64
        };
        push_decimal(&mut out, m);
    } else {
        push_decimal(&mut out, n as u64);
        assert(out@ == Seq::<char>::empty() + decimal(n as int));
    }
    out
}

proof fn lemma_digits_value_bounds(s: Seq<char>)
    ensures
        digits_value(s) matches Some(n) ==> n >= 0,
    decreases s.len(),
{
    if s.len() > 1 {
        lemma_digits_value_bounds(s.drop_last());
    }
}

/// A longer run of digits writes no smaller number.
proof fn lemma_digits_value_grows(s: Seq<char>, k: int)
    requires
        0 < k <= s.len(),
        digits_value(s) is Some,
    ensures
        digits_value(s.take(k)) is Some,
        digits_value(s.take(k))->0 <= digits_value(s)->0,
    decreases s.len(),
{
    if k < s.len() {
        lemma_digits_value_bounds(s.drop_last());
        lemma_digits_value_grows(s.drop_last(), k);
        assert(s.drop_last().take(k) == s.take(k));
    } else {
        assert(s.take(k) == s);
    }
}

/// The signed number that `s` writes, with or without a sign, if it lies between the limits.
pub open spec fn signed_value(s: Seq<char>, min: int, max: int) -> Option<int> {
    let negative = s.len() > 0 && s[0] == '-';
    let digits = if s.len() > 0 && (s[0] == '+' || s[0] == '-') {
        s.skip(1)
    } else {
        s
    };
    match digits_value(digits) {
        Some(n) => {
            let value = if negative {
                -n
            } else {
                n
            };
            if min <= value <= max {
                Some(value)
            } else {
                None
            }
        },
        None => None,
    }
}

/// The number that the digits from `start` on write, up to `2^63`; `None` if there are none,
/// if there is another character, or if the number is larger.
fn parse_digits(v: &Vec<char>, start: usize) -> (r: Option<u64>)
    requires
        start <= v@.len(),
    ensures
        match r {
            Some(n) => digits_value(v@.skip(start as int)) == Some(n as int) && n
                <= 0x8000_0000_0000_0000,
            None => match digits_value(v@.skip(start as int)) {
                Some(n) => n > 0x8000_0000_0000_0000,
                None => true,
            },
        },
{
    let ghost digits = v@.skip(start as int);
    if start == v.len() {
        return None;
    }
    let mut value: u64 = 0;
    let mut i: usize = start;
    while i < v.len()
        invariant
            start <= i <= v@.len(),
            start < v@.len(),
            digits == v@.skip(start as int),
            value <= 0x8000_0000_0000_0000,
            i == start ==> value == 0,
            i > start ==> digits_value(digits.take(i - start)) == Some(value as int),
        decreases v@.len() - i,
    {
        let c = v[i];
        let ghost upto = digits.take(i - start + 1);
        proof {
            assert(upto.last() == c);
            assert(upto.drop_last() == digits.take(i - start));
            if digits_value(digits) is Some {
                lemma_digits_value_grows(digits, i - start + 1);
            }
        }
        if !('0' <= c && c <= '9') {
            return None;
        }
        let d: u64 = (c as u32 - '0' as u32) as u64;
        let wide: u128 = value as u128 * 10 + d as u128;
        assert(digits_value(upto) == Some(wide as int));
        if wide > 0x8000_0000_0000_0000u128 {
            return None;
        }
        value = wide as u64;
        i = i + 1;
    }
    assert(digits.take(digits.len() as int) == digits);
    Some(value)
}

/// The number that `s` writes, if it is at most `max`. `None` if `s` is not a run of
/// digits, with or without a plus sign, or if the number is larger.
pub fn parse_unsigned(s: &str, max: u64) -> (r: Option<u64>)
    requires
        max <= 0x8000_0000_0000_0000,
    ensures
        match r {
            Some(n) => unsigned_value(s@, max as int) == Some(n as int),
            None => unsigned_value(s@, max as int) is None,
        },
{
    let v = text::to_chars(s);
    let start: usize = if v.len() > 0 && v[0] == '+' {
        1
    } else {
        0
    };
    assert(start == 0 ==> v@.skip(0) == s@);
    match parse_digits(&v, start) {
        Some(n) => if n <= max {
            Some(n)
        } else {
            None
        },
        None => None,
    }
}

/// The signed number that `s` writes, if it lies between the limits.
pub fn parse_signed(s: &str, min: i64, max: i64) -> (r: Option<i64>)
    ensures
        match r {
            Some(n) => signed_value(s@, min as int, max as int) == Some(n as int),
            None => signed_value(s@, min as int, max as int) is None,
        },
{
    let v = text::to_chars(s);
    let negative = v.len() > 0 && v[0] == '-';
    let start: usize = if v.len() > 0 && (v[0] == '+' || v[0] == '-') {
        1
    } else {
        0
    };
    assert(start == 0 ==> v@.skip(0) == s@);
    match parse_digits(&v, start) {
        Some(n) => {
            let value: i128 = if negative {
                0 - n as i128
            } else {
                n as i128
            };
            if min as i128 <= value && value <= max as i128 {
                Some(value as i64)
            } else {
                None
            }
        },
        None => None,
    }
}

/// A written signed number that lies between the limits is read back as it was.
pub proof fn law_signed_reads_back(n: int, min: int, max: int)
    requires
        min <= n <= max,
    ensures
        signed_value(signed_decimal(n), min, max) == Some(n),
{
    if n < 0 {
        law_decimal_reads_back(-n);
        assert(signed_decimal(n).skip(1) == decimal(-n));
    } else {
        law_decimal_reads_back(n);
        lemma_no_sign(n);
    }
}

proof fn lemma_no_sign(n: int)
    requires
        0 <= n,
    ensures
        decimal(n)[0] != '-',
        decimal(n)[0] != '+',
    decreases n,
{
    if n >= 10 {
        lemma_no_sign(n / 10);
        law_decimal_reads_back(n / 10);
    }
}

/// Reading a written number gives it back.
pub proof fn law_decimal_reads_back(n: int)
    requires
        0 <= n,
    ensures
        digits_value(decimal(n)) == Some(n),
        decimal(n).len() > 0,
        decimal(n)[0] != '+',
    decreases n,
{
    if n >= 10 {
        law_decimal_reads_back(n / 10);
        let s = decimal(n);
        assert(s.drop_last() == decimal(n / 10));
        assert(s[0] == decimal(n / 10)[0]);
    }
}

/// A written number that is not above the limit is read back as it was.
pub proof fn law_parse_reads_back(n: int, max: int)
    requires
        0 <= n <= max,
    ensures
        unsigned_value(decimal(n), max) == Some(n),
{
    law_decimal_reads_back(n);
}

/// Only a run of digits that is not empty writes a number.
pub proof fn law_only_digits_are_read(s: Seq<char>)
    ensures
        digits_value(s) is Some <==> s.len() > 0 && forall|i: int|
            0 <= i < s.len() ==> is_digit(#[trigger] s[i]),
    decreases s.len(),
{
    if s.len() > 0 {
        assert(s.last() == s[s.len() - 1]);
        if s.len() > 1 {
            let front = s.drop_last();
            law_only_digits_are_read(front);
            assert forall|i: int| 0 <= i < front.len() implies #[trigger] front[i] == s[i] by {}
            if forall|i: int| 0 <= i < s.len() ==> is_digit(#[trigger] s[i]) {
                assert forall|i: int| 0 <= i < front.len() implies is_digit(#[trigger] front[i]) by {
                    assert(is_digit(s[i]));
                }
            }
            if digits_value(front) is Some {
                assert forall|i: int| 0 <= i < s.len() && is_digit(s.last()) implies is_digit(
                    #[trigger] s[i],
                ) by {
                    if i < front.len() {
                        assert(is_digit(front[i]));
                    }
                }
            }
        }
    }
}

/// A written number above the limit is not read; nor is one below the lower limit.
pub proof fn law_out_of_range_is_refused(n: int, min: int, max: int)
    ensures
        0 <= n && n > max ==> unsigned_value(decimal(n), max) is None,
        n > max || n < min ==> signed_value(signed_decimal(n), min, max) is None,
{
    if 0 <= n {
        law_decimal_reads_back(n);
        lemma_no_sign(n);
    } else {
        law_decimal_reads_back(-n);
        assert(signed_decimal(n).skip(1) == decimal(-n));
    }
}

} // verus!
