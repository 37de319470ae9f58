//! Decimal parsing and integer formatting over characters.

use vstd::prelude::*;

use crate::text::string_from_chars;

verus! {

pub open spec fn is_digit(c: char) -> bool {
    '0' <= c && c <= '9'
}

pub open spec fn digit_value(c: char) -> int {
    c as int - '0' as int
}

pub open spec fn all_digits(ds: Seq<char>) -> bool {
    forall|i: int| 0 <= i < ds.len() ==> #[trigger] is_digit(ds[i])
}

/// The number written by the decimal digits `ds` (most significant first).
pub open spec fn digits_value(ds: Seq<char>) -> int
    decreases ds.len(),
{
    if ds.len() == 0 {
        0
    } else {
        digits_value(ds.drop_last()) * 10 + digit_value(ds.last())
    }
}

/// Decimal `i32` syntax: an optional `+` or `-`, then one or more ASCII
/// digits, with the value in range; anything else is rejected.
pub open spec fn parse_i32_spec(s: Seq<char>) -> Option<i32> {
    if s.len() == 0 {
        None
    } else {
        let neg = s[0] == '-';
        let ds = if s[0] == '-' || s[0] == '+' {
            s.drop_first()
        } else {
            s
        };
        if ds.len() == 0 || !all_digits(ds) {
            None
        } else {
            let v = if neg {
                -digits_value(ds)
            } else {
                digits_value(ds)
            };
            if i32::MIN <= v <= i32::MAX {
                Some(v as i32)
            } else {
                None
            }
        }
    }
}

proof fn lemma_digits_value_nonneg(ds: Seq<char>)
    requires
        all_digits(ds),
    ensures
        digits_value(ds) >= 0,
    decreases ds.len(),
{
    if ds.len() > 0 {
        assert(all_digits(ds.drop_last())) by {
            assert forall|i: int| 0 <= i < ds.drop_last().len() implies #[trigger] is_digit(
                ds.drop_last()[i],
            ) by {
                assert(is_digit(ds[i]));
            }
        }
        lemma_digits_value_nonneg(ds.drop_last());
        assert(is_digit(ds[ds.len() - 1]));
    }
}

const DIGIT_CAP: u64 = 0x1_0000_0000;

/// Parses `s` as a decimal `i32`, as `str::parse::<i32>` does.
pub fn parse_i32(s: &Vec<char>) -> (r: Option<i32>)
    ensures
        r == parse_i32_spec(s@),
{
    if s.len() == 0 {
        return None;
    }
    let neg = s[0] == '-';
    let start: usize = if s[0] == '-' || s[0] == '+' {
        1
    } else {
        0
    };
    let ghost ds = if s@[0] == '-' || s@[0] == '+' {
        s@.drop_first()
    } else {
        s@
    };
    assert(ds == s@.subrange(start as int, s@.len() as int));
    if start == s.len() {
        return None;
    }
    let mut acc: u64 = 0;
    let mut i: usize = start;
    while i < s.len()
        invariant
            start <= i <= s@.len(),
            s@.len() > 0,
            neg == (s@[0] == '-'),
            ds == (if s@[0] == '-' || s@[0] == '+' {
                s@.drop_first()
            } else {
                s@
            }),
            ds == s@.subrange(start as int, s@.len() as int),
            all_digits(s@.subrange(start as int, i as int)),
            acc == (if digits_value(s@.subrange(start as int, i as int)) < DIGIT_CAP {
                digits_value(s@.subrange(start as int, i as int))
            } else {
                DIGIT_CAP as int
            }),
        decreases s.len() - i,
    {
        let c = s[i];
        if !('0' <= c && c <= '9') {
            assert(!is_digit(ds[i - start]));
            return None;
        }
        let ghost prev = s@.subrange(start as int, i as int);
        let ghost next = s@.subrange(start as int, i + 1);
        assert(next.drop_last() == prev);
        assert(all_digits(next)) by {
            assert forall|j: int| 0 <= j < next.len() implies #[trigger] is_digit(next[j]) by {
                if j < prev.len() {
                    assert(next[j] == prev[j]);
                }
            }
        }
        proof {
            lemma_digits_value_nonneg(prev);
        }
        let d = (c as u32 - '0' as u32) as u64;
        let v = acc * 10 + d;
        acc = if v < DIGIT_CAP {
            v
        } else {
            DIGIT_CAP
        };
        i = i + 1;
    }
    assert(s@.subrange(start as int, s@.len() as int) == ds);
    let value: i64 = if neg {
        -(acc as i64)
    } else {
        acc as i64
    };
    if value < i32::MIN as i64 || value > i32::MAX as i64 {
        None
    } else {
        Some(value as i32)
    }
}

/// Decimal digits of `n`, most significant first, without leading zeros
/// ("0" for zero).
pub open spec fn decimal_digits(n: nat) -> Seq<char>
    decreases n,
{
    if n < 10 {
        seq![('0' as u32 + n) as char]
    } else {
        decimal_digits(n / 10).push(('0' as u32 + n % 10) as char)
    }
}

/// Decimal text of a signed integer, with a leading `-` when negative.
pub open spec fn decimal_text(n: int) -> Seq<char> {
    if n < 0 {
        seq!['-'].add(decimal_digits((-n) as nat))
    } else {
        decimal_digits(n as nat)
    }
}

fn digit_char(d: u64) -> (c: char)
    requires
        d < 10,
    ensures
        c == ('0' as u32 + d) as char,
{
    if d == 0 {
        '0'
    } else if d == 1 {
        '1'
    } else if d == 2 {
        '2'
    } else if d == 3 {
        '3'
    } else if d == 4 {
        '4'
    } else if d == 5 {
        '5'
    } else if d == 6 {
        '6'
    } else if d == 7 {
        '7'
    } else if d == 8 {
        '8'
    } else {
        '9'
    }
}

/// Decimal digits of `n`.
pub fn decimal_chars(n: u64) -> (r: Vec<char>)
    ensures
        r@ == decimal_digits(n as nat),
    decreases n,
{
    if n < 10 {
        let mut v = Vec::new();
        v.push(digit_char(n));
        v
    } else {
        let mut v = decimal_chars(n / 10);
        v.push(digit_char(n % 10));
        v
    }
}

/// Decimal text of `n`, as `format!("{n}")` writes it.
pub fn fmt_i64(n: i64) -> (r: Vec<char>)
    ensures
        r@ == decimal_text(n as int),
{
    if n < 0 {
        let mag: u64 = if n == i64::MIN {
            0x8000_0000_0000_0000u64
        } else {
            (-n) as u64
        };
        let digits = decimal_chars(mag);
        let mut v = Vec::new();
        v.push('-');
        let mut i: usize = 0;
        while i < digits.len()
            invariant
                i <= digits@.len(),
                v@ == seq!['-'].add(digits@.take(i as int)),
            decreases digits.len() - i,
        {
            v.push(digits[i]);
            assert(digits@.take(i + 1) == digits@.take(i as int).push(digits@[i as int]));
            i = i + 1;
        }
        assert(digits@.take(digits@.len() as int) == digits@);
        v
    } else {
        decimal_chars(n as u64)
    }
}

/// Decimal text of `n` as a `String`.
pub fn i64_to_string(n: i64) -> (r: String)
    ensures
        r@ == decimal_text(n as int),
{
    let v = fmt_i64(n);
    string_from_chars(&v)
}

/// Upper-case hexadecimal digit for `d`.
pub open spec fn hex_digit(d: int) -> char {
    if d < 10 {
        ('0' as int + d) as char
    } else {
        ('A' as int + d - 10) as char
    }
}

/// The `width` least significant hexadecimal digits of `n`, upper case,
/// most significant first (zero padded).
pub open spec fn hex_digits(n: nat, width: nat) -> Seq<char>
    decreases width,
{
    if width == 0 {
        Seq::empty()
    } else {
        hex_digits(n / 16, (width - 1) as nat).push(hex_digit((n % 16) as int))
    }
}

fn hex_char(d: u32) -> (c: char)
    requires
        d < 16,
    ensures
        c == hex_digit(d as int),
{
    if d < 10 {
        digit_char(d as u64)
    } else if d == 10 {
        'A'
    } else if d == 11 {
        'B'
    } else if d == 12 {
        'C'
    } else if d == 13 {
        'D'
    } else if d == 14 {
        'E'
    } else {
        'F'
    }
}

/// `n` as eight upper-case hexadecimal digits, as `format!("{n:08X}")`.
pub fn hex8(n: u32) -> (r: Vec<char>)
    ensures
        r@ == hex_digits(n as nat, 8),
{
    proof {
        reveal_with_fuel(pow16, 9);
    }
    let mut out: Vec<char> = Vec::new();
    let mut k: u32 = 0;
    while k < 8
        invariant
            k <= 8,
            out@ == hex_digits(n as nat / pow16((8 - k) as nat), k as nat),
        decreases 8 - k,
    {
        let shift = 4 * (7 - k);
        let d = (n >> shift) & 0xF;
        proof {
            lemma_hex_step(n, k);
        }
        out.push(hex_char(d));
        k = k + 1;
    }
    assert(pow16(0) == 1);
    assert(k == 8);
    assert((8 - k) as nat == 0nat);
    assert(pow16(0nat) == 1);
    assert(n as nat / 1 == n as nat);
    out
}

pub open spec fn pow16(e: nat) -> nat
    decreases e,
{
    if e == 0 {
        1
    } else {
        16 * pow16((e - 1) as nat)
    }
}

proof fn lemma_pow16_pos(e: nat)
    ensures
        pow16(e) > 0,
    decreases e,
{
    if e > 0 {
        lemma_pow16_pos((e - 1) as nat);
    }
}

proof fn lemma_hex_step(n: u32, k: u32)
    requires
        k < 8,
    ensures
        ((n >> (4 * (7 - k)) as u32) & 0xF) as nat == (n as nat / pow16((8 - (k + 1)) as nat)) % 16,
        hex_digits(n as nat / pow16((8 - (k + 1)) as nat), (k + 1) as nat) == hex_digits(
            n as nat / pow16((8 - k) as nat),
            k as nat,
        ).push(hex_digit(((n as nat / pow16((8 - (k + 1)) as nat)) % 16) as int)),
{
    let e = (7 - k) as nat;
    reveal_with_fuel(pow16, 9);
    assert(pow16(1) == 16);
    assert(pow16(2) == 256);
    assert(pow16(3) == 4096);
    assert(pow16(4) == 65536);
    assert(pow16(5) == 1048576);
    assert(pow16(6) == 16777216);
    assert(pow16(7) == 268435456);
    assert(pow16(8) == 4294967296);
    let s = (4 * (7 - k)) as u32;
    assert(s == 0 || s == 4 || s == 8 || s == 12 || s == 16 || s == 20 || s == 24 || s == 28);
    assert(((n >> s) & 0xF) as nat == (n as nat / pow16(e)) % 16) by {
        if s == 0 {
            assert((n >> 0u32) & 0xF == n % 16) by (bit_vector);
            assert(e == 0 && pow16(e) == 1);
        } else if s == 4 {
            assert((n >> 4u32) & 0xF == (n / 16) % 16) by (bit_vector);
            assert(e == 1 && pow16(e) == 16);
        } else if s == 8 {
            assert((n >> 8u32) & 0xF == (n / 256) % 16) by (bit_vector);
            assert(e == 2 && pow16(e) == 256);
        } else if s == 12 {
            assert((n >> 12u32) & 0xF == (n / 4096) % 16) by (bit_vector);
            assert(e == 3 && pow16(e) == 4096);
        } else if s == 16 {
            assert((n >> 16u32) & 0xF == (n / 65536) % 16) by (bit_vector);
            assert(e == 4 && pow16(e) == 65536);
        } else if s == 20 {
            assert((n >> 20u32) & 0xF == (n / 1048576) % 16) by (bit_vector);
            assert(e == 5 && pow16(e) == 1048576);
        } else if s == 24 {
            assert((n >> 24u32) & 0xF == (n / 16777216) % 16) by (bit_vector);
            assert(e == 6 && pow16(e) == 16777216);
        } else {
            assert((n >> 28u32) & 0xF == (n / 268435456) % 16) by (bit_vector);
            assert(e == 7 && pow16(e) == 268435456);
        }
    }
    let a = n as nat / pow16(e);
    lemma_pow16_pos(e);
    assert(pow16((e + 1) as nat) == 16 * pow16(e));
    assert(a / 16 == n as nat / pow16((e + 1) as nat)) by {
        vstd::arithmetic::div_mod::lemma_div_denominator(n as int, pow16(e) as int, 16);
        assert(pow16(e) * 16 == 16 * pow16(e)) by (nonlinear_arith);
    }
    assert((8 - (k + 1)) as nat == e);
    assert((8 - k) as nat == (e + 1) as nat);
}

} // verus!
