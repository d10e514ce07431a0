//! Decimal numerals: what a run of ASCII digits denotes, and how a number is
//! written.

use vstd::prelude::*;
use vstd::slice::slice_subrange;

verus! {

pub const MINUS: u8 = 0x2d;

pub const PLUS: u8 = 0x2b;

/// An ASCII decimal digit.
pub open spec fn is_digit(b: u8) -> bool {
    0x30 <= b <= 0x39
}

/// The number a digit stands for; 0 for any other byte.
pub open spec fn digit_value(b: u8) -> nat {
    if is_digit(b) {
        (b - 0x30) as nat
    } else {
        0
    }
}

pub open spec fn all_digits(s: Seq<u8>) -> bool {
    forall|i: int| 0 <= i < s.len() ==> is_digit(#[trigger] s[i])
}

/// The number that the digits of `s` denote, most significant first.
pub open spec fn digits_value(s: Seq<u8>) -> nat
    decreases s.len(),
{
    if s.len() == 0 {
        0
    } else {
        digits_value(s.drop_last()) * 10 + digit_value(s.last())
    }
}

/// What `s` denotes as an unsigned numeral: one or more digits, worth at most
/// `max`. Anything else denotes nothing.
pub open spec fn unsigned_of(s: Seq<u8>, max: nat) -> Option<nat> {
    if s.len() > 0 && all_digits(s) && digits_value(s) <= max {
        Some(digits_value(s))
    } else {
        None
    }
}

/// What `s` denotes as an unsigned numeral with an optional leading `+`.
pub open spec fn plus_unsigned_of(s: Seq<u8>, max: nat) -> Option<nat> {
    if s.len() > 0 && s[0] == PLUS {
        unsigned_of(s.skip(1), max)
    } else {
        unsigned_of(s, max)
    }
}

/// What `s` denotes as a signed 32-bit numeral: an optional `+` or `-`, then
/// one or more digits, the whole within the range of `i32`.
pub open spec fn i32_of(s: Seq<u8>) -> Option<int> {
    if s.len() > 0 && s[0] == MINUS {
        match unsigned_of(s.skip(1), 0x8000_0000) {
            Some(v) => Some(-(v as int)),
            None => None,
        }
    } else {
        match plus_unsigned_of(s, 0x7fff_ffff) {
            Some(v) => Some(v as int),
            None => None,
        }
    }
}

/// The decimal numeral of `n`, without sign or leading zeros.
pub open spec fn decimal(n: nat) -> Seq<u8>
    decreases n,
{
    if n < 10 {
        seq![(0x30 + n) as u8]
    } else {
        decimal(n / 10).push((0x30 + n % 10) as u8)
    }
}

/// The decimal numeral of a signed number: `-` before a negative one.
pub open spec fn signed_decimal(n: int) -> Seq<u8> {
    if n < 0 {
        seq![MINUS] + decimal((-n) as nat)
    } else {
        decimal(n as nat)
    }
}

/// Reading one more digit multiplies what was read by ten and adds the digit.
pub proof fn lemma_digits_value_step(s: Seq<u8>, i: int)
    requires
        0 <= i < s.len(),
    ensures
        digits_value(s.take(i + 1)) == digits_value(s.take(i)) * 10 + digit_value(s[i]),
{
    assert(s.take(i + 1).drop_last() =~= s.take(i));
}

/// A numeral is worth at least as much as any of its initial parts.
pub proof fn lemma_digits_value_prefix(s: Seq<u8>, i: int)
    requires
        0 <= i <= s.len(),
    ensures
        digits_value(s.take(i)) <= digits_value(s),
    decreases s.len() - i,
{
    if i == s.len() {
        assert(s.take(i) =~= s);
    } else {
        lemma_digits_value_step(s, i);
        lemma_digits_value_prefix(s, i + 1);
    }
}

/// Reads an unsigned decimal numeral that is worth at most `max`.
pub fn parse_unsigned(s: &[u8], max: u64) -> (r: Option<u64>)
    ensures
        match r {
            Some(v) => unsigned_of(s@, max as nat) == Some(v as nat),
            None => unsigned_of(s@, max as nat) is None,
        },
{
    if s.len() == 0 {
        return None;
    }
    let mut acc: u64 = 0;
    let mut i: usize = 0;
    while i < s.len()
        invariant
            i <= s.len(),
            all_digits(s@.take(i as int)),
            acc == digits_value(s@.take(i as int)),
            acc <= max,
        decreases s.len() - i,
    {
        let b: u8 = s[i];
        if b < 0x30 || b > 0x39 {
            return None;
        }
        let d: u64 = (b - 0x30) as u64;
        proof {
            lemma_digits_value_step(s@, i as int);
            lemma_digits_value_prefix(s@, i + 1);
        }
        if acc > max / 10 {
            return None;
        }
        let shifted: u64 = acc * 10;
        if d > max - shifted {
            return None;
        }
        acc = shifted + d;
        i += 1;
    }
    assert(s@.take(i as int) =~= s@);
    Some(acc)
}

/// Reads an unsigned decimal numeral with an optional leading `+`.
pub fn parse_plus_unsigned(s: &[u8], max: u64) -> (r: Option<u64>)
    ensures
        match r {
            Some(v) => plus_unsigned_of(s@, max as nat) == Some(v as nat),
            None => plus_unsigned_of(s@, max as nat) is None,
        },
{
    if s.len() > 0 && s[0] == PLUS {
        parse_unsigned(slice_subrange(s, 1, s.len()), max)
    } else {
        parse_unsigned(s, max)
    }
}

/// Reads a signed 32-bit decimal numeral.
pub fn parse_i32(s: &[u8]) -> (r: Option<i32>)
    ensures
        match r {
            Some(v) => i32_of(s@) == Some(v as int),
            None => i32_of(s@) is None,
        },
{
    if s.len() > 0 && s[0] == MINUS {
        match parse_unsigned(slice_subrange(s, 1, s.len()), 0x8000_0000) {
            Some(v) => {
                if v == 0x8000_0000 {
                    Some(i32::MIN)
                } else {
                    Some(-(v as i32))
                }
            },
            None => None,
        }
    } else {
        match parse_plus_unsigned(s, 0x7fff_ffff) {
            Some(v) => Some(v as i32),
            None => None,
        }
    }
}

/// Reads an unsigned 16-bit decimal numeral with an optional leading `+`.
pub fn parse_u16(s: &[u8]) -> (r: Option<u16>)
    ensures
        match r {
            Some(v) => plus_unsigned_of(s@, 0xffff) == Some(v as nat),
            None => plus_unsigned_of(s@, 0xffff) is None,
        },
{
    match parse_plus_unsigned(s, 0xffff) {
        Some(v) => Some(v as u16),
        None => None,
    }
}

/// Appends the decimal numeral of `n` to `out`.
pub fn push_decimal(out: &mut Vec<u8>, n: u64)
    ensures
        final(out)@ == old(out)@ + decimal(n as nat),
{
    let mut low: Vec<u8> = Vec::new();
    let mut m: u64 = n;
    while m >= 10
        invariant
            decimal(n as nat) == decimal(m as nat) + low@.reverse(),
        decreases m,
    {
        let d: u8 = (0x30 + m % 10) as u8;
        assert(decimal((m / 10) as nat) + low@.push(d).reverse() =~= decimal(m as nat)
            + low@.reverse());
        low.push(d);
        m = m / 10;
    }
    out.push((0x30 + m) as u8);
    let ghost head = out@;
    let mut k: usize = low.len();
    while k > 0
        invariant
            k <= low.len(),
            out@ == head + low@.reverse().take(low.len() - k),
        decreases k,
    {
        k -= 1;
        out.push(low[k]);
        assert(low@.reverse().take(low.len() - k) =~= low@.reverse().take(low.len() - k - 1).push(
            low@[k as int],
        ));
    }
}

/// Appends the decimal numeral of a signed number to `out`.
pub fn push_signed_decimal(out: &mut Vec<u8>, n: i32)
    ensures
        final(out)@ == old(out)@ + signed_decimal(n as int),
{
    if n < 0 {
        out.push(MINUS);
        let magnitude: u64 = (-(n as i64)) as u64;
        push_decimal(out, magnitude);
    } else {
        push_decimal(out, n as u64);
    }
}

/// A decimal numeral is made of digits, at least one, and denotes the number
/// it was written for.
pub proof fn lemma_decimal_is_numeral(n: nat)
    ensures
        decimal(n).len() > 0,
        all_digits(decimal(n)),
        digits_value(decimal(n)) == n,
    decreases n,
{
    if n < 10 {
        assert(digits_value(decimal(n).drop_last()) == 0);
    } else {
        lemma_decimal_is_numeral(n / 10);
        assert(decimal(n).drop_last() =~= decimal(n / 10));
    }
}

/// What is written as a decimal numeral reads back as the same number.
pub proof fn law_decimal_reads_back(n: nat, max: nat)
    requires
        n <= max,
    ensures
        unsigned_of(decimal(n), max) == Some(n),
        plus_unsigned_of(decimal(n), max) == Some(n),
{
    lemma_decimal_is_numeral(n);
}

/// What is written as a signed decimal numeral reads back as the same
/// 32-bit number.
pub proof fn law_signed_decimal_reads_back(n: int)
    requires
        i32::MIN <= n <= i32::MAX,
    ensures
        i32_of(signed_decimal(n)) == Some(n),
{
    if n < 0 {
        let magnitude = (-n) as nat;
        lemma_decimal_is_numeral(magnitude);
        assert(signed_decimal(n).skip(1) =~= decimal(magnitude));
    } else {
        lemma_decimal_is_numeral(n as nat);
    }
}

} // verus!
