//! How counts of tokens are shown: in thousands and millions with one decimal digit.
//!
//! The shown digits are those of a quotient in binary floating point with 53 significant bits,
//! rounded to one decimal; here they come from integers alone.

use crate::text::{concat, concat3, decimal, decimal_text};
use vstd::arithmetic::power2::{
    lemma2_to64, lemma2_to64_rest, lemma_pow2_pos, lemma_pow2_unfold, pow2,
};
use vstd::prelude::*;

verus! {

/// The integer nearest to `n / d`; of two that are equally near, the even one.
pub open spec fn half_even(n: int, d: int) -> int {
    let q = n / d;
    let r = n % d;
    if 2 * r < d || (2 * r == d && q % 2 == 0) {
        q
    } else {
        q + 1
    }
}

/// How many low bits of `n` have no room in 53 bits, from `bits` on.
pub open spec fn excess_bits(n: int, bits: nat) -> nat
    decreases 11 - bits,
{
    if bits >= 11 || n < 0x20_0000_0000_0000 * pow2(bits) {
        bits
    } else {
        excess_bits(n, bits + 1)
    }
}

/// `n` rounded to 53 significant bits.
pub open spec fn binary64_of(n: int) -> int {
    let scale = pow2(excess_bits(n, 0)) as int;
    half_even(n, scale) * scale
}

/// How many fraction bits give `n / unit` 53 significant bits, from `bits` on.
pub open spec fn fraction_bits(n: int, unit: int, bits: nat) -> nat
    decreases 52 - bits,
{
    if bits >= 52 || n * pow2(bits) >= unit * 0x10_0000_0000_0000 {
        bits
    } else {
        fraction_bits(n, unit, bits + 1)
    }
}

/// `value / unit` as a binary64 quotient, in tenths, rounded to the nearest.
pub open spec fn tenths_of(value: int, unit: int) -> int {
    let n = binary64_of(value);
    let scale = pow2(fraction_bits(n, unit, 0)) as int;
    half_even(half_even(n * scale, unit) * 10, scale)
}

/// A number of tenths with its decimal point.
pub open spec fn tenths_text(tenths: int) -> Seq<char> {
    decimal_text((tenths / 10) as nat) + "."@ + decimal_text((tenths % 10) as nat)
}

/// A count as it is shown.
pub open spec fn compact_count(value: u64) -> Seq<char> {
    if value < 1_000 {
        decimal_text(value as nat)
    } else if value < 1_000_000 {
        tenths_text(tenths_of(value as int, 1_000)) + "k"@
    } else {
        tenths_text(tenths_of(value as int, 1_000_000)) + "m"@
    }
}

fn round_half_even(n: u128, d: u128) -> (res: u128)
    requires
        0 < d < 0x1_0000_0000_0000_0000_0000,
        n < 0x1_0000_0000_0000_0000_0000_0000,
    ensures
        res == half_even(n as int, d as int),
        res <= n / d + 1,
{
    let q: u128 = n / d;
    let r: u128 = n % d;
    proof {
        vstd::arithmetic::div_mod::lemma_mod_bound(n as int, d as int);
        vstd::arithmetic::div_mod::lemma_div_is_ordered_by_denominator(n as int, 1, d as int);
        vstd::arithmetic::div_mod::lemma_div_basics(n as int);
    }
    if 2 * r < d || (2 * r == d && q % 2 == 0) {
        q
    } else {
        q + 1
    }
}

/// `value` rounded to 53 significant bits.
fn to_binary64(value: u64) -> (res: u128)
    ensures
        res == binary64_of(value as int),
        res < 0x8_0000_0000_0000_0000,
        value <= 0x20_0000_0000_0000 ==> res == value,
        0x20_0000_0000_0000 <= value ==> 0x20_0000_0000_0000 <= res,
{
    let n: u128 = value as u128;
    let mut scale: u128 = 1;
    let mut bits: u32 = 0;
    proof {
        lemma2_to64();
    }
    while bits < 11 && n >= 0x20_0000_0000_0000 * scale
        invariant
            bits <= 11,
            scale == pow2(bits as nat),
            1 <= scale <= 2048,
            excess_bits(n as int, 0) == excess_bits(n as int, bits as nat),
            bits > 0 ==> n >= 0x10_0000_0000_0000 * scale,
        decreases 11 - bits,
    {
        proof {
            lemma2_to64();
            lemma_pow2_unfold((bits + 1) as nat);
        }
        scale = scale * 2;
        bits = bits + 1;
        proof {
            assert(pow2(bits as nat) <= 2048) by {
                lemma2_to64();
                if bits < 11 {
                    vstd::arithmetic::power2::lemma_pow2_strictly_increases(bits as nat, 11);
                }
            }
        }
    }
    let rounded = round_half_even(n, scale);
    proof {
        lemma_rounded_to_scale(n as int, scale as int, bits as nat);
    }
    rounded * scale
}

proof fn lemma_rounded_to_scale(n: int, scale: int, bits: nat)
    requires
        0 <= n <= u64::MAX,
        1 <= scale <= 2048,
        scale == pow2(bits),
        bits <= 11,
        bits == 11 || n < 0x20_0000_0000_0000 * scale,
        bits > 0 ==> n >= 0x10_0000_0000_0000 * scale,
    ensures
        0 <= half_even(n, scale) * scale < 0x8_0000_0000_0000_0000,
        0 <= half_even(n, scale) <= n + 1,
        n <= 0x20_0000_0000_0000 ==> half_even(n, scale) * scale == n,
        0x20_0000_0000_0000 <= n ==> 0x20_0000_0000_0000 <= half_even(n, scale) * scale,
{
    lemma2_to64();
    let q = n / scale;
    let r = n % scale;
    vstd::arithmetic::div_mod::lemma_fundamental_div_mod(n, scale);
    vstd::arithmetic::div_mod::lemma_mod_bound(n, scale);
    assert(q * scale == scale * q) by (nonlinear_arith);
    assert((q + 1) * scale == scale * q + scale) by (nonlinear_arith);
    assert(0 <= q <= n) by (nonlinear_arith)
        requires
            n == scale * q + r,
            0 <= r < scale,
            1 <= scale,
            0 <= n,
    ;
    if bits == 0 {
        assert(scale == 1);
        assert(r == 0);
    } else {
        lemma_pow2_unfold(bits);
        lemma_pow2_pos((bits - 1) as nat);
        let half = pow2((bits - 1) as nat) as int;
        assert(scale == 2 * half);
        assert(n >= 0x20_0000_0000_0000 * half);
        if bits == 1 {
            assert(half == 1);
        }
        assert(scale >= 2);
        assert(q >= 0x10_0000_0000_0000) by (nonlinear_arith)
            requires
                n == scale * q + r,
                0 <= r < scale,
                n >= 0x10_0000_0000_0000 * scale,
                scale >= 1,
        ;
        assert(q * scale >= 0x20_0000_0000_0000) by (nonlinear_arith)
            requires
                q >= 0x10_0000_0000_0000,
                scale >= 2,
        ;
        assert((q + 1) * scale >= q * scale) by (nonlinear_arith)
            requires
                scale >= 1,
        ;
        if n == 0x20_0000_0000_0000 {
            assert(half == 1) by (nonlinear_arith)
                requires
                    0x20_0000_0000_0000 >= 0x20_0000_0000_0000 * half,
                    half >= 1,
            ;
            assert(scale == 2);
            assert(r == 0);
        }
    }
}

/// `value / unit` in tenths.
fn tenths(value: u64, unit: u64) -> (res: u64)
    requires
        unit == 1_000 && value < 1_000_000 || unit == 1_000_000,
        unit <= value,
    ensures
        res == tenths_of(value as int, unit as int),
{
    let n = to_binary64(value);
    let unit: u128 = unit as u128;
    let mut scale: u128 = 1;
    let mut bits: u32 = 0;
    proof {
        lemma2_to64();
        assert(n >= unit);
    }
    let ghost start = n as int;
    while bits < 52 && n * scale < unit * 0x10_0000_0000_0000
        invariant
            bits <= 52,
            unit == 1_000 || unit == 1_000_000,
            start == n,
            unit <= n < 0x8_0000_0000_0000_0000,
            scale == pow2(bits as nat),
            1 <= scale <= 0x10_0000_0000_0000,
            n * scale < unit * 0x20_0000_0000_0000,
            fraction_bits(start, unit as int, 0) == fraction_bits(
                start,
                unit as int,
                bits as nat,
            ),
        decreases 52 - bits,
    {
        proof {
            lemma_pow2_unfold((bits + 1) as nat);
            assert(n * (2 * scale) == 2 * (n * scale)) by (nonlinear_arith);
        }
        scale = scale * 2;
        bits = bits + 1;
        proof {
            assert(pow2(bits as nat) <= 0x10_0000_0000_0000) by {
                lemma2_to64_rest();
                if bits < 52 {
                    vstd::arithmetic::power2::lemma_pow2_strictly_increases(bits as nat, 52);
                }
            }
        }
    }
    assert(n * scale < 0x1_0000_0000_0000_0000_0000_0000);
    let quotient = round_half_even(n * scale, unit);
    proof {
        assert((n * scale) / unit as int <= n * scale) by {
            vstd::arithmetic::div_mod::lemma_div_is_ordered_by_denominator(
                n * scale,
                1,
                unit as int,
            );
            vstd::arithmetic::div_mod::lemma_div_basics(n * scale);
        }
        lemma_quotient_bound(n * scale, unit as int);
    }
    let rounded = round_half_even(quotient * 10, scale);
    proof {
        vstd::arithmetic::div_mod::lemma_div_is_ordered_by_denominator(
            quotient * 10,
            1,
            scale as int,
        );
        vstd::arithmetic::div_mod::lemma_div_basics(quotient * 10);
        assert(rounded <= quotient * 10 + 1);
    }
    rounded as u64
}

proof fn lemma_quotient_bound(n: int, unit: int)
    requires
        unit == 1_000 || unit == 1_000_000,
        0 <= n < unit * 0x20_0000_0000_0000,
    ensures
        n / unit <= 0x20_0000_0000_0000,
{
    if unit == 1_000 {
        assert(n / 1_000 <= 0x20_0000_0000_0000);
    } else {
        assert(n / 1_000_000 <= 0x20_0000_0000_0000);
    }
}

/// A count as it is shown: as it is below a thousand, else in thousands or millions.
pub fn compact_token_count(value: u64) -> (res: String)
    ensures
        res@ == compact_count(value),
{
    if value < 1_000 {
        return decimal(value);
    }
    let (unit, suffix): (u64, &str) = if value < 1_000_000 {
        (1_000, "k")
    } else {
        (1_000_000, "m")
    };
    let tenths: u64 = tenths(value, unit);
    let number = concat3(&decimal(tenths / 10), ".", &decimal(tenths % 10));
    concat(&number, suffix)
}

} // verus!
