//! Single-precision numbers as bit patterns.
//!
//! A number is held as the 32 bits of its IEEE 754 encoding: one sign bit, eight bits
//! of biased exponent, twenty-three bits of fraction. This module reads such patterns
//! with integer arithmetic only: it orders them, truncates them to integers, and finds
//! the pattern nearest to an integer. Sums, differences, products and quotients are not
//! computed here.

use vstd::prelude::*;
use vstd::arithmetic::power2::{
    lemma2_to64, lemma_pow2_adds, lemma_pow2_pos, lemma_pow2_strictly_increases, lemma_pow2_unfold,
    pow2,
};

verus! {

/// Two to the power twenty-three: the weight of the exponent field, and the hidden bit
/// of a significand.
pub const HIDDEN_BIT: u32 = 0x80_0000;

/// Two to the power thirty-one: the weight of the sign bit.
pub const SIGN_BIT: u32 = 0x8000_0000;

/// Whether the sign bit is set.
pub open spec fn is_negative(bits: u32) -> bool {
    bits >= SIGN_BIT
}

/// The biased exponent, from 0 to 255.
pub open spec fn exponent_field(bits: u32) -> int {
    (bits as int / HIDDEN_BIT as int) % 256
}

/// The fraction, below two to the power twenty-three.
pub open spec fn fraction_field(bits: u32) -> int {
    bits as int % HIDDEN_BIT as int
}

/// Whether the pattern encodes no number at all.
pub open spec fn is_nan(bits: u32) -> bool {
    exponent_field(bits) == 255 && fraction_field(bits) != 0
}

/// An integer that grows with the number encoded: the pattern without its sign bit,
/// negated where the sign bit is set. Both zeros have key 0.
pub open spec fn order_key(bits: u32) -> int {
    let magnitude = bits as int % SIGN_BIT as int;
    if is_negative(bits) {
        -magnitude
    } else {
        magnitude
    }
}

/// Whether `a` encodes a number below the number that `b` encodes.
pub open spec fn less_than(a: u32, b: u32) -> bool {
    !is_nan(a) && !is_nan(b) && order_key(a) < order_key(b)
}

/// Whether `a` and `b` encode the same number. Not-a-number equals nothing, itself
/// included, and the two zeros are equal.
pub open spec fn equal_to(a: u32, b: u32) -> bool {
    !is_nan(a) && !is_nan(b) && order_key(a) == order_key(b)
}

/// The whole part of the magnitude of the number encoded: its significand scaled by
/// its exponent, rounded down. Infinity counts as a number beyond every integer.
pub open spec fn whole_magnitude(bits: u32) -> int {
    let scale = exponent_field(bits) - 127;
    let significand = HIDDEN_BIT as int + fraction_field(bits);
    if scale < 0 {
        0
    } else if scale <= 23 {
        significand / pow2((23 - scale) as nat) as int
    } else {
        significand * pow2((scale - 23) as nat)
    }
}

/// The number encoded, truncated toward zero and limited to the 32-bit signed
/// integers. Not-a-number gives 0.
pub open spec fn truncated(bits: u32) -> i32 {
    if is_nan(bits) {
        0
    } else if is_negative(bits) {
        if whole_magnitude(bits) >= 0x8000_0000 {
            i32::MIN
        } else {
            (-whole_magnitude(bits)) as i32
        }
    } else {
        if whole_magnitude(bits) > i32::MAX {
            i32::MAX
        } else {
            whole_magnitude(bits) as i32
        }
    }
}

/// The number of binary digits of `n`: 0 for 0, otherwise one more than the position
/// of its highest set bit.
pub open spec fn bit_length(n: nat) -> nat
    decreases n,
{
    if n == 0 {
        0
    } else {
        1 + bit_length(n / 2)
    }
}

/// The quotient of `n` by `d`, rounded to the nearest integer; a quotient halfway
/// between two integers goes to the even one.
pub open spec fn round_half_even(n: nat, d: nat) -> nat
    recommends
        d > 0,
{
    let quotient = n / d;
    let rest = n % d;
    if 2 * rest > d || (2 * rest == d && quotient % 2 == 1) {
        quotient + 1
    } else {
        quotient
    }
}

/// The pattern with the given sign, biased exponent and 24-bit significand.
pub open spec fn encode(negative: bool, exponent: nat, significand: nat) -> int {
    (if negative {
        SIGN_BIT as int
    } else {
        0
    }) + exponent * HIDDEN_BIT + (significand - HIDDEN_BIT)
}

/// The pattern of the single-precision number nearest to the integer `x`; where `x`
/// lies halfway between two of them, the one with the even significand. Integers of at
/// most 24 binary digits are encoded exactly.
pub open spec fn nearest(x: int) -> int {
    if x == 0 {
        0
    } else {
        let magnitude = (if x < 0 {
            -x
        } else {
            x
        }) as nat;
        let length = bit_length(magnitude);
        if length <= 24 {
            encode(x < 0, 126 + length, magnitude * pow2((24 - length) as nat))
        } else {
            let rounded = round_half_even(magnitude, pow2((length - 24) as nat));
            if rounded == 2 * HIDDEN_BIT {
                encode(x < 0, 127 + length, HIDDEN_BIT as nat)
            } else {
                encode(x < 0, 126 + length, rounded)
            }
        }
    }
}

/// A positive number lies between the two powers of two that its length names.
pub proof fn lemma_bit_length_bounds(n: nat)
    requires
        n > 0,
    ensures
        bit_length(n) >= 1,
        pow2((bit_length(n) - 1) as nat) <= n < pow2(bit_length(n)),
    decreases n,
{
    lemma2_to64();
    if n == 1 {
        assert(bit_length(1) == 1 + bit_length(0));
    } else {
        lemma_bit_length_bounds(n / 2);
        let half = bit_length(n / 2);
        assert(bit_length(n) == 1 + half);
        lemma_pow2_unfold(half);
        lemma_pow2_unfold(half + 1);
    }
}

/// The number of binary digits of `n`.
pub fn length_of(n: u32) -> (length: u32)
    ensures
        length == bit_length(n as nat),
        length <= 32,
{
    let mut rest: u32 = n;
    let mut length: u32 = 0;
    proof {
        if n > 0 {
            lemma_bit_length_bounds(n as nat);
            lemma2_to64();
            if bit_length(n as nat) > 32 {
                lemma_pow2_strictly_increases(32, (bit_length(n as nat) - 1) as nat);
            }
        }
    }
    while rest > 0
        invariant
            bit_length(n as nat) == length + bit_length(rest as nat),
            bit_length(n as nat) <= 32,
        decreases rest,
    {
        rest = rest / 2;
        length += 1;
    }
    length
}

/// Two to the power `exponent`.
pub fn power_of_two(exponent: u32) -> (power: u32)
    requires
        exponent < 32,
    ensures
        power == pow2(exponent as nat),
{
    let mut power: u32 = 1;
    let mut i: u32 = 0;
    proof {
        lemma2_to64();
    }
    while i < exponent
        invariant
            i <= exponent < 32,
            power == pow2(i as nat),
        decreases exponent - i,
    {
        proof {
            lemma_pow2_adds(i as nat, 1);
            lemma2_to64();
            lemma_pow2_strictly_increases((i + 1) as nat, 32);
        }
        power = power * 2;
        i += 1;
    }
    power
}

/// Whether the pattern encodes no number at all.
pub fn not_a_number(bits: u32) -> (r: bool)
    ensures
        r == is_nan(bits),
{
    (bits / HIDDEN_BIT) % 256 == 255 && bits % HIDDEN_BIT != 0
}

/// The order key of a pattern.
pub fn key_of(bits: u32) -> (key: i64)
    ensures
        key == order_key(bits),
{
    let magnitude: u32 = bits % SIGN_BIT;
    if bits >= SIGN_BIT {
        -(magnitude as i64)
    } else {
        magnitude as i64
    }
}

/// Whether the number that `a` encodes is below the number that `b` encodes.
pub fn less(a: u32, b: u32) -> (r: bool)
    ensures
        r == less_than(a, b),
{
    !not_a_number(a) && !not_a_number(b) && key_of(a) < key_of(b)
}

/// Whether `a` and `b` encode the same number.
pub fn equal(a: u32, b: u32) -> (r: bool)
    ensures
        r == equal_to(a, b),
{
    !not_a_number(a) && !not_a_number(b) && key_of(a) == key_of(b)
}

/// Truncates the number encoded toward zero. Numbers beyond the 32-bit signed integers
/// give the nearest of them, not-a-number gives 0.
pub fn truncate(bits: u32) -> (r: i32)
    ensures
        r == truncated(bits),
{
    let negative = bits >= SIGN_BIT;
    let exponent: u32 = (bits / HIDDEN_BIT) % 256;
    let fraction: u32 = bits % HIDDEN_BIT;
    if exponent == 255 && fraction != 0 {
        return 0;
    }
    if exponent < 127 {
        return 0;
    }
    let significand: u32 = HIDDEN_BIT + fraction;
    let scale: u32 = exponent - 127;
    if scale >= 31 {
        proof {
            lemma2_to64();
            if scale > 31 {
                lemma_pow2_strictly_increases(8, (scale - 23) as nat);
            }
            assert(significand * pow2((scale - 23) as nat) >= 0x8000_0000) by (nonlinear_arith)
                requires
                    significand >= 0x80_0000,
                    pow2((scale - 23) as nat) >= 0x100,
            ;
        }
        return if negative {
            i32::MIN
        } else {
            i32::MAX
        };
    }
    let magnitude: u32 = if scale <= 23 {
        let divisor = power_of_two(23 - scale);
        proof {
            lemma_pow2_pos((23 - scale) as nat);
        }
        significand / divisor
    } else {
        let factor = power_of_two(scale - 23);
        proof {
            lemma2_to64();
            if scale < 30 {
                lemma_pow2_strictly_increases((scale - 23) as nat, 7);
            }
            assert(significand * factor < 0x8000_0000) by (nonlinear_arith)
                requires
                    significand < 0x100_0000,
                    factor <= 0x80,
            ;
        }
        significand * factor
    };
    assert(magnitude == whole_magnitude(bits));
    assert(magnitude < 0x8000_0000) by {
        if scale <= 23 {
            lemma_pow2_pos((23 - scale) as nat);
            assert(significand as int / pow2((23 - scale) as nat) as int <= significand)
                by (nonlinear_arith)
                requires
                    significand >= 0,
                    pow2((23 - scale) as nat) >= 1,
            ;
        }
    }
    if negative {
        -(magnitude as i32)
    } else {
        magnitude as i32
    }
}

/// The pattern of the single-precision number nearest to `x`.
pub fn from_int(x: i32) -> (bits: u32)
    ensures
        bits == nearest(x as int),
{
    if x == 0 {
        return 0;
    }
    let negative = x < 0;
    let magnitude: u32 = if negative {
        (-(x as i64)) as u32
    } else {
        x as u32
    };
    let length = length_of(magnitude);
    proof {
        lemma_bit_length_bounds(magnitude as nat);
        lemma2_to64();
    }
    let exponent: u32;
    let significand: u32;
    if length <= 24 {
        let factor = power_of_two(24 - length);
        proof {
            lemma_pow2_adds((length - 1) as nat, (24 - length) as nat);
            lemma_pow2_adds(length as nat, (24 - length) as nat);
            lemma_pow2_pos((24 - length) as nat);
            let low = pow2((length - 1) as nat);
            let high = pow2(length as nat);
            assert(low * factor <= magnitude * factor < high * factor) by (nonlinear_arith)
                requires
                    low <= magnitude < high,
                    factor > 0,
            ;
        }
        exponent = 126 + length;
        significand = magnitude * factor;
    } else {
        let divisor = power_of_two(length - 24);
        proof {
            lemma_pow2_adds(23, (length - 24) as nat);
            lemma_pow2_adds(24, (length - 24) as nat);
            lemma_pow2_pos((length - 24) as nat);
            if length < 32 {
                lemma_pow2_strictly_increases((length - 24) as nat, 8);
            }
            assert(0x80_0000 <= (magnitude as int) / (divisor as int) && (magnitude as int) / (
            divisor as int) < 0x100_0000) by (nonlinear_arith)
                requires
                    0x80_0000 * divisor <= magnitude < 0x100_0000 * divisor,
                    divisor > 0,
            ;
        }
        let quotient = magnitude / divisor;
        let rest = magnitude % divisor;
        let rounded = if 2 * rest > divisor || (2 * rest == divisor && quotient % 2 == 1) {
            quotient + 1
        } else {
            quotient
        };
        assert(rounded == round_half_even(magnitude as nat, pow2((length - 24) as nat)));
        if rounded == 2 * HIDDEN_BIT {
            exponent = 127 + length;
            significand = HIDDEN_BIT;
        } else {
            exponent = 126 + length;
            significand = rounded;
        }
    }
    let sign: u32 = if negative {
        SIGN_BIT
    } else {
        0
    };
    assert(exponent * HIDDEN_BIT < 0x5000_0000) by (nonlinear_arith)
        requires
            exponent <= 159,
    ;
    sign + exponent * HIDDEN_BIT + (significand - HIDDEN_BIT)
}

} // verus!
