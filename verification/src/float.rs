//! Floats as the 64 bits of their IEEE-754 double encoding.
//!
//! The library compares floats, negates them and converts between floats and
//! integers on the bits alone. Arithmetic that rounds a result, and the decimal
//! form of a float, are left to whoever drives the interpreter.

use vstd::arithmetic::div_mod::{
    lemma_div_multiples_vanish,
    lemma_fundamental_div_mod_converse,
    lemma_multiply_divide_lt,
};
use vstd::arithmetic::power2::{
    lemma2_to64,
    lemma2_to64_rest,
    lemma_pow2_adds,
    lemma_pow2_pos,
    lemma_pow2_strictly_increases,
    lemma_pow2_unfold,
    pow2,
};
use vstd::prelude::*;

verus! {

/// The sign bit.
pub const SIGN: u64 = 0x8000_0000_0000_0000;

/// The bits of positive infinity: every magnitude above them is a NaN.
pub const INFINITY: u64 = 0x7FF0_0000_0000_0000;

/// Two to the power 52: the weight of the exponent field, and the hidden bit
/// of a significand.
pub const HIDDEN: u64 = 0x10_0000_0000_0000;

/// The bits of `1.0`.
pub const ONE: u64 = 0x3FF0_0000_0000_0000;

/// The bits without the sign.
pub open spec fn magnitude(b: u64) -> u64 {
    if b >= SIGN {
        (b - SIGN) as u64
    } else {
        b
    }
}

/// The sign bit is set.
pub open spec fn is_negative(b: u64) -> bool {
    b >= SIGN
}

/// The bits encode no number.
pub open spec fn is_nan(b: u64) -> bool {
    magnitude(b) > INFINITY
}

/// The bits encode zero, of either sign.
pub open spec fn is_zero(b: u64) -> bool {
    magnitude(b) == 0
}

/// An integer that orders the floats other than NaN as their values are
/// ordered: the magnitude, negated under a sign. Both zeros have key 0.
pub open spec fn order_key(b: u64) -> int {
    if b >= SIGN {
        -(magnitude(b) as int)
    } else {
        magnitude(b) as int
    }
}

/// Equality of floats: a NaN equals nothing, and the two zeros are equal.
pub open spec fn equal(a: u64, b: u64) -> bool {
    !is_nan(a) && !is_nan(b) && order_key(a) == order_key(b)
}

/// The order of floats: a NaN is below nothing and nothing is below it.
pub open spec fn less(a: u64, b: u64) -> bool {
    !is_nan(a) && !is_nan(b) && order_key(a) < order_key(b)
}

/// The float with the other sign.
pub open spec fn negated(b: u64) -> u64 {
    if b >= SIGN {
        (b - SIGN) as u64
    } else {
        (b + SIGN) as u64
    }
}

/// The position of the highest set bit of a positive number.
pub open spec fn floor_log2(m: nat) -> nat
    decreases m,
{
    if m <= 1 {
        0
    } else {
        1 + floor_log2(m / 2)
    }
}

/// The 53-bit significand of the double nearest to `m`, which is positive: `m`
/// scaled to 53 bits, rounded to nearest where bits are lost, to even on a tie.
/// A carry out of the rounding gives two to the power 53.
pub open spec fn significand(m: nat) -> nat {
    let e = floor_log2(m);
    if e <= 52 {
        m * pow2((52 - e) as nat)
    } else {
        let d = pow2((e - 52) as nat);
        let q = m / d;
        let r = m % d;
        if 2 * r > d || (2 * r == d && q % 2 == 1) {
            q + 1
        } else {
            q
        }
    }
}

/// The bits of the double nearest to the positive integer `m`.
pub open spec fn of_magnitude(m: nat) -> int {
    (floor_log2(m) + 1022) * HIDDEN + significand(m)
}

/// The double nearest to an integer, ties to even.
pub open spec fn of_int(v: int) -> u64 {
    if v == 0 {
        0
    } else if v > 0 {
        of_magnitude(v as nat) as u64
    } else {
        (SIGN + of_magnitude((-v) as nat)) as u64
    }
}

/// The whole part of a float's magnitude, where it is below two to the power
/// 127; that power for a larger magnitude and for infinity; 0 for a NaN.
pub open spec fn whole_part(b: u64) -> int {
    let mag = magnitude(b);
    let exp = mag / HIDDEN;
    let sig = HIDDEN + mag % HIDDEN;
    if mag > INFINITY || exp < 1023 {
        0
    } else if exp >= 1150 {
        pow2(127) as int
    } else if exp >= 1075 {
        sig * pow2((exp - 1075) as nat)
    } else {
        sig / (pow2((1075 - exp) as nat) as int)
    }
}

/// The integer a float is cut down to: its value without the fraction, kept
/// within the 128-bit range, and 0 for a NaN.
pub open spec fn to_int(b: u64) -> int {
    if is_negative(b) {
        -whole_part(b)
    } else if whole_part(b) >= pow2(127) {
        pow2(127) - 1
    } else {
        whole_part(b)
    }
}

/// Whether the bits encode no number.
pub fn nan(b: u64) -> (r: bool)
    ensures
        r == is_nan(b),
{
    let mag = if b >= SIGN {
        b - SIGN
    } else {
        b
    };
    mag > INFINITY
}

/// Whether the bits encode zero, of either sign.
pub fn zero(b: u64) -> (r: bool)
    ensures
        r == is_zero(b),
{
    b == 0 || b == SIGN
}

/// Whether two floats are equal.
pub fn eq(a: u64, b: u64) -> (r: bool)
    ensures
        r == equal(a, b),
{
    if nan(a) || nan(b) {
        return false;
    }
    a == b || (zero(a) && zero(b))
}

/// Whether the first float is below the second.
pub fn lt(a: u64, b: u64) -> (r: bool)
    ensures
        r == less(a, b),
{
    if nan(a) || nan(b) {
        return false;
    }
    if a >= SIGN {
        if b >= SIGN {
            // both negative: the larger magnitude is the smaller value
            a > b
        } else {
            // negative beside non-negative: below unless both are zero
            !(a == SIGN && b == 0)
        }
    } else {
        if b >= SIGN {
            false
        } else {
            a < b
        }
    }
}

/// The float with the other sign.
pub fn neg(b: u64) -> (r: u64)
    ensures
        r == negated(b),
{
    if b >= SIGN {
        b - SIGN
    } else {
        b + SIGN
    }
}

/// The powers of two that bound the conversions.
pub proof fn lemma_pow2_values()
    ensures
        pow2(0) == 1,
        pow2(52) == 0x10_0000_0000_0000,
        pow2(53) == 0x20_0000_0000_0000,
        pow2(74) == 0x400_0000_0000_0000_0000,
        pow2(127) == 0x8000_0000_0000_0000_0000_0000_0000_0000,
        pow2(128) == 0x1_0000_0000_0000_0000_0000_0000_0000_0000,
{
    lemma2_to64();
    lemma2_to64_rest();
    lemma_pow2_adds(64, 63);
    lemma_pow2_adds(64, 64);
    lemma_pow2_adds(64, 10);
}

/// A power of two does not shrink as its exponent grows.
pub proof fn lemma_pow2_monotonic(a: nat, b: nat)
    requires
        a <= b,
    ensures
        pow2(a) <= pow2(b),
{
    if a < b {
        lemma_pow2_strictly_increases(a, b);
    }
}

/// A positive number lies between the power of two at its highest bit and the
/// next one.
pub proof fn lemma_floor_log2_bounds(m: nat)
    requires
        m >= 1,
    ensures
        pow2(floor_log2(m)) <= m < 2 * pow2(floor_log2(m)),
    decreases m,
{
    if m <= 1 {
        lemma2_to64();
    } else {
        lemma_floor_log2_bounds(m / 2);
        lemma_pow2_unfold(floor_log2(m));
    }
}

fn power_of_two(n: u32) -> (p: u128)
    requires
        n <= 127,
    ensures
        p == pow2(n as nat),
{
    let mut p: u128 = 1;
    let mut i: u32 = 0;
    proof {
        lemma2_to64();
    }
    while i < n
        invariant
            i <= n <= 127,
            p == pow2(i as nat),
        decreases n - i,
    {
        proof {
            lemma_pow2_monotonic(i as nat, 126);
            lemma_pow2_unfold(127);
            lemma_pow2_values();
            lemma_pow2_unfold((i + 1) as nat);
        }
        p = p * 2;
        i = i + 1;
    }
    p
}

fn log2(m: u128) -> (e: u32)
    requires
        m >= 1,
    ensures
        e == floor_log2(m as nat),
        e <= 127,
{
    let mut x: u128 = m;
    let mut e: u128 = 0;
    while x > 1
        invariant
            x >= 1,
            e + x <= m,
            floor_log2(m as nat) == e + floor_log2(x as nat),
        decreases x,
    {
        x = x / 2;
        e = e + 1;
    }
    proof {
        lemma_floor_log2_bounds(m as nat);
        lemma_pow2_values();
        if e >= 128 {
            lemma_pow2_monotonic(128, e as nat);
        }
    }
    e as u32
}

/// The double nearest to an integer, ties to even.
pub fn from_int(v: i128) -> (r: u64)
    ensures
        r == of_int(v as int),
{
    if v == 0 {
        return 0;
    }
    let m: u128 = if v > 0 {
        v as u128
    } else if v == i128::MIN {
        0x8000_0000_0000_0000_0000_0000_0000_0000u128
    } else {
        (-v) as u128
    };
    let e = log2(m);
    proof {
        lemma_floor_log2_bounds(m as nat);
        lemma_pow2_values();
    }
    let sig: u128 = if e <= 52 {
        let k = power_of_two(52 - e);
        proof {
            lemma_pow2_adds(e as nat, (52 - e) as nat);
            lemma_pow2_pos((52 - e) as nat);
            let a = pow2(e as nat) as int;
            let b = k as int;
            assert((m as int) * b < 2 * (a * b)) by (nonlinear_arith)
                requires
                    (m as int) < 2 * a,
                    b > 0,
            ;
        }
        m * k
    } else {
        let d = power_of_two(e - 52);
        proof {
            lemma_pow2_adds((e - 52) as nat, 52);
            let a = pow2(e as nat) as int;
            assert(2 * ((d as int) * 0x10_0000_0000_0000) == (d as int) * 0x20_0000_0000_0000)
                by (nonlinear_arith);
            lemma_multiply_divide_lt(m as int, d as int, 0x20_0000_0000_0000);
        }
        let q = m / d;
        let r = m % d;
        if r > d - r || (r == d - r && q % 2 == 1) {
            q + 1
        } else {
            q
        }
    };
    let mag: u64 = ((e as u128 + 1022) * 0x10_0000_0000_0000 + sig) as u64;
    if v > 0 {
        mag
    } else {
        mag + SIGN
    }
}

/// The integer a float is cut down to: its value without the fraction, kept
/// within the 128-bit range, and 0 for a NaN.
pub fn truncate(b: u64) -> (r: i128)
    ensures
        r == to_int(b),
{
    let negative = b >= SIGN;
    let mag: u64 = if negative {
        b - SIGN
    } else {
        b
    };
    let exp: u64 = mag / HIDDEN;
    let sig: u128 = (HIDDEN + mag % HIDDEN) as u128;
    proof {
        lemma_pow2_values();
    }
    if mag > INFINITY || exp < 1023 {
        return 0;
    }
    if exp >= 1150 {
        return if negative {
            i128::MIN
        } else {
            i128::MAX
        };
    }
    let whole: u128 = if exp >= 1075 {
        let k = power_of_two((exp - 1075) as u32);
        proof {
            lemma_pow2_monotonic((exp - 1075) as nat, 74);
            lemma_pow2_pos((exp - 1075) as nat);
            assert((sig as int) * (k as int) < 0x20_0000_0000_0000 * 0x400_0000_0000_0000_0000)
                by (nonlinear_arith)
                requires
                    0 <= (sig as int) < 0x20_0000_0000_0000,
                    0 < (k as int) <= 0x400_0000_0000_0000_0000,
            ;
        }
        sig * k
    } else {
        let d = power_of_two((1075 - exp) as u32);
        proof {
            lemma_pow2_pos((1075 - exp) as nat);
        }
        sig / d
    };
    if negative {
        -(whole as i128)
    } else {
        whole as i128
    }
}

/// An integer of at most 53 bits is its nearest double exactly: turned into a
/// float and cut down to an integer again, it is what it was.
pub proof fn law_small_integers_are_exact(v: int)
    requires
        -0x20_0000_0000_0000 < v < 0x20_0000_0000_0000,
    ensures
        to_int(of_int(v)) == v,
{
    lemma_pow2_values();
    if v != 0 {
        let m: nat = if v > 0 {
            v as nat
        } else {
            (-v) as nat
        };
        let e = floor_log2(m);
        lemma_floor_log2_bounds(m);
        if e > 52 {
            lemma_pow2_monotonic(53, e);
        }
        let k = pow2((52 - e) as nat) as int;
        let sig = (m as int) * k;
        lemma_pow2_adds(e, (52 - e) as nat);
        lemma_pow2_pos((52 - e) as nat);
        assert(0x10_0000_0000_0000 <= sig < 0x20_0000_0000_0000) by (nonlinear_arith)
            requires
                pow2(e) <= m < 2 * pow2(e),
                (pow2(e) as int) * k == 0x10_0000_0000_0000,
                k > 0,
                sig == (m as int) * k,
        ;
        let mag: int = (e + 1022) * 0x10_0000_0000_0000 + sig;
        let low = sig - 0x10_0000_0000_0000;
        lemma_fundamental_div_mod_converse(mag, 0x10_0000_0000_0000, (e + 1023) as int, low);
        assert(magnitude(of_int(v)) == mag);
        lemma_div_multiples_vanish(m as int, k);
        assert((m as int) * k / k == m) by (nonlinear_arith)
            requires
                k * (m as int) / k == m,
        ;
        let b = of_int(v);
        assert(magnitude(b) / HIDDEN == e + 1023);
        assert(HIDDEN + magnitude(b) % HIDDEN == sig);
        assert(1075 - (e + 1023) == 52 - e);
        if e == 52 {
            assert(k == 1);
            assert(sig * (pow2(0) as int) == m) by (nonlinear_arith)
                requires
                    sig == (m as int) * 1,
                    pow2(0) == 1,
            ;
        }
        assert(whole_part(b) == m);
    }
}

/// The order of floats is a strict order, equality does not depend on the
/// side, and of two floats that are numbers one is below the other or they
/// are equal.
pub proof fn law_float_order(a: u64, b: u64, c: u64)
    ensures
        !less(a, a),
        less(a, b) ==> !less(b, a),
        less(a, b) && less(b, c) ==> less(a, c),
        equal(a, b) == equal(b, a),
        !is_nan(a) && !is_nan(b) ==> less(a, b) || equal(a, b) || less(b, a),
        !(less(a, b) && equal(a, b)),
{
}

} // verus!
