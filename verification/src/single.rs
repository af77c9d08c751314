//! Single-precision numbers by their bits: tests of saved numbers, and the numbers that integers
//! round to.
use crate::macro_engine::F32Bits;
use vstd::arithmetic::power2::{lemma_pow2_pos, lemma_pow2_unfold, pow2};
use vstd::prelude::*;

verus! {

/// The bits of the number one.
pub const SINGLE_ONE: u32 = 0x3F80_0000;

/// The bits without the sign.
pub open spec fn magnitude(value: F32Bits) -> u32 {
    value.0 % 0x8000_0000
}

/// Neither infinite nor a NaN.
pub open spec fn finite(value: F32Bits) -> bool {
    magnitude(value) < 0x7F80_0000
}

pub fn is_finite(value: F32Bits) -> (result: bool)
    ensures
        result == finite(value),
{
    value.0 % 0x8000_0000 < 0x7F80_0000
}

/// Two numbers compare as equal: neither is a NaN, and they are the same or both zero.
pub open spec fn equal_singles(a: F32Bits, b: F32Bits) -> bool {
    magnitude(a) <= 0x7F80_0000 && magnitude(b) <= 0x7F80_0000 && (a == b || (magnitude(a) == 0
        && magnitude(b) == 0))
}

/// A number as it is printed: every NaN is printed as one.
pub open spec fn printed_single(a: F32Bits) -> F32Bits {
    if magnitude(a) > 0x7F80_0000 {
        F32Bits(0x7FC0_0000)
    } else {
        a
    }
}

pub fn print_single(a: F32Bits) -> (printed: F32Bits)
    ensures
        printed == printed_single(a),
{
    if a.0 % 0x8000_0000 > 0x7F80_0000 {
        F32Bits(0x7FC0_0000)
    } else {
        a
    }
}

pub fn singles_equal(a: F32Bits, b: F32Bits) -> (equal: bool)
    ensures
        equal == equal_singles(a, b),
{
    let x: u32 = a.0 % 0x8000_0000;
    let y: u32 = b.0 % 0x8000_0000;
    x <= 0x7F80_0000 && y <= 0x7F80_0000 && (a.0 == b.0 || (x == 0 && y == 0))
}

impl PartialEq for F32Bits {
    fn eq(&self, other: &Self) -> (equal: bool) {
        singles_equal(*self, *other)
    }
}

impl vstd::std_specs::cmp::PartialEqSpecImpl for F32Bits {
    open spec fn obeys_eq_spec() -> bool {
        true
    }

    open spec fn eq_spec(&self, other: &Self) -> bool {
        equal_singles(*self, *other)
    }
}

/// Distance between the single-precision numbers around an integer of at least 2^24.
pub open spec fn unit(value: nat) -> nat
    decreases value,
{
    if value < 0x100_0000 {
        1
    } else {
        2 * unit(value / 2)
    }
}

/// The single-precision number nearest to an integer; of two, the one whose last bit is zero.
pub open spec fn nearest(value: nat) -> nat {
    let step = unit(value);
    let below = value / step;
    let rest = value % step;
    if 2 * rest < step || (2 * rest == step && below % 2 == 0) {
        below * step
    } else {
        (below + 1) * step
    }
}

/// [`nearest`] for integers of either sign.
pub open spec fn rounded(value: int) -> int {
    if value < 0 {
        -nearest((-value) as nat)
    } else {
        nearest(value as nat) as int
    }
}

/// Bound of the integers that are rounded.
pub open spec fn roundable(value: int) -> bool {
    -0x1_0000_0000_0000_0000_0000_0000 <= value <= 0x1_0000_0000_0000_0000_0000_0000
}

proof fn lemma_unit_divides(value: nat)
    ensures
        1 <= unit(value),
        value >= 0x100_0000 ==> unit(value) * 0x80_0000 <= value,
        value < 0x100_0000 ==> unit(value) == 1,
    decreases value,
{
    if value >= 0x100_0000 {
        lemma_unit_divides(value / 2);
    }
}

/// Rounds an integer to the nearest single-precision number.
fn round_magnitude(value: u128) -> (result: u128)
    requires
        value <= 0x1_0000_0000_0000_0000_0000_0000,
    ensures
        result as nat == nearest(value as nat),
        result <= 2 * value,
{
    let mut step: u128 = 1;
    let mut rest: u128 = value;
    while rest >= 0x100_0000
        invariant
            value <= 0x1_0000_0000_0000_0000_0000_0000,
            1 <= step,
            step * rest <= value,
            unit(value as nat) == step * unit(rest as nat),
        decreases rest,
    {
        let half: u128 = rest / 2;
        proof {
            assert(unit(rest as nat) == 2 * unit(half as nat));
            assert(step * (2 * unit(half as nat)) == (step * 2) * unit(half as nat))
                by (nonlinear_arith);
            assert((step * 2) * half <= step * rest) by (nonlinear_arith)
                requires
                    half * 2 <= rest,
                    1 <= step,
            ;
            assert(step * 2 <= value) by (nonlinear_arith)
                requires
                    step * rest <= value,
                    rest >= 2,
                    step >= 1,
            ;
        }
        step = step * 2;
        rest = half;
    }
    proof {
        assert(unit(rest as nat) == 1);
        assert(step * 1 == step) by (nonlinear_arith);
        assert(unit(value as nat) == step);
        lemma_unit_divides(value as nat);
    }
    let below: u128 = value / step;
    let over: u128 = value % step;
    proof {
        vstd::arithmetic::div_mod::lemma_fundamental_div_mod(value as int, step as int);
        assert(below * step <= value) by (nonlinear_arith)
            requires
                value == step * below + over,
                over >= 0,
        ;
        assert((below + 1) * step == below * step + step) by (nonlinear_arith);
        assert(value >= 1 ==> step <= value);
        assert(value == 0 ==> over == 0);
    }
    if 2 * over < step || (2 * over == step && below % 2 == 0) {
        below * step
    } else {
        (below + 1) * step
    }
}

pub fn round_single(value: i128) -> (result: i128)
    requires
        roundable(value as int),
    ensures
        result as int == rounded(value as int),
        value >= 0 ==> 0 <= result <= 2 * value,
        value < 0 ==> 2 * value <= result <= 0,
{
    if value < 0 {
        let magnitude: u128 = (-value) as u128;
        let result: u128 = round_magnitude(magnitude);
        -(result as i128)
    } else {
        round_magnitude(value as u128) as i128
    }
}

/// The bits of `mantissa * 2^exponent`, where that is a single-precision number.
pub open spec fn encoded(mantissa: nat, exponent: int) -> int
    decreases
            (if mantissa >= 0x80_0000 {
                mantissa as int
            } else {
                0x180_0000 - mantissa
            }),
{
    if mantissa == 0 {
        0
    } else if mantissa < 0x80_0000 {
        encoded(2 * mantissa, exponent - 1)
    } else if mantissa >= 0x100_0000 {
        encoded(mantissa / 2, exponent + 1)
    } else {
        (exponent + 150) * 0x80_0000 + (mantissa - 0x80_0000)
    }
}

/// The bits of an integer that is a single-precision number.
pub open spec fn single_bits(value: int) -> int {
    if value < 0 {
        0x8000_0000 + encoded((-value) as nat, 0)
    } else {
        encoded(value as nat, 0)
    }
}

/// The bits of a number that is large enough for its leading bit lie between those of two powers of
/// two.
proof fn lemma_encoded_large(mantissa: nat, exponent: int, k: nat)
    requires
        0x80_0000 <= mantissa,
        mantissa < 0x100_0000 * pow2(k),
    ensures
        (exponent + 150) * 0x80_0000 <= encoded(mantissa, exponent) < (exponent + k + 151)
            * 0x80_0000,
    decreases k,
{
    if mantissa >= 0x100_0000 {
        if k == 0 {
            vstd::arithmetic::power2::lemma2_to64();
        } else {
            lemma_pow2_unfold(k);
            let half = mantissa / 2;
            assert(half < 0x100_0000 * pow2((k - 1) as nat));
            lemma_encoded_large(half, exponent + 1, (k - 1) as nat);
        }
    }
}

proof fn lemma_encoded_small(mantissa: nat, exponent: int, j: nat)
    requires
        1 <= mantissa < 0x80_0000,
        mantissa * pow2(j) >= 0x80_0000,
    ensures
        (exponent - j + 150) * 0x80_0000 <= encoded(mantissa, exponent) < (exponent + 151)
            * 0x80_0000,
    decreases j,
{
    if j == 0 {
        vstd::arithmetic::power2::lemma2_to64();
    } else {
        lemma_pow2_unfold(j);
        let double = 2 * mantissa;
        if double < 0x80_0000 {
            assert(double * pow2((j - 1) as nat) == mantissa * pow2(j)) by (nonlinear_arith)
                requires
                    double == 2 * mantissa,
                    pow2(j) == 2 * pow2((j - 1) as nat),
            ;
            lemma_encoded_small(double, exponent - 1, (j - 1) as nat);
        } else {
            assert(encoded(double, exponent - 1) == (exponent - 1 + 150) * 0x80_0000 + (double
                - 0x80_0000));
        }
    }
}

/// Integers that are not too large have finite bits.
pub proof fn lemma_bits_finite(value: int)
    requires
        -0x4_0000_0000_0000_0000_0000_0000 <= value <= 0x4_0000_0000_0000_0000_0000_0000,
    ensures
        0 <= single_bits(value) < 0x1_0000_0000,
        finite(F32Bits(single_bits(value) as u32)),
{
    let size: nat = if value < 0 {
        (-value) as nat
    } else {
        value as nat
    };
    vstd::arithmetic::power2::lemma2_to64();
    vstd::arithmetic::power2::lemma_pow2_adds(64, 11);
    assert(pow2(11) == 0x800);
    assert(pow2(75) == 0x800_0000_0000_0000_0000) by (nonlinear_arith)
        requires
            pow2(75) == pow2(64) * pow2(11),
            pow2(64) == 0x1_0000_0000_0000_0000,
            pow2(11) == 0x800,
    ;
    if size >= 0x80_0000 {
        lemma_encoded_large(size, 0, 75);
    } else if size >= 1 {
        assert(pow2(23) == 0x80_0000);
        assert(size * pow2(23) >= 0x80_0000) by (nonlinear_arith)
            requires
                size >= 1,
                pow2(23) == 0x80_0000,
        ;
        lemma_encoded_small(size, 0, 23);
    }
    assert(0 <= encoded(size, 0) < 0x7F80_0000);
}

/// Rounding at most doubles a number and keeps its sign.
pub proof fn lemma_rounded_bounds(value: int)
    ensures
        value >= 0 ==> 0 <= rounded(value) <= 2 * value,
        value < 0 ==> 2 * value <= rounded(value) <= 0,
{
    let size: nat = if value < 0 {
        (-value) as nat
    } else {
        value as nat
    };
    let step = unit(size);
    lemma_unit_divides(size);
    let below = size / step;
    let over = size % step;
    vstd::arithmetic::div_mod::lemma_fundamental_div_mod(size as int, step as int);
    assert(0 <= below * step <= size) by (nonlinear_arith)
        requires
            size == step * below + over,
            over >= 0,
            below >= 0,
            step >= 1,
    ;
    assert((below + 1) * step == below * step + step) by (nonlinear_arith);
    assert(size >= 1 ==> step <= size);
    assert(size == 0 ==> over == 0);
    assert(nearest(size) <= 2 * size);
}

fn encode(value: u128) -> (bits: u32)
    requires
        value <= 0x4_0000_0000_0000_0000_0000_0000,
    ensures
        bits as int == encoded(value as nat, 0),
        bits < 0x7F80_0000,
{
    if value == 0 {
        return 0;
    }
    let mut mantissa: u128 = value;
    let mut exponent: i32 = 0;
    proof {
        vstd::arithmetic::power2::lemma2_to64();
        assert(mantissa * pow2(0) == mantissa) by (nonlinear_arith)
            requires
                pow2(0) == 1,
        ;
        assert(pow2(99) == 0x8_0000_0000_0000_0000_0000_0000) by {
            vstd::arithmetic::power2::lemma_pow2_adds(64, 35);
            vstd::arithmetic::power2::lemma_pow2_adds(32, 3);
            assert(pow2(3) == 8);
            assert(pow2(35) == 0x8_0000_0000);
            assert(pow2(64) == 0x1_0000_0000_0000_0000);
            assert(pow2(64) * pow2(35) == 0x8_0000_0000_0000_0000_0000_0000)
                by (nonlinear_arith)
                requires
                    pow2(35) == 0x8_0000_0000,
                    pow2(64) == 0x1_0000_0000_0000_0000,
            ;
        }
    }
    while mantissa >= 0x100_0000
        invariant
            value <= 0x4_0000_0000_0000_0000_0000_0000,
            pow2(99) == 0x8_0000_0000_0000_0000_0000_0000,
            0x80_0000 <= mantissa || exponent == 0,
            1 <= mantissa,
            0 <= exponent < 99,
            mantissa * pow2(exponent as nat) <= value,
            encoded(mantissa as nat, exponent as int) == encoded(value as nat, 0),
        decreases mantissa,
    {
        let half: u128 = mantissa / 2;
        proof {
            let low = pow2(exponent as nat);
            lemma_pow2_unfold((exponent + 1) as nat);
            lemma_pow2_pos((exponent + 1) as nat);
            assert(half * (2 * low) <= mantissa * low) by (nonlinear_arith)
                requires
                    half * 2 <= mantissa,
                    low >= 0,
            ;
            if exponent + 1 >= 99 {
                assert(half * pow2(99) >= pow2(99)) by (nonlinear_arith)
                    requires
                        half >= 1,
                        pow2(99) >= 0,
                ;
            }
        }
        mantissa = half;
        exponent += 1;
    }
    while mantissa < 0x80_0000
        invariant
            1 <= mantissa < 0x100_0000,
            mantissa < 0x80_0000 ==> exponent <= 0,
            exponent < 99,
            -23 <= exponent,
            mantissa >= pow2((-exponent) as nat) || exponent > 0,
            encoded(mantissa as nat, exponent as int) == encoded(value as nat, 0),
        decreases 0x100_0000 - mantissa,
    {
        proof {
            lemma_pow2_unfold((-exponent + 1) as nat);
            if exponent - 1 < -23 {
                vstd::arithmetic::power2::lemma2_to64();
                assert(pow2(23) == 0x80_0000);
            }
        }
        mantissa = mantissa * 2;
        exponent -= 1;
    }
    let field: u32 = (exponent + 150) as u32;
    assert(field <= 249);
    field * 0x80_0000 + (mantissa as u32 - 0x80_0000)
}

/// The bits of an integer that is a single-precision number.
pub fn single_from(value: i128) -> (bits: F32Bits)
    requires
        -0x4_0000_0000_0000_0000_0000_0000 <= value <= 0x4_0000_0000_0000_0000_0000_0000,
    ensures
        bits.0 as int == single_bits(value as int),
        finite(bits),
{
    if value < 0 {
        let bits: u32 = encode((-value) as u128);
        F32Bits(bits + 0x8000_0000)
    } else {
        F32Bits(encode(value as u128))
    }
}

} // verus!
