//! Floating-point numbers, held by their IEEE 754 bits.

use vstd::arithmetic::power2::{
    lemma2_to64, lemma2_to64_rest, lemma_pow2_adds, lemma_pow2_pos,
    lemma_pow2_strictly_increases, pow2,
};
use vstd::prelude::*;

verus! {

/// A double-precision number, held by its bits.
#[derive(Clone, Copy, Debug)]
pub struct F64 {
    /// Sign, exponent and significand, from the highest bit down.
    pub bits: u64,
}

impl F64 {
    /// The bits without the sign.
    pub open spec fn magnitude(self) -> int {
        self.bits as int % 0x8000_0000_0000_0000
    }

    /// Whether the bits stand for no number.
    pub open spec fn is_nan(self) -> bool {
        self.magnitude() > 0x7ff0_0000_0000_0000
    }
}

/// Numbers are equal as IEEE 754 compares them: nothing equals a NaN, and the two
/// zeros are equal.
impl PartialEq for F64 {
    fn eq(&self, other: &Self) -> (r: bool) {
        let a: u64 = self.bits % 0x8000_0000_0000_0000;
        let b: u64 = other.bits % 0x8000_0000_0000_0000;
        a <= 0x7ff0_0000_0000_0000 && b <= 0x7ff0_0000_0000_0000 && (self.bits == other.bits || (a
            == 0 && b == 0))
    }
}

impl vstd::std_specs::cmp::PartialEqSpecImpl for F64 {
    open spec fn obeys_eq_spec() -> bool {
        true
    }

    open spec fn eq_spec(&self, other: &Self) -> bool {
        !self.is_nan() && !other.is_nan() && (self.bits == other.bits || (self.magnitude() == 0
            && other.magnitude() == 0))
    }
}

/// A single-precision number, held by its bits.
#[derive(Clone, Copy, Debug)]
pub struct F32 {
    /// Sign, exponent and significand, from the highest bit down.
    pub bits: u32,
}

impl F32 {
    /// The bits without the sign.
    pub open spec fn magnitude(self) -> int {
        self.bits as int % 0x8000_0000
    }

    /// Whether the sign is set.
    pub open spec fn negative(self) -> bool {
        self.bits >= 0x8000_0000
    }

    /// Whether the bits stand for no number.
    pub open spec fn is_nan(self) -> bool {
        self.magnitude() > INFINITE_F32
    }
}

impl F64 {
    /// Whether the sign is set.
    pub open spec fn negative(self) -> bool {
        self.bits >= 0x8000_0000_0000_0000
    }
}

/// The magnitude of an infinite [`F32`].
pub const INFINITE_F32: u32 = 0x7f80_0000;

/// The absolute value of the double with this magnitude, in units of two to the power
/// of -1074. An infinite one counts as the power of two that would come next.
pub open spec fn value_of_f64(magnitude: int) -> int {
    let exponent = magnitude / 0x10_0000_0000_0000;
    let significand = magnitude % 0x10_0000_0000_0000;
    if exponent == 0 {
        significand
    } else {
        (0x10_0000_0000_0000 + significand) * pow2((exponent - 1) as nat)
    }
}

/// The absolute value of the single with this magnitude, in the same units. An
/// infinite one counts as the power of two that would come next.
pub open spec fn value_of_f32(magnitude: int) -> int {
    let exponent = magnitude / 0x80_0000;
    let significand = magnitude % 0x80_0000;
    if exponent == 0 {
        significand * pow2(925)
    } else {
        (0x80_0000 + significand) * pow2((exponent + 924) as nat)
    }
}

/// The distance of two numbers.
pub open spec fn distance(a: int, b: int) -> int {
    if a <= b {
        b - a
    } else {
        a - b
    }
}

/// Whether the single of magnitude `m` is the one nearest to `value`, of two equally
/// near ones the even one.
pub open spec fn nearest_f32(value: int, m: int) -> bool {
    &&& 0 <= m <= INFINITE_F32
    &&& forall|k: int|
        0 <= k <= INFINITE_F32 && k != m ==> {
            ||| distance(value_of_f32(m), value) < distance(#[trigger] value_of_f32(k), value)
            ||| distance(value_of_f32(m), value) == distance(value_of_f32(k), value) && m % 2 == 0
        }
}

proof fn lemma_next_f32(k: int) -> (unit: int)
    requires
        0 <= k < INFINITE_F32,
    ensures
        unit > 0,
        value_of_f32(k + 1) == value_of_f32(k) + unit,
        unit == pow2((if k / 0x80_0000 == 0 {
            925
        } else {
            k / 0x80_0000 + 924
        }) as nat),
{
    let exponent = k / 0x80_0000;
    let significand = k % 0x80_0000;
    let unit = pow2((if exponent == 0 {
        925
    } else {
        exponent + 924
    }) as nat) as int;
    lemma_pow2_pos((if exponent == 0 {
        925
    } else {
        exponent + 924
    }) as nat);
    if significand + 1 < 0x80_0000 {
        assert((k + 1) / 0x80_0000 == exponent && (k + 1) % 0x80_0000 == significand + 1);
        assert((significand + 1) * unit == significand * unit + unit) by (nonlinear_arith);
        assert((0x80_0000 + (significand + 1)) * unit == (0x80_0000 + significand) * unit + unit)
            by (nonlinear_arith);
    } else {
        assert((k + 1) / 0x80_0000 == exponent + 1 && (k + 1) % 0x80_0000 == 0);
        assert(significand == 0x7f_ffff);
        if exponent == 0 {
            assert(0x80_0000 * unit == 0x7f_ffff * unit + unit) by (nonlinear_arith);
        } else {
            lemma_pow2_adds(1, (exponent + 924) as nat);
            lemma2_to64();
            assert(0x80_0000 * (2 * unit) == (0x80_0000 + 0x7f_ffff) * unit + unit)
                by (nonlinear_arith);
        }
    }
    unit
}

proof fn lemma_f32_increases(a: int, b: int)
    requires
        0 <= a < b <= INFINITE_F32,
    ensures
        value_of_f32(a) < value_of_f32(b),
    decreases b - a,
{
    let unit = lemma_next_f32(b - 1);
    if a < b - 1 {
        lemma_f32_increases(a, b - 1);
    }
}

/// A value that stands `part` of `whole` steps of size `unit` above one single and
/// below the next is rounded to the nearer of the two.
proof fn lemma_rounded(value: int, low: int, part: int, whole: int, unit: int, m: int)
    requires
        0 <= low < INFINITE_F32,
        0 <= part < whole,
        unit > 0,
        value == value_of_f32(low) + part * unit,
        value_of_f32(low + 1) == value_of_f32(low) + whole * unit,
        m == (if 2 * part > whole || (2 * part == whole && low % 2 == 1) {
            low + 1
        } else {
            low
        }),
    ensures
        nearest_f32(value, m),
{
    let below = part * unit;
    let above = whole * unit - part * unit;
    assert(below >= 0) by (nonlinear_arith)
        requires
            below == part * unit,
            part >= 0,
            unit > 0,
    ;
    assert(above > 0 && (2 * part < whole ==> below < above) && (2 * part > whole ==> below > above)
        && (2 * part == whole ==> below == above)) by (nonlinear_arith)
        requires
            below == part * unit,
            above == whole * unit - part * unit,
            part < whole,
            unit > 0,
    ;
    assert forall|k: int| 0 <= k <= INFINITE_F32 && k != m implies {
        ||| distance(value_of_f32(m), value) < distance(#[trigger] value_of_f32(k), value)
        ||| distance(value_of_f32(m), value) == distance(value_of_f32(k), value) && m % 2 == 0
    } by {
        if k < low {
            lemma_f32_increases(k, low);
        } else if k > low + 1 {
            lemma_f32_increases(low + 1, k);
        }
    }
}

proof fn lemma_far(value: int)
    requires
        value >= value_of_f32(INFINITE_F32 as int),
    ensures
        nearest_f32(value, INFINITE_F32 as int),
{
    assert forall|k: int| 0 <= k <= INFINITE_F32 && k != INFINITE_F32 implies distance(
        value_of_f32(INFINITE_F32 as int),
        value,
    ) < distance(#[trigger] value_of_f32(k), value) by {
        lemma_f32_increases(k, INFINITE_F32 as int);
    }
}

proof fn lemma_tiny(value: int)
    requires
        0 <= value,
        2 * value < pow2(925),
    ensures
        nearest_f32(value, 0),
{
    let unit = pow2(925) as int;
    assert(0int * unit == 0 && 1int * unit == unit) by (nonlinear_arith);
    assert forall|k: int| 0 <= k <= INFINITE_F32 && k != 0 implies distance(value_of_f32(0), value)
        < distance(#[trigger] value_of_f32(k), value) by {
        if k > 1 {
            lemma_f32_increases(1, k);
        }
    }
}

/// No two singles are nearest to the same value.
pub proof fn law_nearest_is_one(value: int, a: int, b: int)
    requires
        nearest_f32(value, a),
        nearest_f32(value, b),
    ensures
        a == b,
{
    if a < b {
        lemma_nearest_is_one(value, a, b);
    } else if b < a {
        lemma_nearest_is_one(value, b, a);
    }
}

proof fn lemma_nearest_is_one(value: int, a: int, b: int)
    requires
        nearest_f32(value, a),
        nearest_f32(value, b),
    ensures
        a >= b,
{
    if a < b {
        lemma_f32_increases(a, b);
        assert(distance(value_of_f32(a), value) == distance(value_of_f32(b), value));
        lemma_f32_increases(a, a + 1);
        lemma_f32_increases(a + 1, b);
        assert(distance(value_of_f32(a + 1), value) < distance(value_of_f32(a), value));
    }
}

/// A value that single precision can hold is rounded to itself.
pub proof fn law_exact_value_is_kept(value: int, exact: int, m: int)
    requires
        0 <= exact <= INFINITE_F32,
        value == value_of_f32(exact),
        nearest_f32(value, m),
    ensures
        m == exact,
{
    if m < exact {
        lemma_f32_increases(m, exact);
    } else if exact < m {
        lemma_f32_increases(exact, m);
    }
}

impl F64 {
    /// The number in single precision: the nearest one, of two equally near ones the
    /// even one, infinite where the number is too large, and of the same sign.
    pub fn to_f32(self) -> (r: F32)
        ensures
            r.is_nan() == self.is_nan(),
            r.negative() == self.negative(),
            !self.is_nan() ==> nearest_f32(value_of_f64(self.magnitude()), r.magnitude()),
    {
        let sign: u32 = if self.bits >= 0x8000_0000_0000_0000 {
            0x8000_0000
        } else {
            0
        };
        let magnitude: u64 = self.bits % 0x8000_0000_0000_0000;
        if magnitude > 0x7ff0_0000_0000_0000 {
            return F32 { bits: sign + 0x7fc0_0000 };
        }
        let m = rounded_magnitude(magnitude);
        assert((sign + m) % 0x8000_0000 == m);
        F32 { bits: sign + m }
    }
}

fn rounded_magnitude(magnitude: u64) -> (r: u32)
    requires
        magnitude <= 0x7ff0_0000_0000_0000,
    ensures
        nearest_f32(value_of_f64(magnitude as int), r as int),
{
    let exponent: u64 = magnitude / 0x10_0000_0000_0000;
    let significand: u64 = magnitude % 0x10_0000_0000_0000;
    let ghost value = value_of_f64(magnitude as int);
    if exponent >= 1151 {
        proof {
            assert(value >= value_of_f32(INFINITE_F32 as int)) by {
                lemma2_to64();
                if exponent > 1151 {
                    lemma_pow2_strictly_increases(1150, (exponent - 1) as nat);
                }
                let p = pow2((exponent - 1) as nat) as int;
                let q = pow2(1150) as int;
                assert((0x10_0000_0000_0000 + significand) * p >= 0x10_0000_0000_0000 * q)
                    by (nonlinear_arith)
                    requires
                        p >= q,
                        q >= 0,
                        significand >= 0,
                ;
                lemma_pow2_adds(29, 1150);
                assert(0x10_0000_0000_0000 * q == 0x80_0000 * (0x2000_0000 * q))
                    by (nonlinear_arith);
            }
            lemma_far(value);
        }
        return INFINITE_F32;
    }
    if exponent >= 897 {
        let shifted: u64 = (exponent - 896) * 0x10_0000_0000_0000 + significand;
        let low: u64 = shifted / 0x2000_0000;
        let part: u64 = shifted % 0x2000_0000;
        let up = part > 0x1000_0000 || (part == 0x1000_0000 && low % 2 == 1);
        let m: u32 = if up {
            (low + 1) as u32
        } else {
            low as u32
        };
        proof {
            let q = significand / 0x2000_0000;
            assert(low == (exponent - 896) * 0x80_0000 + q);
            assert(part == significand % 0x2000_0000);
            let unit = pow2((exponent - 1) as nat) as int;
            lemma_pow2_pos((exponent - 1) as nat);
            lemma_pow2_adds(29, (exponent - 1) as nat);
            lemma2_to64();
            let step = lemma_next_f32(low as int);
            assert(low / 0x80_0000 == exponent - 896 && low % 0x80_0000 == q);
            assert(step == 0x2000_0000 * unit);
            assert((0x10_0000_0000_0000 + significand) * unit == (0x80_0000 + q) * (0x2000_0000
                * unit) + part * unit) by (nonlinear_arith)
                requires
                    significand == q * 0x2000_0000 + part,
            ;
            lemma_rounded(value, low as int, part as int, 0x2000_0000, unit, m as int);
        }
        return m;
    }
    if exponent <= 872 {
        proof {
            lemma2_to64_rest();
            if exponent == 0 {
                lemma_pow2_strictly_increases(53, 925);
            } else {
                let unit = pow2((exponent - 1) as nat) as int;
                lemma_pow2_pos((exponent - 1) as nat);
                assert((0x10_0000_0000_0000 + significand) * unit < 0x20_0000_0000_0000 * unit)
                    by (nonlinear_arith)
                    requires
                        significand < 0x10_0000_0000_0000,
                        unit > 0,
                ;
                lemma_pow2_adds(54, (exponent - 1) as nat);
                if exponent < 872 {
                    lemma_pow2_strictly_increases((exponent + 53) as nat, 925);
                }
            }
            lemma_tiny(value);
        }
        return 0;
    }
    let shift: u64 = 926 - exponent;
    let mut whole: u64 = 1;
    let mut i: u64 = 0;
    proof {
        lemma2_to64();
    }
    while i < shift
        invariant
            i <= shift <= 53,
            whole == pow2(i as nat),
        decreases shift - i,
    {
        proof {
            lemma_pow2_adds(1, i as nat);
            lemma_pow2_strictly_increases(i as nat, 53);
            lemma2_to64();
            lemma2_to64_rest();
        }
        whole = 2 * whole;
        i += 1;
    }
    let full: u64 = 0x10_0000_0000_0000 + significand;
    proof {
        lemma_pow2_pos(shift as nat);
        lemma2_to64_rest();
        if shift < 53 {
            lemma_pow2_strictly_increases(shift as nat, 53);
        }
    }
    let low: u64 = full / whole;
    let part: u64 = full % whole;
    let up = 2 * part > whole || (2 * part == whole && low % 2 == 1);
    proof {
        lemma_pow2_adds(30, (shift - 30) as nat);
        lemma_pow2_pos((shift - 30) as nat);
        lemma2_to64();
        assert(full / whole < 0x80_0000) by (nonlinear_arith)
            requires
                full < 0x20_0000_0000_0000,
                whole >= 0x4000_0000,
        ;
    }
    let m: u32 = if up {
        (low + 1) as u32
    } else {
        low as u32
    };
    proof {
        let unit = pow2((exponent - 1) as nat) as int;
        lemma_pow2_pos((exponent - 1) as nat);
        lemma_pow2_adds(shift as nat, (exponent - 1) as nat);
        assert(pow2(925) == whole * unit);
        let step = lemma_next_f32(low as int);
        assert(low / 0x80_0000 == 0 && low % 0x80_0000 == low);
        assert(step == whole * unit);
        vstd::arithmetic::div_mod::lemma_fundamental_div_mod(full as int, whole as int);
        assert(full * unit == low * (whole * unit) + part * unit) by (nonlinear_arith)
            requires
                full == whole * low + part,
        ;
        lemma_rounded(value, low as int, part as int, whole as int, unit, m as int);
    }
    m
}

} // verus!
