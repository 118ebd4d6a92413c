//! Order on double-precision numbers, read from their bit patterns.
//!
//! The window computes with doubles; what the widget decides from them is only how they compare.
//! [`Double`] carries the sixty-four bits of such a number, and this module compares two of them
//! as IEEE 754 does: by value, with both zeros equal and nothing comparable to a NaN.

use vstd::arithmetic::power2::pow2;
use vstd::prelude::*;

verus! {

/// A double-precision number by its IEEE 754 bit pattern.
#[derive(Clone, Copy, Debug, PartialEq, Eq, Structural)]
pub struct Double {
    pub bits: u64,
}

/// The bit pattern of 60.
pub const SIXTY: u64 = 0x404E_0000_0000_0000;

/// The bit pattern of 85.
pub const EIGHTY_FIVE: u64 = 0x4055_4000_0000_0000;

/// The bit pattern of 1.5.
pub const ONE_AND_A_HALF: u64 = 0x3FF8_0000_0000_0000;

/// The bit pattern of a hundredth, as single precision rounds it.
pub const HUNDREDTH: u64 = 0x3F84_7AE1_4000_0000;

/// The value of a bit pattern without its sign bit, in units of the smallest positive double
/// (two to the minus 1074). Infinity comes out above every finite value.
pub open spec fn magnitude_units(m: int) -> int {
    let exponent = m / 0x10_0000_0000_0000;
    let fraction = m % 0x10_0000_0000_0000;
    if exponent == 0 {
        fraction
    } else {
        (0x10_0000_0000_0000 + fraction) * pow2((exponent - 1) as nat)
    }
}

/// A whole number, in the same units.
pub open spec fn whole_units(n: int) -> int {
    n * pow2(1074)
}

impl Double {
    /// True of a negative number, a negative zero among them.
    pub open spec fn negative(self) -> bool {
        self.bits >= 0x8000_0000_0000_0000
    }

    /// The bit pattern without its sign bit.
    pub open spec fn magnitude(self) -> int {
        self.bits as int % 0x8000_0000_0000_0000
    }

    /// True of a pattern that is no number.
    pub open spec fn nan(self) -> bool {
        self.magnitude() > 0x7FF0_0000_0000_0000
    }

    /// The value, in units of the smallest positive double.
    pub open spec fn units(self) -> int {
        if self.negative() {
            -magnitude_units(self.magnitude())
        } else {
            magnitude_units(self.magnitude())
        }
    }

    /// IEEE 754's `<`.
    pub open spec fn below(self, other: Double) -> bool {
        !self.nan() && !other.nan() && self.units() < other.units()
    }

    /// The bit pattern as an integer that orders like the value.
    spec fn rank(self) -> int {
        if self.negative() {
            -self.magnitude()
        } else {
            self.magnitude()
        }
    }

    fn is_nan(self) -> (yes: bool)
        ensures
            yes == self.nan(),
    {
        self.bits % 0x8000_0000_0000_0000 > 0x7FF0_0000_0000_0000
    }

    /// Tells whether this number is smaller than another.
    pub fn less_than(self, other: Double) -> (yes: bool)
        ensures
            yes == self.below(other),
    {
        if self.is_nan() || other.is_nan() {
            return false;
        }
        proof {
            lemma_rank_orders(self, other);
        }
        let a: u64 = self.bits % 0x8000_0000_0000_0000;
        let b: u64 = other.bits % 0x8000_0000_0000_0000;
        let a_negative = self.bits >= 0x8000_0000_0000_0000;
        let b_negative = other.bits >= 0x8000_0000_0000_0000;
        if a_negative {
            if b_negative {
                b < a
            } else {
                a > 0 || b > 0
            }
        } else {
            !b_negative && a < b
        }
    }

    /// Tells whether this number is greater than zero.
    pub fn is_positive(self) -> (yes: bool)
        ensures
            yes == (!self.nan() && self.units() > 0),
    {
        let zero = Double { bits: 0 };
        let yes = zero.less_than(self);
        assert(zero.units() == 0);
        yes
    }

    /// The greater of two numbers, or the one that is a number.
    pub fn max(self, other: Double) -> (m: Double)
        ensures
            m == self || m == other,
            self.nan() && !other.nan() ==> m == other,
            other.nan() && !self.nan() ==> m == self,
            !self.nan() && !other.nan() ==> m.units() >= self.units() && m.units()
                >= other.units(),
    {
        if self.is_nan() || self.less_than(other) {
            other
        } else {
            self
        }
    }
}

proof fn lemma_magnitude_grows(a: int, b: int)
    requires
        0 <= a < b <= 0x7FF0_0000_0000_0000,
    ensures
        0 <= magnitude_units(a) < magnitude_units(b),
{
    let step: int = 0x10_0000_0000_0000;
    let (ea, fa) = (a / step, a % step);
    let (eb, fb) = (b / step, b % step);
    assert(0 <= ea <= eb);
    if ea > 0 {
        let pa = pow2((ea - 1) as nat) as int;
        vstd::arithmetic::power2::lemma_pow2_pos((ea - 1) as nat);
        assert((step + fa) * pa >= 0) by (nonlinear_arith)
            requires
                step + fa >= 0,
                pa > 0,
        ;
    }
    if ea == eb {
        assert(fa < fb);
        if ea > 0 {
            let p = pow2((ea - 1) as nat) as int;
            vstd::arithmetic::power2::lemma_pow2_pos((ea - 1) as nat);
            assert((step + fa) * p < (step + fb) * p) by (nonlinear_arith)
                requires
                    fa < fb,
                    p > 0,
            ;
        }
    } else {
        // Everything below the next power of two stays below what starts there.
        let pb = pow2((eb - 1) as nat) as int;
        vstd::arithmetic::power2::lemma_pow2_pos((eb - 1) as nat);
        assert((step + fb) * pb >= step * pb) by (nonlinear_arith)
            requires
                fb >= 0,
                pb > 0,
        ;
        if ea == 0 {
            assert(step * pb >= step) by (nonlinear_arith)
                requires
                    pb >= 1,
                    step > 0,
            ;
        } else {
            let pa = pow2((ea - 1) as nat) as int;
            let top = pow2(ea as nat) as int;
            vstd::arithmetic::power2::lemma_pow2_unfold(ea as nat);
            assert(top == 2 * pa);
            assert((step + fa) * pa < step * top) by (nonlinear_arith)
                requires
                    0 <= fa < step,
                    pa > 0,
                    top == 2 * pa,
            ;
            if ea < eb - 1 {
                vstd::arithmetic::power2::lemma_pow2_strictly_increases(
                    ea as nat,
                    (eb - 1) as nat,
                );
            }
            assert(step * top <= step * pb) by (nonlinear_arith)
                requires
                    top <= pb,
                    step > 0,
            ;
        }
    }
}

proof fn lemma_rank_orders(a: Double, b: Double)
    requires
        !a.nan(),
        !b.nan(),
    ensures
        a.units() < b.units() <==> a.rank() < b.rank(),
{
    let (x, y) = (a.magnitude(), b.magnitude());
    assert(magnitude_units(0) == 0);
    if x < y {
        lemma_magnitude_grows(x, y);
    }
    if y < x {
        lemma_magnitude_grows(y, x);
    }
    if 0 < x {
        lemma_magnitude_grows(0, x);
    }
    if 0 < y {
        lemma_magnitude_grows(0, y);
    }
}

/// A pattern is no number if and only if the eleven bits of its exponent are all set and its fraction
/// is not zero.
pub proof fn law_nan_pattern(d: Double)
    ensures
        d.nan() <==> (d.bits >> 52u64) & 0x7FF == 0x7FF && d.bits & 0xF_FFFF_FFFF_FFFF != 0,
{
    let bits = d.bits;
    assert(bits % 0x8000_0000_0000_0000 > 0x7FF0_0000_0000_0000 <==> (bits >> 52u64) & 0x7FF
        == 0x7FF && bits & 0xF_FFFF_FFFF_FFFF != 0) by (bit_vector);
}

/// Numbers order as their patterns do: from zero up the greater pattern is the greater number, with
/// the sign bit set it is the smaller one, and a number with the sign bit is below every one without
/// it, except that the two zeros are equal. Nothing is below or above what is no number.
pub proof fn law_order_of_patterns(a: Double, b: Double)
    ensures
        a.nan() || b.nan() ==> !a.below(b),
        !a.nan() && !b.nan() ==> {
            let sign: u64 = 0x8000_0000_0000_0000;
            &&& a.below(b) <==> a.units() < b.units()
            &&& a.bits < sign && b.bits < sign ==> (a.below(b) <==> a.bits < b.bits)
            &&& a.bits >= sign && b.bits >= sign ==> (a.below(b) <==> b.bits < a.bits)
            &&& a.bits >= sign && b.bits < sign ==> (a.below(b) <==> a.bits != sign || b.bits != 0)
            &&& a.bits < sign && b.bits >= sign ==> !a.below(b)
        },
{
    if !a.nan() && !b.nan() {
        lemma_rank_orders(a, b);
    }
}

/// Zero is zero units, and one is as many as whole numbers are counted in.
pub proof fn law_units_of_zero_and_one()
    ensures
        (Double { bits: 0 }).units() == 0,
        (Double { bits: 0x3FF0_0000_0000_0000 }).units() == whole_units(1),
        forall|n: int| #[trigger] whole_units(n) == n * whole_units(1),
{
    vstd::arithmetic::power2::lemma_pow2_adds(52, 1022);
    vstd::arithmetic::power2::lemma2_to64_rest();
}

/// The thresholds are the numbers that they are named after; the hundredth is the nearest one of
/// single precision, 10737418 times two to the minus 30.
pub proof fn law_thresholds()
    ensures
        (Double { bits: SIXTY }).units() == whole_units(60),
        !(Double { bits: SIXTY }).nan(),
        (Double { bits: EIGHTY_FIVE }).units() == whole_units(85),
        !(Double { bits: EIGHTY_FIVE }).nan(),
        2 * (Double { bits: ONE_AND_A_HALF }).units() == whole_units(3),
        !(Double { bits: ONE_AND_A_HALF }).nan(),
        pow2(30) * (Double { bits: HUNDREDTH }).units() == whole_units(10737418),
        !(Double { bits: HUNDREDTH }).nan(),
{
    vstd::arithmetic::power2::lemma_pow2_adds(47, 1027);
    vstd::arithmetic::power2::lemma_pow2_adds(46, 1028);
    vstd::arithmetic::power2::lemma_pow2_adds(52, 1022);
    vstd::arithmetic::power2::lemma_pow2_adds(59, 1015);
    vstd::arithmetic::power2::lemma2_to64();
    vstd::arithmetic::power2::lemma2_to64_rest();
    let p = pow2(1027) as int;
    let q = pow2(1028) as int;
    let r = pow2(1022) as int;
    let s = pow2(1015) as int;
    assert(0x1E_0000_0000_0000 * p == 60 * (0x8000_0000_0000 * p)) by (nonlinear_arith);
    assert(0x15_4000_0000_0000 * q == 85 * (0x4000_0000_0000 * q)) by (nonlinear_arith);
    assert(2 * (0x18_0000_0000_0000 * r) == 3 * (0x10_0000_0000_0000 * r)) by (nonlinear_arith);
    assert(0x4000_0000 * (0x14_7AE1_4000_0000 * s) == 10737418 * (0x800_0000_0000_0000 * s))
        by (nonlinear_arith);
}

} // verus!
