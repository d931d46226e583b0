//! Double-precision numbers held by their IEEE-754 bit pattern, with the two
//! orders the engine needs: the numeric order, in which a NaN compares with
//! nothing, and the total order over all bit patterns.
use vstd::arithmetic::power2::{
    lemma_pow2_pos, lemma_pow2_strictly_increases, lemma_pow2_unfold, pow2,
};
use vstd::prelude::*;

verus! {

/// The sign bit of a binary64 bit pattern.
pub const SIGN_BIT: u64 = 0x8000_0000_0000_0000;

/// The bit pattern of positive infinity; every larger magnitude is a NaN.
pub const INFINITY_BITS: u64 = 0x7ff0_0000_0000_0000;

/// The number of patterns of one exponent: 2 to the 52, the weight of the
/// hidden bit of the significand.
pub const HIDDEN_BIT: u64 = 0x10_0000_0000_0000;

/// The bit pattern of 1.0.
pub const ONE_BITS: u64 = 0x3ff0_0000_0000_0000;

/// A binary64 number, stored as the 64 bits of its IEEE-754 encoding.
///
/// Equality on this type is equality of bit patterns: it tells the two zeros
/// apart and finds a NaN equal to itself.
#[derive(Clone, Copy, Debug, PartialEq, Eq, Hash, Structural)]
pub struct Double {
    pub bits: u64,
}

impl Double {
    /// Whether the sign bit is set.
    pub open spec fn negative(self) -> bool {
        self.bits >= SIGN_BIT
    }

    /// The bit pattern without its sign bit.
    pub open spec fn magnitude(self) -> int {
        if self.negative() {
            self.bits - SIGN_BIT
        } else {
            self.bits as int
        }
    }

    /// Whether the pattern encodes a NaN.
    pub open spec fn nan(self) -> bool {
        self.magnitude() > INFINITY_BITS
    }

    /// Whether the pattern encodes a number that is neither a NaN nor
    /// infinite.
    pub open spec fn finite(self) -> bool {
        self.magnitude() < INFINITY_BITS
    }

    /// The exponent field of the pattern.
    pub open spec fn exponent(self) -> int {
        self.magnitude() / (HIDDEN_BIT as int)
    }

    /// The fraction field of the pattern.
    pub open spec fn fraction(self) -> int {
        self.magnitude() % (HIDDEN_BIT as int)
    }

    /// The absolute value of a finite number, in units of 2 to the -1074,
    /// the smallest positive number. Every finite number is a whole multiple
    /// of that unit: a subnormal number is its fraction field, a normal one
    /// has the hidden bit on top and is scaled by its exponent.
    pub open spec fn size(self) -> int {
        if self.exponent() == 0 {
            self.fraction()
        } else {
            (HIDDEN_BIT + self.fraction()) * pow2((self.exponent() - 1) as nat)
        }
    }

    /// The value of a finite number, in units of 2 to the -1074.
    pub open spec fn value(self) -> int {
        if self.negative() {
            -self.size()
        } else {
            self.size()
        }
    }

    /// The place of the number in the numeric order. Magnitudes of one sign
    /// grow with the value they encode, so the signed magnitude orders all
    /// numbers; both zeros stand at 0.
    pub open spec fn level(self) -> int {
        if self.negative() {
            -self.magnitude()
        } else {
            self.magnitude()
        }
    }

    /// The place of the pattern in the total order: negative NaNs, negative
    /// numbers, -0, +0, positive numbers, positive NaNs.
    pub open spec fn rank(self) -> int {
        if self.negative() {
            -self.magnitude() - 1
        } else {
            self.magnitude()
        }
    }

    /// Numeric `<`: false as soon as one side is a NaN.
    pub open spec fn less(self, other: Double) -> bool {
        !self.nan() && !other.nan() && self.level() < other.level()
    }

    /// `self` comes no later than `other` in the total order.
    pub open spec fn precedes(self, other: Double) -> bool {
        self.rank() <= other.rank()
    }

    /// The larger of two numbers. A NaN loses against a number; of two numbers
    /// that compare equal the first is kept.
    pub open spec fn larger(self, other: Double) -> Double {
        if self.nan() || self.less(other) {
            other
        } else {
            self
        }
    }

    /// The number with the given bit pattern.
    pub fn from_bits(bits: u64) -> (d: Double)
        ensures
            d.bits == bits,
    {
        Double { bits }
    }

    /// The bit pattern of the number.
    pub fn to_bits(self) -> (bits: u64)
        ensures
            bits == self.bits,
    {
        self.bits
    }

    /// Positive zero.
    pub fn zero() -> (d: Double)
        ensures
            d.bits == 0,
    {
        Double { bits: 0 }
    }

    /// The number 1.
    pub fn one() -> (d: Double)
        ensures
            d.bits == ONE_BITS,
    {
        Double { bits: ONE_BITS }
    }

    fn split(self) -> (parts: (bool, u64))
        ensures
            parts.0 == self.negative(),
            parts.1 == self.magnitude(),
    {
        if self.bits >= SIGN_BIT {
            (true, self.bits - SIGN_BIT)
        } else {
            (false, self.bits)
        }
    }

    /// Whether the number is a NaN.
    pub fn is_nan(self) -> (b: bool)
        ensures
            b == self.nan(),
    {
        let (_, magnitude) = self.split();
        magnitude > INFINITY_BITS
    }

    /// Numeric `<`.
    pub fn lt(self, other: Double) -> (b: bool)
        ensures
            b == self.less(other),
    {
        let (neg_a, mag_a) = self.split();
        let (neg_b, mag_b) = other.split();
        if mag_a > INFINITY_BITS || mag_b > INFINITY_BITS {
            false
        } else if neg_a {
            if neg_b {
                mag_a > mag_b
            } else {
                mag_a != 0 || mag_b != 0
            }
        } else {
            !neg_b && mag_a < mag_b
        }
    }

    /// Numeric `>`.
    pub fn gt(self, other: Double) -> (b: bool)
        ensures
            b == other.less(self),
    {
        other.lt(self)
    }

    /// Whether `self` comes no later than `other` in the total order.
    pub fn total_le(self, other: Double) -> (b: bool)
        ensures
            b == self.precedes(other),
    {
        let (neg_a, mag_a) = self.split();
        let (neg_b, mag_b) = other.split();
        if neg_a {
            !neg_b || mag_a >= mag_b
        } else {
            !neg_b && mag_a <= mag_b
        }
    }

    /// The larger of the two numbers.
    pub fn max(self, other: Double) -> (d: Double)
        ensures
            d == self.larger(other),
    {
        if self.is_nan() || self.lt(other) {
            other
        } else {
            self
        }
    }
}

/// The total order is reflexive, antisymmetric on bit patterns, transitive and
/// total.
pub proof fn total_order_laws(a: Double, b: Double, c: Double)
    ensures
        a.precedes(a),
        a.precedes(b) && b.precedes(a) ==> a == b,
        a.precedes(b) && b.precedes(c) ==> a.precedes(c),
        a.precedes(b) || b.precedes(a),
{
}

/// The numeric order is a strict order: nothing is below itself, and it is
/// transitive. It agrees with the total order wherever it holds.
pub proof fn numeric_order_laws(a: Double, b: Double, c: Double)
    ensures
        !a.less(a),
        a.less(b) && b.less(c) ==> a.less(c),
        a.less(b) ==> a.precedes(b) && !b.less(a),
{
}

/// Among finite numbers a larger bit pattern without sign encodes a larger
/// absolute value.
pub proof fn size_grows_with_magnitude(a: Double, b: Double)
    requires
        a.finite(),
        b.finite(),
        a.magnitude() < b.magnitude(),
    ensures
        0 <= a.size() < b.size(),
{
    let unit = HIDDEN_BIT as int;
    let ea = a.exponent();
    let eb = b.exponent();
    let fa = a.fraction();
    let fb = b.fraction();
    assert(a.magnitude() == ea * unit + fa && 0 <= fa < unit && 0 <= ea) by (nonlinear_arith)
        requires
            ea == a.magnitude() / unit,
            fa == a.magnitude() % unit,
            unit == 0x10_0000_0000_0000,
            0 <= a.magnitude(),
    ;
    assert(b.magnitude() == eb * unit + fb && 0 <= fb < unit && 0 <= eb) by (nonlinear_arith)
        requires
            eb == b.magnitude() / unit,
            fb == b.magnitude() % unit,
            unit == 0x10_0000_0000_0000,
            0 <= b.magnitude(),
    ;
    assert(ea <= eb) by (nonlinear_arith)
        requires
            ea * unit + fa < eb * unit + fb,
            0 <= fa < unit,
            0 <= fb < unit,
    ;
    if ea == 0 {
        if eb > 0 {
            lemma_pow2_pos((eb - 1) as nat);
            assert((unit + fb) * pow2((eb - 1) as nat) >= unit) by (nonlinear_arith)
                requires
                    fb >= 0,
                    unit > 0,
                    pow2((eb - 1) as nat) >= 1,
            ;
        }
    } else {
        let pa = pow2((ea - 1) as nat);
        let pb = pow2((eb - 1) as nat);
        lemma_pow2_pos((ea - 1) as nat);
        if ea == eb {
            assert((unit + fa) * pa < (unit + fb) * pa) by (nonlinear_arith)
                requires
                    fa < fb,
                    pa > 0,
            ;
        } else {
            lemma_pow2_unfold(ea as nat);
            if ea < eb - 1 {
                lemma_pow2_strictly_increases(ea as nat, (eb - 1) as nat);
            }
            assert(pb >= 2 * pa);
            assert((unit + fa) * pa < (unit + fb) * pb) by (nonlinear_arith)
                requires
                    0 <= fa < unit,
                    0 <= fb,
                    pa > 0,
                    pb >= 2 * pa,
            ;
        }
        assert((unit + fa) * pa >= 0) by (nonlinear_arith)
            requires
                fa >= 0,
                unit > 0,
                pa > 0,
        ;
    }
}

/// The numeric order of finite numbers is the order of their values: one
/// number is below another exactly if its value is smaller. The two zeros
/// have the value 0 and no other number has.
pub proof fn numeric_order_is_the_order_of_values(a: Double, b: Double)
    requires
        a.finite(),
        b.finite(),
    ensures
        a.less(b) <==> a.value() < b.value(),
        a.value() == b.value() <==> a.level() == b.level(),
        a.value() == 0 <==> a.magnitude() == 0,
{
    let zero = Double { bits: 0 };
    assert(zero.size() == 0 && zero.finite() && zero.magnitude() == 0);
    if a.magnitude() > 0 {
        size_grows_with_magnitude(zero, a);
    }
    if b.magnitude() > 0 {
        size_grows_with_magnitude(zero, b);
    }
    if a.magnitude() < b.magnitude() {
        size_grows_with_magnitude(a, b);
    } else if b.magnitude() < a.magnitude() {
        size_grows_with_magnitude(b, a);
    }
    if a.magnitude() == 0 {
        assert(a.exponent() == 0 && a.fraction() == 0);
    }
    if b.magnitude() == 0 {
        assert(b.exponent() == 0 && b.fraction() == 0);
    }
}

/// Of two numbers the larger is one of them, is not below either, and is never
/// a NaN unless both are.
pub proof fn larger_laws(a: Double, b: Double)
    ensures
        a.larger(b) == a || a.larger(b) == b,
        !a.larger(b).less(a),
        !a.larger(b).less(b),
        a.larger(b).nan() ==> a.nan() && b.nan(),
{
}

} // verus!
