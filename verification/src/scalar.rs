//! Real numbers as the machine stores them: IEEE 754 binary64 values, held by
//! their 64-bit pattern.
//!
//! A pattern is one sign bit, eleven exponent bits and fifty-two fraction
//! bits. Everything that can be decided from the pattern alone is decided
//! here: the class of a value (zero, finite, infinite, not-a-number), its sign,
//! its negation, and the order of two values. Arithmetic that rounds is not
//! part of this module.

use vstd::prelude::*;
use vstd::arithmetic::power2::{lemma_pow2_pos, lemma_pow2_strictly_increases, lemma_pow2_unfold, pow2};

verus! {

/// The pattern with only the sign bit set.
pub const SIGN_BIT: u64 = 0x8000_0000_0000_0000;

/// The magnitude of the infinities: all exponent bits set, no fraction bit.
pub const INFINITY_MAGNITUDE: u64 = 0x7ff0_0000_0000_0000;

/// An IEEE 754 binary64 value, held by its bit pattern.
#[derive(Clone, Copy, Debug)]
pub struct Real {
    pub bits: u64,
}

impl Real {
    /// The pattern without its sign bit.
    #[verifier::opaque]
    pub open spec fn magnitude(self) -> int {
        self.bits as int % 0x8000_0000_0000_0000
    }

    /// Whether the sign bit is set (true of `-0.0` too).
    pub open spec fn sign_negative(self) -> bool {
        self.bits >= 0x8000_0000_0000_0000
    }

    /// Not-a-number: all exponent bits set and some fraction bit set.
    pub open spec fn nan(self) -> bool {
        self.magnitude() > 0x7ff0_0000_0000_0000
    }

    /// Neither infinite nor not-a-number.
    pub open spec fn finite(self) -> bool {
        self.magnitude() < 0x7ff0_0000_0000_0000
    }

    /// The exponent bits of the pattern, as a number.
    pub open spec fn exponent(self) -> int {
        self.magnitude() / 0x10_0000_0000_0000
    }

    /// The fraction bits of the pattern, as a number.
    pub open spec fn fraction(self) -> int {
        self.magnitude() % 0x10_0000_0000_0000
    }

    /// The absolute value that a finite pattern stands for, counted in
    /// units of `2^-1074`, the smallest positive value: the fraction alone
    /// where the exponent bits are zero, and else the fraction with a
    /// leading one, doubled once for every step of the exponent above one.
    pub open spec fn scaled_magnitude(self) -> int {
        if self.exponent() == 0 {
            self.fraction()
        } else {
            (0x10_0000_0000_0000 + self.fraction()) * pow2((self.exponent() - 1) as nat)
        }
    }

    /// The value that a finite pattern stands for, in units of `2^-1074`.
    pub open spec fn scaled(self) -> int {
        if self.sign_negative() {
            -self.scaled_magnitude()
        } else {
            self.scaled_magnitude()
        }
    }

    /// Where a value that is a number stands in the order of all of them:
    /// the magnitude, counted downwards from zero for negative values. Both
    /// zeros stand at 0, the infinities at the two ends.
    pub open spec fn rank(self) -> int {
        if self.sign_negative() {
            -self.magnitude()
        } else {
            self.magnitude()
        }
    }

    /// `self < other` as IEEE 754 defines it: false if either is
    /// not-a-number, else the order of the ranks.
    pub open spec fn lt_spec(self, other: Real) -> bool {
        !self.nan() && !other.nan() && self.rank() < other.rank()
    }

    /// `self <= other` as IEEE 754 defines it.
    pub open spec fn le_spec(self, other: Real) -> bool {
        !self.nan() && !other.nan() && self.rank() <= other.rank()
    }

    /// `self == other` as IEEE 754 defines it: not-a-number equals nothing,
    /// and the two zeros are equal.
    pub open spec fn same(self, other: Real) -> bool {
        !self.nan() && !other.nan() && self.rank() == other.rank()
    }

    /// A number strictly above zero.
    pub open spec fn positive(self) -> bool {
        !self.nan() && self.rank() > 0
    }

    /// The value with the sign bit flipped.
    pub open spec fn neg_spec(self) -> Real {
        if self.sign_negative() {
            Real { bits: (self.bits - 0x8000_0000_0000_0000) as u64 }
        } else {
            Real { bits: (self.bits + 0x8000_0000_0000_0000) as u64 }
        }
    }

    /// The value with the sign bit cleared.
    pub open spec fn abs_spec(self) -> Real {
        Real { bits: self.magnitude() as u64 }
    }

    /// The value with the given bit pattern.
    pub fn from_bits(bits: u64) -> (r: Real)
        ensures
            r.bits == bits,
    {
        Real { bits }
    }

    /// The bit pattern of the value.
    pub fn to_bits(self) -> (bits: u64)
        ensures
            bits == self.bits,
    {
        self.bits
    }

    /// Positive zero.
    pub fn zero() -> (r: Real)
        ensures
            r.bits == 0,
            r.finite(),
            r.rank() == 0,
    {
        reveal(Real::magnitude);
        Real { bits: 0 }
    }

    fn magnitude_bits(self) -> (m: u64)
        ensures
            m == self.magnitude(),
            m < 0x8000_0000_0000_0000,
    {
        reveal(Real::magnitude);
        self.bits % SIGN_BIT
    }

    fn rank_value(self) -> (k: i64)
        ensures
            k == self.rank(),
    {
        let m: u64 = self.magnitude_bits();
        if self.bits >= SIGN_BIT {
            -(m as i64)
        } else {
            m as i64
        }
    }

    /// Whether the sign bit is set.
    pub fn is_sign_negative(self) -> (r: bool)
        ensures
            r == self.sign_negative(),
    {
        self.bits >= SIGN_BIT
    }

    /// Whether the value is not-a-number.
    pub fn is_nan(self) -> (r: bool)
        ensures
            r == self.nan(),
    {
        self.magnitude_bits() > INFINITY_MAGNITUDE
    }

    /// Whether the value is neither infinite nor not-a-number.
    pub fn is_finite(self) -> (r: bool)
        ensures
            r == self.finite(),
    {
        self.magnitude_bits() < INFINITY_MAGNITUDE
    }

    /// Whether the value is a number strictly above zero.
    pub fn is_positive(self) -> (r: bool)
        ensures
            r == self.positive(),
    {
        !self.is_nan() && self.rank_value() > 0
    }

    /// `self < other`, false if either is not-a-number.
    pub fn lt(self, other: Real) -> (r: bool)
        ensures
            r == self.lt_spec(other),
    {
        !self.is_nan() && !other.is_nan() && self.rank_value() < other.rank_value()
    }

    /// `self <= other`, false if either is not-a-number.
    pub fn le(self, other: Real) -> (r: bool)
        ensures
            r == self.le_spec(other),
    {
        !self.is_nan() && !other.is_nan() && self.rank_value() <= other.rank_value()
    }

    /// The value with the sign flipped. Exact for every value: the
    /// magnitude, and with it the class, stays as it is.
    pub fn neg(self) -> (r: Real)
        ensures
            r == self.neg_spec(),
            r.magnitude() == self.magnitude(),
            r.sign_negative() != self.sign_negative(),
            r.rank() == -self.rank(),
    {
        reveal(Real::magnitude);
        if self.bits >= SIGN_BIT {
            Real { bits: self.bits - SIGN_BIT }
        } else {
            Real { bits: self.bits + SIGN_BIT }
        }
    }

    /// The value with the sign cleared.
    pub fn abs(self) -> (r: Real)
        ensures
            r == self.abs_spec(),
            r.magnitude() == self.magnitude(),
            !r.sign_negative(),
    {
        reveal(Real::magnitude);
        Real { bits: self.magnitude_bits() }
    }
}

impl PartialEq for Real {
    /// IEEE 754 equality: false if either value is not-a-number, and true
    /// of the two zeros.
    fn eq(&self, other: &Real) -> (r: bool) {
        !self.is_nan() && !other.is_nan() && self.rank_value() == other.rank_value()
    }
}

impl vstd::std_specs::cmp::PartialEqSpecImpl for Real {
    open spec fn obeys_eq_spec() -> bool {
        true
    }

    open spec fn eq_spec(&self, other: &Real) -> bool {
        self.same(*other)
    }
}

/// The order of the values that are numbers is strict and total up to the
/// two zeros: of two such values exactly one of `a < b`, `a == b`, `b < a`
/// holds.
pub proof fn lemma_order_is_total(a: Real, b: Real)
    requires
        !a.nan(),
        !b.nan(),
    ensures
        a.lt_spec(b) || a.same(b) || b.lt_spec(a),
        !(a.lt_spec(b) && a.same(b)),
        !(a.lt_spec(b) && b.lt_spec(a)),
        !(a.same(b) && b.lt_spec(a)),
        a.le_spec(b) <==> (a.lt_spec(b) || a.same(b)),
{
}

/// `<` is transitive, also through `<=`.
pub proof fn lemma_order_is_transitive(a: Real, b: Real, c: Real)
    ensures
        a.lt_spec(b) && b.lt_spec(c) ==> a.lt_spec(c),
        a.le_spec(b) && b.lt_spec(c) ==> a.lt_spec(c),
        a.lt_spec(b) && b.le_spec(c) ==> a.lt_spec(c),
        a.le_spec(b) && b.le_spec(c) ==> a.le_spec(c),
{
}

/// Negation turns the order round: `a < b` exactly when `-b < -a`.
pub proof fn lemma_negation_reverses_order(a: Real, b: Real)
    ensures
        a.neg_spec().nan() == a.nan(),
        a.neg_spec().rank() == -a.rank(),
        a.lt_spec(b) <==> b.neg_spec().lt_spec(a.neg_spec()),
        a.neg_spec().neg_spec() == a,
{
    reveal(Real::magnitude);
}

/// Among finite values a larger magnitude of the pattern stands for a
/// larger absolute value.
pub proof fn lemma_magnitude_orders_values(a: Real, b: Real)
    requires
        a.finite(),
        b.finite(),
        a.magnitude() < b.magnitude(),
    ensures
        0 <= a.scaled_magnitude() < b.scaled_magnitude(),
{
    reveal(Real::magnitude);
    let unit: int = 0x10_0000_0000_0000;
    let ea = a.exponent();
    let eb = b.exponent();
    let fa = a.fraction();
    let fb = b.fraction();
    assert(a.magnitude() == ea * unit + fa && 0 <= fa < unit && 0 <= ea);
    assert(b.magnitude() == eb * unit + fb && 0 <= fb < unit && 0 <= eb);
    assert(ea <= eb) by (nonlinear_arith)
        requires
            ea * unit + fa < eb * unit + fb,
            0 <= fa < unit,
            0 <= fb < unit,
    ;
    if ea > 0 {
        lemma_pow2_pos((ea - 1) as nat);
        assert(0 <= (unit + fa) * pow2((ea - 1) as nat)) by (nonlinear_arith)
            requires
                0 <= fa,
                unit > 0,
                pow2((ea - 1) as nat) > 0,
        ;
    }
    if ea == eb {
        if ea > 0 {
            assert((unit + fa) * pow2((ea - 1) as nat) < (unit + fb) * pow2((ea - 1) as nat))
                by (nonlinear_arith)
                requires
                    fa < fb,
                    pow2((ea - 1) as nat) > 0,
            ;
        }
    } else {
        // the values of one exponent lie below the lowest value of the next
        lemma_pow2_pos(ea as nat);
        let bound = unit * pow2(ea as nat);
        assert(a.scaled_magnitude() < bound) by {
            if ea == 0 {
                lemma_pow2_unfold(1);
                assert(pow2(0) == 1) by {
                    vstd::arithmetic::power2::lemma2_to64();
                }
            } else {
                lemma_pow2_unfold(ea as nat);
                assert((unit + fa) * pow2((ea - 1) as nat) < unit * (2 * pow2((ea - 1) as nat)))
                    by (nonlinear_arith)
                    requires
                        0 <= fa < unit,
                        pow2((ea - 1) as nat) > 0,
                ;
            }
        }
        lemma_pow2_pos((eb - 1) as nat);
        if ea < eb - 1 {
            lemma_pow2_strictly_increases(ea as nat, (eb - 1) as nat);
        }
        assert(bound <= (unit + fb) * pow2((eb - 1) as nat)) by (nonlinear_arith)
            requires
                bound == unit * pow2(ea as nat),
                pow2(ea as nat) <= pow2((eb - 1) as nat),
                0 <= fb,
                unit > 0,
        ;
    }
}

/// The order decided on the patterns is the order of the values: of two
/// finite values the one of lower rank stands for the smaller number, and
/// two of equal rank stand for the same number.
pub proof fn lemma_rank_orders_values(a: Real, b: Real)
    requires
        a.finite(),
        b.finite(),
    ensures
        a.lt_spec(b) <==> a.scaled() < b.scaled(),
        a.same(b) <==> a.scaled() == b.scaled(),
        a.le_spec(b) <==> a.scaled() <= b.scaled(),
{
    lemma_magnitude_is_a_count(a);
    lemma_magnitude_is_a_count(b);
    if a.magnitude() < b.magnitude() {
        lemma_magnitude_orders_values(a, b);
    } else if b.magnitude() < a.magnitude() {
        lemma_magnitude_orders_values(b, a);
    }
    let zero = Real { bits: 0 };
    assert(zero.magnitude() == 0 && zero.finite()) by {
        reveal(Real::magnitude);
    }
    if a.magnitude() > 0 {
        lemma_magnitude_orders_values(zero, a);
    }
    if b.magnitude() > 0 {
        lemma_magnitude_orders_values(zero, b);
    }
}

/// The magnitude of a pattern is a count of 63 bits.
pub proof fn lemma_magnitude_is_a_count(a: Real)
    ensures
        0 <= a.magnitude() < 0x8000_0000_0000_0000,
{
    reveal(Real::magnitude);
}

} // verus!
