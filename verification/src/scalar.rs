//! Single-precision numbers as bit patterns, and their order.
use vstd::arithmetic::div_mod::lemma_basic_div;
use vstd::arithmetic::div_mod::lemma_div_by_multiple;
use vstd::arithmetic::div_mod::lemma_div_denominator;
use vstd::arithmetic::div_mod::lemma_div_is_ordered;
use vstd::arithmetic::power2::lemma2_to64;
use vstd::arithmetic::power2::lemma_pow2_adds;
use vstd::arithmetic::power2::lemma_pow2_pos;
use vstd::arithmetic::power2::lemma_pow2_strictly_increases;
use vstd::arithmetic::power2::lemma_pow2_unfold;
use vstd::arithmetic::power2::pow2;
use vstd::bits::lemma_u64_shl_is_mul;
use vstd::bits::lemma_u64_shr_is_div;
use vstd::prelude::*;

verus! {

/// The bit that carries the sign.
pub const SIGN_BIT: u32 = 0x8000_0000;

/// The magnitude of an infinity; every larger magnitude is not a number.
pub const INFINITY_MAGNITUDE: u32 = 0x7f80_0000;

/// The pattern of positive zero.
pub const ZERO_BITS: u32 = 0;

/// The pattern of one.
pub const ONE_BITS: u32 = 0x3f80_0000;

/// Two to the number of fraction bits: the weight of the hidden bit.
pub const HIDDEN_BIT: u32 = 0x0080_0000;

/// The exponent field of one: numbers with a smaller one are below one in
/// magnitude.
pub const EXPONENT_OF_ONE: u32 = 127;

/// The exponent field from which on the fraction bits are all whole.
pub const EXPONENT_OF_WHOLE: u32 = 150;

/// The exponent field of two to the power of 31: from it on a magnitude does
/// not fit in an `i32`.
pub const EXPONENT_OF_LIMIT: u32 = 158;

/// The number that a magnitude up to that of infinity stands for, as a
/// multiple of the least positive number, two to the power of minus 149.
/// Infinity counts as two to the power of 128.
pub open spec fn scaled_magnitude(magnitude: int) -> int {
    let exponent = magnitude / (HIDDEN_BIT as int);
    let fraction = magnitude % (HIDDEN_BIT as int);
    if exponent == 0 {
        fraction
    } else {
        (HIDDEN_BIT + fraction) * pow2((exponent - 1) as nat)
    }
}

/// A single-precision number, held as its IEEE-754 bit pattern.
#[derive(Clone, Copy, Debug)]
pub struct Scalar {
    pub bits: u32,
}

impl Scalar {
    /// Whether the sign bit is set.
    pub open spec fn negative(self) -> bool {
        self.bits >= SIGN_BIT
    }

    /// The pattern without its sign bit.
    pub open spec fn magnitude(self) -> int {
        if self.negative() {
            self.bits - SIGN_BIT
        } else {
            self.bits as int
        }
    }

    /// Whether the pattern stands for no number.
    pub open spec fn nan(self) -> bool {
        self.magnitude() > INFINITY_MAGNITUDE
    }

    /// The place of the number among all numbers: the magnitude, counted
    /// downwards from zero where the sign is set. Both zeros share a place.
    pub open spec fn ordinal(self) -> int {
        if self.negative() {
            -self.magnitude()
        } else {
            self.magnitude()
        }
    }

    /// Whether the pattern stands for a number other than an infinity.
    pub open spec fn finite(self) -> bool {
        self.magnitude() < INFINITY_MAGNITUDE
    }

    /// The finite number that the pattern stands for, as a multiple of the
    /// least positive number, two to the power of minus 149.
    pub open spec fn scaled(self) -> int {
        if self.negative() {
            -scaled_magnitude(self.magnitude())
        } else {
            scaled_magnitude(self.magnitude())
        }
    }

    /// The whole number that `to_i32` returns: the number without what follows
    /// the point, brought into the range of `i32`; zero for what is not a
    /// number.
    pub open spec fn truncated(self) -> int {
        if self.nan() {
            0
        } else {
            let whole = scaled_magnitude(self.magnitude()) / (pow2(149) as int);
            if self.negative() {
                if -whole < i32::MIN {
                    i32::MIN as int
                } else {
                    -whole
                }
            } else {
                if whole > i32::MAX {
                    i32::MAX as int
                } else {
                    whole
                }
            }
        }
    }

    /// `self < other` as IEEE-754 has it: false whenever either is not a number.
    pub open spec fn below(self, other: Scalar) -> bool {
        !self.nan() && !other.nan() && self.ordinal() < other.ordinal()
    }

    /// `self == other` as IEEE-754 has it: the two zeros are equal, and what is
    /// not a number equals nothing, itself included.
    pub open spec fn same(self, other: Scalar) -> bool {
        !self.nan() && !other.nan() && self.ordinal() == other.ordinal()
    }

    /// Positive zero.
    pub open spec fn zero() -> Scalar {
        Scalar { bits: ZERO_BITS }
    }

    /// One.
    pub open spec fn one() -> Scalar {
        Scalar { bits: ONE_BITS }
    }

    /// The number of `[0, 1]` nearest to `self`, and one where `self` is not a
    /// number.
    pub open spec fn clamped_to_unit(self) -> Scalar {
        if self.nan() || Scalar::one().below(self) {
            Scalar::one()
        } else if self.below(Scalar::zero()) {
            Scalar::zero()
        } else {
            self
        }
    }

    /// The number with the opposite sign.
    pub open spec fn negated(self) -> Scalar {
        if self.negative() {
            Scalar { bits: (self.bits - SIGN_BIT) as u32 }
        } else {
            Scalar { bits: (self.bits + SIGN_BIT) as u32 }
        }
    }

    /// Wraps a bit pattern.
    pub fn from_bits(bits: u32) -> (r: Scalar)
        ensures
            r.bits == bits,
    {
        Scalar { bits }
    }

    /// The bit pattern.
    pub fn to_bits(self) -> (r: u32)
        ensures
            r == self.bits,
    {
        self.bits
    }

    /// Whether the pattern stands for no number.
    pub fn is_nan(self) -> (r: bool)
        ensures
            r == self.nan(),
    {
        let magnitude: u32 = if self.bits >= SIGN_BIT {
            self.bits - SIGN_BIT
        } else {
            self.bits
        };
        magnitude > INFINITY_MAGNITUDE
    }

    /// `self < other`.
    pub fn lt(self, other: Scalar) -> (r: bool)
        ensures
            r == self.below(other),
    {
        if self.is_nan() || other.is_nan() {
            return false;
        }
        let left_negative: bool = self.bits >= SIGN_BIT;
        let right_negative: bool = other.bits >= SIGN_BIT;
        let left: u32 = if left_negative {
            self.bits - SIGN_BIT
        } else {
            self.bits
        };
        let right: u32 = if right_negative {
            other.bits - SIGN_BIT
        } else {
            other.bits
        };
        if left_negative {
            if right_negative {
                right < left
            } else {
                left != 0 || right != 0
            }
        } else {
            !right_negative && left < right
        }
    }

    /// `self > other`.
    pub fn gt(self, other: Scalar) -> (r: bool)
        ensures
            r == other.below(self),
    {
        other.lt(self)
    }

    /// Brings `self` into `[0, 1]`.
    pub fn clamp_to_unit(self) -> (r: Scalar)
        ensures
            r == self.clamped_to_unit(),
            !r.nan(),
            !r.below(Scalar::zero()),
            !Scalar::one().below(r),
    {
        let zero: Scalar = Scalar::from_bits(ZERO_BITS);
        let one: Scalar = Scalar::from_bits(ONE_BITS);
        if self.is_nan() || one.lt(self) {
            one
        } else if self.lt(zero) {
            zero
        } else {
            self
        }
    }

    /// The number as an `i32`: cut off towards zero, the nearest end of the
    /// range where it lies outside, zero where it is not a number.
    pub fn to_i32(self) -> (r: i32)
        ensures
            r == self.truncated(),
    {
        if self.is_nan() {
            return 0;
        }
        let negative: bool = self.bits >= SIGN_BIT;
        let magnitude: u32 = if negative {
            self.bits - SIGN_BIT
        } else {
            self.bits
        };
        let exponent: u32 = magnitude / HIDDEN_BIT;
        let fraction: u32 = magnitude % HIDDEN_BIT;
        if exponent < EXPONENT_OF_ONE {
            proof {
                lemma_below_one(magnitude as int);
            }
            return 0;
        }
        if exponent >= EXPONENT_OF_LIMIT {
            proof {
                lemma_beyond_limit(magnitude as int);
            }
            return if negative {
                i32::MIN
            } else {
                i32::MAX
            };
        }
        let significand: u64 = (HIDDEN_BIT + fraction) as u64;
        let whole: u64 = if exponent >= EXPONENT_OF_WHOLE {
            let shift: u64 = (exponent - EXPONENT_OF_WHOLE) as u64;
            proof {
                lemma_whole_part(magnitude as int);
                lemma_shifted_left_fits(significand, shift);
                lemma_u64_shl_is_mul(significand, shift);
            }
            significand << shift
        } else {
            let shift: u64 = (EXPONENT_OF_WHOLE - exponent) as u64;
            proof {
                lemma_whole_part(magnitude as int);
                lemma_u64_shr_is_div(significand, shift);
                lemma_pow2_pos(shift as nat);
                lemma_div_is_ordered(0, significand as int, pow2(shift as nat) as int);
                lemma_basic_div(0, pow2(shift as nat) as int);
            }
            significand >> shift
        };
        if negative {
            -(whole as i32)
        } else {
            whole as i32
        }
    }

    /// The number with the opposite sign: `-1 * self`.
    pub fn neg(self) -> (r: Scalar)
        ensures
            r == self.negated(),
            r.nan() == self.nan(),
            r.ordinal() == -self.ordinal(),
            r.scaled() == -self.scaled(),
    {
        if self.bits >= SIGN_BIT {
            Scalar { bits: self.bits - SIGN_BIT }
        } else {
            Scalar { bits: self.bits + SIGN_BIT }
        }
    }
}

/// A magnitude whose exponent field is below that of one stands for a number
/// below one.
proof fn lemma_below_one(magnitude: int)
    requires
        0 <= magnitude < EXPONENT_OF_ONE * HIDDEN_BIT,
    ensures
        scaled_magnitude(magnitude) / (pow2(149) as int) == 0,
{
    let e = magnitude / (HIDDEN_BIT as int);
    let f = magnitude % (HIDDEN_BIT as int);
    lemma2_to64();
    lemma_pow2_adds(24, 125);
    lemma_pow2_pos(125);
    if e == 0 {
        assert(f < pow2(24) * pow2(125)) by (nonlinear_arith)
            requires
                f < 0x80_0000,
                pow2(24) == 0x100_0000,
                pow2(125) >= 1,
        ;
    } else {
        let p = pow2((e - 1) as nat);
        lemma_pow2_pos((e - 1) as nat);
        if e - 1 < 125 {
            lemma_pow2_strictly_increases((e - 1) as nat, 125);
        }
        assert((HIDDEN_BIT + f) * p < pow2(24) * pow2(125)) by (nonlinear_arith)
            requires
                0 <= f < 0x80_0000,
                HIDDEN_BIT == 0x80_0000,
                pow2(24) == 0x100_0000,
                0 < p <= pow2(125),
        ;
    }
    lemma_basic_div(scaled_magnitude(magnitude), pow2(149) as int);
}

/// A magnitude whose exponent field is that of two to the power of 31 or
/// above stands for a number that is at least that.
proof fn lemma_beyond_limit(magnitude: int)
    requires
        EXPONENT_OF_LIMIT * HIDDEN_BIT <= magnitude <= INFINITY_MAGNITUDE,
    ensures
        scaled_magnitude(magnitude) / (pow2(149) as int) >= 0x8000_0000,
{
    let e = magnitude / (HIDDEN_BIT as int);
    let f = magnitude % (HIDDEN_BIT as int);
    let p = pow2((e - 1) as nat);
    lemma2_to64();
    lemma_pow2_adds(8, 149);
    lemma_pow2_pos(149);
    if 157 < e - 1 {
        lemma_pow2_strictly_increases(157, (e - 1) as nat);
    }
    assert(0x8000_0000 * pow2(149) <= (HIDDEN_BIT + f) * p) by (nonlinear_arith)
        requires
            0 <= f,
            HIDDEN_BIT == 0x80_0000,
            pow2(8) == 0x100,
            pow2(8) * pow2(149) <= p,
            pow2(149) > 0,
    ;
    lemma_div_is_ordered(
        0x8000_0000 * (pow2(149) as int),
        scaled_magnitude(magnitude),
        pow2(149) as int,
    );
    lemma_div_by_multiple(0x8000_0000, pow2(149) as int);
}

/// The whole part of a number between one and two to the power of 31: the
/// significand, moved by what the exponent field differs from 150.
proof fn lemma_whole_part(magnitude: int)
    requires
        EXPONENT_OF_ONE * HIDDEN_BIT <= magnitude < EXPONENT_OF_LIMIT * HIDDEN_BIT,
    ensures
        ({
            let e = magnitude / (HIDDEN_BIT as int);
            let significand = HIDDEN_BIT + magnitude % (HIDDEN_BIT as int);
            scaled_magnitude(magnitude) / (pow2(149) as int) == if e >= EXPONENT_OF_WHOLE {
                significand * pow2((e - EXPONENT_OF_WHOLE) as nat)
            } else {
                significand / (pow2((EXPONENT_OF_WHOLE - e) as nat) as int)
            }
        }),
{
    let e = magnitude / (HIDDEN_BIT as int);
    let significand = HIDDEN_BIT + magnitude % (HIDDEN_BIT as int);
    let unit = pow2(149) as int;
    lemma_pow2_pos(149);
    if e >= EXPONENT_OF_WHOLE {
        let k = (e - EXPONENT_OF_WHOLE) as nat;
        let q = pow2(k) as int;
        lemma_pow2_adds(k, 149);
        lemma_pow2_pos(k);
        assert(significand * (q * unit) == (significand * q) * unit) by (nonlinear_arith);
        assert(significand * q >= 0) by (nonlinear_arith)
            requires
                significand >= 0,
                q > 0,
        ;
        lemma_div_by_multiple(significand * q, unit);
    } else {
        let k = (EXPONENT_OF_WHOLE - e) as nat;
        let q = pow2(k) as int;
        let p = pow2((e - 1) as nat) as int;
        lemma_pow2_adds((e - 1) as nat, k);
        lemma_pow2_pos(k);
        lemma_pow2_pos((e - 1) as nat);
        assert(significand * p >= 0) by (nonlinear_arith)
            requires
                significand >= 0,
                p > 0,
        ;
        lemma_div_denominator(significand * p, p, q);
        lemma_div_by_multiple(significand, p);
    }
}

/// A significand moved left by at most seven places stays below two to the
/// power of 31.
proof fn lemma_shifted_left_fits(significand: u64, shift: u64)
    requires
        significand < 0x100_0000,
        shift <= 7,
    ensures
        significand * pow2(shift as nat) <= 0x7fff_ff80,
{
    lemma2_to64();
    if shift < 7 {
        lemma_pow2_strictly_increases(shift as nat, 7);
    }
    assert(significand * pow2(shift as nat) <= 0x7fff_ff80) by (nonlinear_arith)
        requires
            significand <= 0xff_ffff,
            0 <= pow2(shift as nat) <= 0x80,
    ;
}

/// A larger magnitude stands for a larger number.
pub proof fn lemma_scaled_magnitude_increases(smaller: int, larger: int)
    requires
        0 <= smaller < larger < INFINITY_MAGNITUDE,
    ensures
        0 <= scaled_magnitude(smaller) < scaled_magnitude(larger),
{
    let e1 = smaller / (HIDDEN_BIT as int);
    let f1 = smaller % (HIDDEN_BIT as int);
    let e2 = larger / (HIDDEN_BIT as int);
    let f2 = larger % (HIDDEN_BIT as int);
    if e1 == e2 {
        if e1 > 0 {
            let p = pow2((e1 - 1) as nat);
            lemma_pow2_pos((e1 - 1) as nat);
            assert(0 <= (HIDDEN_BIT + f1) * p < (HIDDEN_BIT + f2) * p) by (nonlinear_arith)
                requires
                    p > 0,
                    0 <= f1 < f2,
            ;
        }
    } else {
        let upper = pow2((e2 - 1) as nat);
        lemma_pow2_pos((e2 - 1) as nat);
        assert(HIDDEN_BIT * upper <= (HIDDEN_BIT + f2) * upper) by (nonlinear_arith)
            requires
                upper > 0,
                0 <= f2,
        ;
        if e1 == 0 {
            assert(HIDDEN_BIT * 1 <= HIDDEN_BIT * upper) by (nonlinear_arith)
                requires
                    upper >= 1,
            ;
        } else {
            let lower = pow2((e1 - 1) as nat);
            lemma_pow2_pos((e1 - 1) as nat);
            lemma_pow2_unfold(e1 as nat);
            if e1 < e2 - 1 {
                lemma_pow2_strictly_increases(e1 as nat, (e2 - 1) as nat);
            }
            assert(0 <= (HIDDEN_BIT + f1) * lower < HIDDEN_BIT * upper) by (nonlinear_arith)
                requires
                    lower > 0,
                    2 * lower <= upper,
                    0 <= f1 < HIDDEN_BIT,
            ;
        }
    }
}

/// The order and the equality of finite patterns are those of the numbers
/// that they stand for.
pub proof fn lemma_order_is_numeric(a: Scalar, b: Scalar)
    requires
        a.finite(),
        b.finite(),
    ensures
        a.below(b) <==> a.scaled() < b.scaled(),
        a.same(b) <==> a.scaled() == b.scaled(),
{
    let m = a.magnitude();
    let n = b.magnitude();
    if m < n {
        lemma_scaled_magnitude_increases(m, n);
    }
    if n < m {
        lemma_scaled_magnitude_increases(n, m);
    }
    if 0 < m {
        lemma_scaled_magnitude_increases(0, m);
    }
    if 0 < n {
        lemma_scaled_magnitude_increases(0, n);
    }
}

/// The order of the numbers is strict: nothing is below itself, and what is
/// below something that is below a third is below the third. Of two numbers
/// one is below the other or they are the same.
pub proof fn lemma_order_is_strict(a: Scalar, b: Scalar, c: Scalar)
    ensures
        !a.below(a),
        a.below(b) ==> !b.below(a),
        a.below(b) && b.below(c) ==> a.below(c),
        !a.nan() && !b.nan() ==> a.below(b) || b.below(a) || a.same(b),
        a.same(b) ==> !a.below(b) && !b.below(a),
{
}

/// The pattern of zero stands for zero and that of one for one, which is two
/// to the power of 149 times the least positive number.
pub proof fn lemma_zero_and_one()
    ensures
        Scalar::zero().scaled() == 0,
        Scalar::one().scaled() == pow2(149),
        Scalar::zero().finite(),
        Scalar::one().finite(),
{
    lemma2_to64();
    lemma_pow2_adds(23, 126);
}

/// Every finite number lies strictly between the two infinities, and what is
/// not a number is neither below nor above nor equal to anything.
pub proof fn lemma_order_at_the_ends(a: Scalar, b: Scalar)
    ensures
        a.finite() ==> a.below(Scalar { bits: INFINITY_MAGNITUDE }) && (Scalar {
            bits: 0xff80_0000,
        }).below(a),
        a.nan() ==> !a.below(b) && !b.below(a) && !a.same(b),
{
}

impl PartialEq for Scalar {
    fn eq(&self, other: &Scalar) -> (r: bool) {
        !self.is_nan() && !other.is_nan() && (self.bits == other.bits || (self.bits == ZERO_BITS
            || self.bits == SIGN_BIT) && (other.bits == ZERO_BITS || other.bits == SIGN_BIT))
    }
}

impl vstd::std_specs::cmp::PartialEqSpecImpl for Scalar {
    open spec fn obeys_eq_spec() -> bool {
        true
    }

    open spec fn eq_spec(&self, other: &Scalar) -> bool {
        self.same(*other)
    }
}

} // verus!
