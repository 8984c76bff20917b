//! Rates, durations and ratios as the bit patterns of binary64 values.
//!
//! The library never computes with such a value. It only compares and classifies, and on the bit
//! pattern both are integer questions: the patterns of the non-negative values are ordered as the
//! values are, and the sign bit mirrors that order below zero.
use vstd::arithmetic::power2::pow2;
use vstd::prelude::*;

verus! {

/// The binary64 value whose bit pattern is `bits`.
#[derive(Clone, Copy, Debug, PartialEq, Eq, Structural)]
pub struct Real {
    pub bits: u64,
}

/// The sign bit.
pub const SIGN: u64 = 0x8000_0000_0000_0000;

/// The pattern of positive infinity; larger magnitudes are not numbers.
pub const INFINITY: u64 = 0x7ff0_0000_0000_0000;

/// The pattern of one.
pub const ONE: u64 = 0x3ff0_0000_0000_0000;

/// The pattern of 2^64.
pub const TWO_POW_64: u64 = 0x43f0_0000_0000_0000;

impl Real {
    pub open spec fn magnitude(self) -> int {
        if self.bits < SIGN {
            self.bits as int
        } else {
            self.bits - SIGN
        }
    }

    pub open spec fn is_nan_spec(self) -> bool {
        self.magnitude() > INFINITY
    }

    pub open spec fn is_finite_spec(self) -> bool {
        self.magnitude() < INFINITY
    }

    /// The position of the value in numeric order. Both zeros stand at 0.
    pub open spec fn rank(self) -> int {
        if self.bits < SIGN {
            self.magnitude()
        } else {
            -self.magnitude()
        }
    }

    /// `self < other` on numbers, and false where either is not a number.
    pub open spec fn lt_spec(self, other: Real) -> bool {
        !self.is_nan_spec() && !other.is_nan_spec() && self.rank() < other.rank()
    }

    /// `self <= other` on numbers, and false where either is not a number.
    pub open spec fn le_spec(self, other: Real) -> bool {
        !self.is_nan_spec() && !other.is_nan_spec() && self.rank() <= other.rank()
    }

    pub open spec fn zero_spec() -> Real {
        Real { bits: 0 }
    }

    pub open spec fn one_spec() -> Real {
        Real { bits: ONE }
    }

    /// A finite number above zero.
    pub open spec fn is_positive_spec(self) -> bool {
        self.is_finite_spec() && self.rank() > 0
    }

    pub fn zero() -> (r: Real)
        ensures
            r == Real::zero_spec(),
    {
        Real { bits: 0 }
    }

    pub fn one() -> (r: Real)
        ensures
            r == Real::one_spec(),
    {
        Real { bits: ONE }
    }

    pub fn is_nan(self) -> (r: bool)
        ensures
            r == self.is_nan_spec(),
    {
        if self.bits < SIGN {
            self.bits > INFINITY
        } else {
            self.bits - SIGN > INFINITY
        }
    }

    pub fn is_finite(self) -> (r: bool)
        ensures
            r == self.is_finite_spec(),
    {
        if self.bits < SIGN {
            self.bits < INFINITY
        } else {
            self.bits - SIGN < INFINITY
        }
    }

    /// The position in numeric order, as a machine integer.
    pub fn rank_i64(self) -> (r: i64)
        ensures
            r == self.rank(),
    {
        if self.bits < SIGN {
            self.bits as i64
        } else {
            -((self.bits - SIGN) as i64)
        }
    }

    pub fn lt(self, other: Real) -> (r: bool)
        ensures
            r == self.lt_spec(other),
    {
        !self.is_nan() && !other.is_nan() && self.rank_i64() < other.rank_i64()
    }

    pub fn le(self, other: Real) -> (r: bool)
        ensures
            r == self.le_spec(other),
    {
        !self.is_nan() && !other.is_nan() && self.rank_i64() <= other.rank_i64()
    }

    pub fn is_positive(self) -> (r: bool)
        ensures
            r == self.is_positive_spec(),
    {
        self.is_finite() && self.rank_i64() > 0
    }

    /// The significand of a positive number, with the hidden bit where there is one.
    pub open spec fn significand(self) -> int {
        let fraction = self.magnitude() % 0x10_0000_0000_0000;
        if self.exponent() == 0 {
            fraction
        } else {
            fraction + 0x10_0000_0000_0000
        }
    }

    /// The exponent field.
    pub open spec fn exponent(self) -> int {
        self.magnitude() / 0x10_0000_0000_0000
    }

    /// The value rounded down, of a finite number that is not negative. The value itself is
    /// `significand * 2^(exponent - 1075)`, with an exponent of 1 for subnormal numbers, all of
    /// which lie below one.
    pub open spec fn floor_spec(self) -> nat {
        if self.exponent() >= 1075 {
            (self.significand() * pow2((self.exponent() - 1075) as nat)) as nat
        } else {
            (self.significand() / (pow2((1075 - self.exponent()) as nat) as int)) as nat
        }
    }

    /// The unsigned integer nearest towards zero, kept in range: zero for what is not a number and
    /// for numbers below zero, the largest `u64` for what exceeds it.
    pub open spec fn to_u64_spec(self) -> u64 {
        if self.is_nan_spec() || self.rank() <= 0 {
            0
        } else if self.magnitude() >= TWO_POW_64 {
            u64::MAX
        } else {
            self.floor_spec() as u64
        }
    }

    /// A positive number below 2^64 rounds down to a 64-bit integer.
    pub proof fn lemma_floor_fits(self)
        requires
            self.bits < TWO_POW_64,
        ensures
            self.floor_spec() <= u64::MAX,
    {
        let e = self.exponent();
        let m = self.significand();
        assert(e <= 1086) by (nonlinear_arith)
            requires
                e == (self.bits as int) / 0x10_0000_0000_0000,
                self.bits < 0x43f0_0000_0000_0000,
        ;
        assert(0 <= e) by (nonlinear_arith)
            requires
                e == (self.bits as int) / 0x10_0000_0000_0000,
        ;
        assert(0 <= m < 0x20_0000_0000_0000);
        vstd::arithmetic::power2::lemma2_to64();
        if e >= 1075 {
            let k = (e - 1075) as nat;
            if k < 11 {
                vstd::arithmetic::power2::lemma_pow2_strictly_increases(k, 11);
            }
            assert(pow2(k) <= 2048);
            vstd::arithmetic::power2::lemma_pow2_pos(k);
            assert(m * pow2(k) <= 0x1f_ffff_ffff_ffff * 2048) by (nonlinear_arith)
                requires
                    0 <= m <= 0x1f_ffff_ffff_ffff,
                    0 < pow2(k) <= 2048,
            ;
        } else {
            let k = (1075 - e) as nat;
            vstd::arithmetic::power2::lemma_pow2_pos(k);
            assert(m / (pow2(k) as int) <= m) by (nonlinear_arith)
                requires
                    0 <= m,
                    0 < pow2(k),
            ;
        }
    }

    pub fn to_u64(self) -> (r: u64)
        ensures
            r == self.to_u64_spec(),
    {
        if self.is_nan() || self.rank_i64() <= 0 {
            return 0;
        }
        if self.bits >= TWO_POW_64 {
            return u64::MAX;
        }
        let e: u64 = self.bits / 0x10_0000_0000_0000;
        let fraction: u64 = self.bits % 0x10_0000_0000_0000;
        let m: u64 = if e == 0 {
            fraction
        } else {
            fraction + 0x10_0000_0000_0000
        };
        proof {
            self.lemma_floor_fits();
            assert(e <= 1086) by (nonlinear_arith)
                requires
                    e == (self.bits as int) / 0x10_0000_0000_0000,
                    self.bits < 0x43f0_0000_0000_0000,
            ;
        }
        if e >= 1075 {
            let k: u64 = e - 1075;
            proof {
                vstd::bits::lemma_u64_shl_is_mul(m, k);
            }
            m << k
        } else {
            let k: u64 = 1075 - e;
            if k >= 64 {
                proof {
                    vstd::arithmetic::power2::lemma2_to64();
                    if k > 64 {
                        vstd::arithmetic::power2::lemma_pow2_strictly_increases(64, k as nat);
                    }
                    vstd::arithmetic::div_mod::lemma_basic_div(m as int, pow2(k as nat) as int);
                }
                0
            } else {
                proof {
                    vstd::bits::lemma_u64_shr_is_div(m, k);
                }
                m >> k
            }
        }
    }
}

impl Real {
    /// Numbers are in a total order, and what is not a number is in none.
    pub proof fn lemma_order(a: Real, b: Real, c: Real)
        ensures
            !a.lt_spec(a),
            a.lt_spec(b) && b.lt_spec(c) ==> a.lt_spec(c),
            !a.is_nan_spec() && !b.is_nan_spec() ==> a.lt_spec(b) || b.lt_spec(a) || a.rank()
                == b.rank(),
            a.le_spec(b) <==> !a.is_nan_spec() && !b.is_nan_spec() && !b.lt_spec(a),
            a.is_nan_spec() ==> !a.lt_spec(b) && !b.lt_spec(a) && !a.is_finite_spec()
                && !a.is_positive_spec(),
            a.is_positive_spec() <==> a.is_finite_spec() && (Real { bits: 0 }).lt_spec(a),
    {
    }

    /// The patterns of a sign apart, two numbers are the same number only with the same pattern, and
    /// among those above zero the larger has the larger pattern.
    pub proof fn lemma_patterns(a: Real, b: Real)
        ensures
            a.bits < 0x7ff0_0000_0000_0000 <==> a.is_finite_spec() && !(a.bits
                >= 0x8000_0000_0000_0000),
            a.is_positive_spec() <==> 0 < a.bits < 0x7ff0_0000_0000_0000,
            a.is_positive_spec() && b.is_positive_spec() ==> (a.lt_spec(b) <==> a.bits < b.bits),
            a.bits == 0x7ff0_0000_0000_0000 ==> !a.is_finite_spec() && !a.is_nan_spec(),
            0x7ff0_0000_0000_0000 < a.bits < 0x8000_0000_0000_0000 ==> a.is_nan_spec(),
            a.bits > 0xfff0_0000_0000_0000 ==> a.is_nan_spec(),
            0x8000_0000_0000_0000 < a.bits < 0xfff0_0000_0000_0000 ==> a.lt_spec(
                Real { bits: 0 },
            ),
    {
    }

    /// A number above zero is cut to the integer below it: `m * 2^(e - 1075)`, with `m` and `e` from
    /// the pattern, lies between the integer and the next.
    pub proof fn lemma_cut_is_below(self)
        requires
            0x10_0000_0000_0000 <= self.bits < 0x43f0_0000_0000_0000,
        ensures
            ({
                let e = self.bits as int / 0x10_0000_0000_0000;
                let m = self.bits as int % 0x10_0000_0000_0000 + 0x10_0000_0000_0000;
                let n = self.to_u64_spec() as int;
                &&& e >= 1075 ==> n == m * pow2((e - 1075) as nat)
                &&& e < 1075 ==> n * pow2((1075 - e) as nat) <= m < (n + 1) * pow2(
                    (1075 - e) as nat,
                )
            }),
    {
        self.lemma_floor_fits();
        let e = self.bits as int / 0x10_0000_0000_0000;
        let m = self.bits as int % 0x10_0000_0000_0000 + 0x10_0000_0000_0000;
        assert(e >= 1) by (nonlinear_arith)
            requires
                e == (self.bits as int) / 0x10_0000_0000_0000,
                self.bits >= 0x10_0000_0000_0000,
        ;
        assert(self.significand() == m);
        if e < 1075 {
            let d = pow2((1075 - e) as nat) as int;
            vstd::arithmetic::power2::lemma_pow2_pos((1075 - e) as nat);
            vstd::arithmetic::div_mod::lemma_fundamental_div_mod(m, d);
            vstd::arithmetic::div_mod::lemma_mod_bound(m, d);
            let n = m / d;
            assert(n * d == d * n) by (nonlinear_arith);
            assert((n + 1) * d == n * d + d) by (nonlinear_arith);
            assert(n >= 0) by (nonlinear_arith)
                requires
                    n == m / d,
                    d > 0,
                    m >= 0,
            ;
        } else {
            vstd::arithmetic::power2::lemma_pow2_pos((e - 1075) as nat);
            assert(m * pow2((e - 1075) as nat) >= 0) by (nonlinear_arith)
                requires
                    m >= 0,
            ;
        }
    }

    /// What is no number, and what is not above zero, is cut to zero; what is too large to the largest
    /// integer.
    pub proof fn lemma_cut_at_the_ends(self)
        ensures
            self.is_nan_spec() ==> self.to_u64_spec() == 0,
            self.le_spec(Real { bits: 0 }) ==> self.to_u64_spec() == 0,
            !self.is_nan_spec() && (Real { bits: 0x43f0_0000_0000_0000 }).le_spec(self)
                ==> self.to_u64_spec() == u64::MAX,
    {
    }
}

} // verus!
