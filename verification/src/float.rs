//! IEEE 754 binary64 numbers held as bit patterns.
//!
//! [`F64`] computes exactly what the IEEE 754 operations promise: each of
//! addition, subtraction, multiplication, division and square root gives the
//! double nearest to the exact result, ties to the even pattern. The contracts
//! say so over whole numbers of units of 2^-1074, in which every finite double
//! is an integer. Where IEEE 754 leaves the bits of a NaN open, the one quiet
//! NaN of [`F64::nan`] is given.
pub mod accuracy;
pub mod decimals;
pub mod errors;
pub mod exact;
pub mod locating;
pub mod magnitude;
pub mod nearness;
pub mod order;
pub mod range;
pub mod rounding;
pub mod tracking;

use self::locating::{
    lemma_located_product, lemma_located_quotient, lemma_located_root, lemma_located_whole, lemma_ratio_decreasing,
    lemma_root_decreasing, lemma_zero_ratio, ratio, root,
};
use self::magnitude::{lemma_mag_increasing, lemma_mag_scaled, mag, HIDDEN, INF_BITS};
use self::rounding::{decreasing, lemma_nearest_unique, nearest, round_located, two_to};
use std::cmp::Ordering;
use vstd::arithmetic::power::{lemma_pow0, lemma_pow_increases, lemma_pow_positive, pow};
use vstd::arithmetic::power2::{
    lemma2_to64, lemma2_to64_rest, lemma_pow2_adds, lemma_pow2_pos, lemma_pow2_strictly_increases, lemma_pow2_unfold, pow2,
};
use vstd::prelude::*;

verus! {

/// The sign bit.
pub const SIGN_BIT: u64 = 0x8000_0000_0000_0000;

/// The quiet NaN that every invalid operation gives.
pub const NAN_BITS: u64 = 0x7ff8_0000_0000_0000;

/// A binary64 number.
#[derive(Clone, Copy, Debug)]
pub struct F64 {
    pub bits: u64,
}

/// The pattern nearest to the magnitude that `gap` stands for.
pub open spec fn rounded(gap: spec_fn(int) -> int) -> nat {
    choose|m: nat| nearest(gap, m)
}

/// The number with this sign and magnitude pattern.
pub open spec fn signed(negative: bool, m: nat) -> F64 {
    F64 { bits: (if negative { m + SIGN_BIT } else { m as int }) as u64 }
}

impl F64 {
    pub open spec fn negative(self) -> bool {
        self.bits >= SIGN_BIT
    }

    /// The magnitude pattern: all bits but the sign.
    pub open spec fn pattern(self) -> nat {
        (if self.bits >= SIGN_BIT { self.bits - SIGN_BIT } else { self.bits as int }) as nat
    }

    pub open spec fn nan_spec() -> F64 {
        F64 { bits: NAN_BITS }
    }

    pub open spec fn infinity_spec() -> F64 {
        F64 { bits: INF_BITS }
    }

    #[verifier::opaque]
    pub open spec fn is_nan_spec(self) -> bool {
        self.pattern() > INF_BITS
    }

    pub open spec fn is_infinite_spec(self) -> bool {
        self.pattern() == INF_BITS
    }

    #[verifier::opaque]
    pub open spec fn is_finite_spec(self) -> bool {
        self.pattern() < INF_BITS
    }

    /// The exact value in units of 2^-1074 (for an infinity, what the binade
    /// above the largest double would begin with).
    #[verifier::opaque]
    pub open spec fn units(self) -> int {
        if self.negative() {
            -(mag(self.pattern()) as int)
        } else {
            mag(self.pattern()) as int
        }
    }

    /// `self < other`: both are numbers and the values are so ordered.
    pub open spec fn spec_lt(self, other: F64) -> bool {
        !self.is_nan_spec() && !other.is_nan_spec() && self.units() < other.units()
    }

    pub open spec fn spec_le(self, other: F64) -> bool {
        !self.is_nan_spec() && !other.is_nan_spec() && self.units() <= other.units()
    }

    pub open spec fn spec_gt(self, other: F64) -> bool {
        !self.is_nan_spec() && !other.is_nan_spec() && self.units() > other.units()
    }

    pub open spec fn spec_ge(self, other: F64) -> bool {
        !self.is_nan_spec() && !other.is_nan_spec() && self.units() >= other.units()
    }

    /// Equality of values, under which both zeros are one and NaN equals nothing.
    pub open spec fn same_spec(self, other: F64) -> bool {
        !self.is_nan_spec() && !other.is_nan_spec() && self.units() == other.units()
    }

    pub open spec fn spec_neg(self) -> F64 {
        signed(!self.negative(), self.pattern())
    }

    /// The number with the opposite sign.
    pub open spec fn negate_spec(self) -> F64 {
        self.spec_neg()
    }

    pub open spec fn abs_spec(self) -> F64 {
        signed(false, self.pattern())
    }

    /// The sum, rounded; opposite infinities have none.
    #[verifier::opaque]
    pub open spec fn spec_add(self, other: F64) -> F64 {
        if self.pattern() > INF_BITS || other.pattern() > INF_BITS {
            F64::nan_spec()
        } else if self.is_infinite_spec() {
            if other.is_infinite_spec() && self.negative() != other.negative() {
                F64::nan_spec()
            } else {
                self
            }
        } else if other.is_infinite_spec() {
            other
        } else {
            let total = self.units() + other.units();
            if total == 0 {
                signed(self.negative() && other.negative(), 0)
            } else {
                signed(total < 0, rounded(ratio(if total < 0 { -total } else { total }, 1)))
            }
        }
    }

    pub open spec fn spec_sub(self, other: F64) -> F64 {
        self.spec_add(other.spec_neg())
    }

    /// The product, rounded; zero times infinity has none.
    #[verifier::opaque]
    pub open spec fn spec_mul(self, other: F64) -> F64 {
        let negative = self.negative() != other.negative();
        if self.pattern() > INF_BITS || other.pattern() > INF_BITS {
            F64::nan_spec()
        } else if self.is_infinite_spec() || other.is_infinite_spec() {
            if self.pattern() == 0 || other.pattern() == 0 {
                F64::nan_spec()
            } else {
                signed(negative, INF_BITS as nat)
            }
        } else {
            signed(negative, rounded(ratio((mag(self.pattern()) * mag(other.pattern())) as int, pow2(1074) as int)))
        }
    }

    /// The quotient, rounded; zero over zero and infinity over infinity have none.
    #[verifier::opaque]
    pub open spec fn quotient(self, other: F64) -> F64 {
        let negative = self.negative() != other.negative();
        if self.pattern() > INF_BITS || other.pattern() > INF_BITS {
            F64::nan_spec()
        } else if self.is_infinite_spec() {
            if other.is_infinite_spec() {
                F64::nan_spec()
            } else {
                signed(negative, INF_BITS as nat)
            }
        } else if other.is_infinite_spec() {
            signed(negative, 0)
        } else if other.pattern() == 0 {
            if self.pattern() == 0 {
                F64::nan_spec()
            } else {
                signed(negative, INF_BITS as nat)
            }
        } else {
            signed(negative, rounded(ratio((mag(self.pattern()) * pow2(1074)) as int, mag(other.pattern()) as int)))
        }
    }

    /// `/` in contracts.
    pub open spec fn spec_euclidean_or_real_div(self, other: F64) -> F64 {
        self.quotient(other)
    }

    /// The square root, rounded; a negative number has none.
    #[verifier::opaque]
    pub open spec fn sqrt_spec(self) -> F64 {
        if self.pattern() > INF_BITS {
            F64::nan_spec()
        } else if self.pattern() == 0 {
            self
        } else if self.negative() {
            F64::nan_spec()
        } else if self.is_infinite_spec() {
            self
        } else {
            signed(false, rounded(root((mag(self.pattern()) * pow2(1074)) as int)))
        }
    }

    /// The lesser number; a NaN yields the other one. Equal values give `self`.
    pub open spec fn min_spec(self, other: F64) -> F64 {
        if self.is_nan_spec() {
            other
        } else if other < self {
            other
        } else {
            self
        }
    }

    /// The greater number; a NaN yields the other one. Equal values give `self`.
    pub open spec fn max_spec(self, other: F64) -> F64 {
        if self.is_nan_spec() {
            other
        } else if other > self {
            other
        } else {
            self
        }
    }

    /// `self` brought into `low..=high`; a NaN stays.
    pub open spec fn clamp_spec(self, low: F64, high: F64) -> F64 {
        if self < low {
            low
        } else if self > high {
            high
        } else {
            self
        }
    }

    /// The number with the given bit pattern.
    pub fn from_bits(bits: u64) -> (r: F64)
        ensures
            r.bits == bits,
    {
        F64 { bits }
    }

    /// The bit pattern.
    pub fn to_bits(self) -> (bits: u64)
        ensures
            bits == self.bits,
    {
        self.bits
    }

    #[verifier::when_used_as_spec(nan_spec)]
    pub fn nan() -> (r: F64)
        ensures
            r == F64::nan_spec(),
    {
        F64 { bits: NAN_BITS }
    }

    #[verifier::when_used_as_spec(infinity_spec)]
    pub fn infinity() -> (r: F64)
        ensures
            r == F64::infinity_spec(),
    {
        F64 { bits: INF_BITS }
    }

    fn is_negative(self) -> (r: bool)
        ensures
            r == self.negative(),
    {
        self.bits >= SIGN_BIT
    }

    fn low_bits(self) -> (m: u64)
        ensures
            m == self.pattern(),
            m < SIGN_BIT,
    {
        if self.bits >= SIGN_BIT {
            self.bits - SIGN_BIT
        } else {
            self.bits
        }
    }

    #[verifier::when_used_as_spec(is_nan_spec)]
    pub fn is_nan(self) -> (r: bool)
        ensures
            r == self.is_nan_spec(),
    {
        proof {
            reveal(F64::is_nan_spec);
        }
        self.low_bits() > INF_BITS
    }

    #[verifier::when_used_as_spec(is_finite_spec)]
    pub fn is_finite(self) -> (r: bool)
        ensures
            r == self.is_finite_spec(),
    {
        proof {
            reveal(F64::is_finite_spec);
        }
        self.low_bits() < INF_BITS
    }

    #[verifier::when_used_as_spec(abs_spec)]
    pub fn abs(self) -> (r: F64)
        ensures
            r == self.abs_spec(),
    {
        F64 { bits: self.low_bits() }
    }

    /// Equality of values.
    #[verifier::when_used_as_spec(same_spec)]
    pub fn same(self, other: F64) -> (r: bool)
        ensures
            r == self.same(other),
    {
        self == other
    }

    /// The number with the opposite sign.
    #[verifier::when_used_as_spec(negate_spec)]
    pub fn negate(self) -> (r: F64)
        ensures
            r == self.negate(),
    {
        std::ops::Neg::neg(self)
    }

    #[verifier::when_used_as_spec(min_spec)]
    pub fn min(self, other: F64) -> (r: F64)
        ensures
            r == self.min_spec(other),
    {
        if self.is_nan() {
            other
        } else if other < self {
            other
        } else {
            self
        }
    }

    #[verifier::when_used_as_spec(max_spec)]
    pub fn max(self, other: F64) -> (r: F64)
        ensures
            r == self.max_spec(other),
    {
        if self.is_nan() {
            other
        } else if other > self {
            other
        } else {
            self
        }
    }

    /// `self` brought into `low..=high`.
    #[verifier::when_used_as_spec(clamp_spec)]
    pub fn clamp(self, low: F64, high: F64) -> (r: F64)
        requires
            low <= high,
        ensures
            r == self.clamp_spec(low, high),
    {
        if self < low {
            low
        } else if self > high {
            high
        } else {
            self
        }
    }

    /// [`Self::clamp_unit`] in contracts.
    pub open spec fn clamp_unit_spec(self) -> F64 {
        self.clamp_spec(zero_spec(), whole_spec(1))
    }

    /// `self` brought into `0..=1`.
    #[verifier::when_used_as_spec(clamp_unit_spec)]
    pub fn clamp_unit(self) -> (r: F64)
        ensures
            r == self.clamp_unit(),
    {
        proof {
            lemma_one();
        }
        self.clamp(zero(), whole(1))
    }

    #[verifier::when_used_as_spec(sqrt_spec)]
    pub fn sqrt(self) -> (r: F64)
        ensures
            r == self.sqrt_spec(),
    {
        proof {
            reveal(F64::sqrt_spec);
        }
        let m: u64 = self.low_bits();
        if m > INF_BITS {
            return F64::nan();
        }
        if m == 0 {
            return self;
        }
        if self.is_negative() {
            return F64::nan();
        }
        if m == INF_BITS {
            return self;
        }
        let (t, j): (u64, i32) = split(m);
        let mut wide: u128 = t as u128;
        let mut s: i32 = 0;
        let bottom: u128 = 0x1000_0000_0000_0000_0000_0000_0000;
        proof {
            lemma_pow2_facts();
            lemma_pow2_adds(54, 54);
            lemma_pow2_unfold(110);
            lemma_pow2_unfold(109);
            lemma_pow2_unfold(112);
            lemma_pow2_unfold(111);
            assert(t * pow2(0) == t) by (nonlinear_arith)
                requires
                    pow2(0) == 1,
            ;
        }
        while wide < bottom
            invariant
                bottom == 0x1000_0000_0000_0000_0000_0000_0000,
                bottom == pow2(108),
                0 < t < 2 * HIDDEN,
                wide == t * pow2(s as nat),
                0 < wide < 2 * bottom,
                0 <= s <= 108,
            decreases 108 - s,
        {
            proof {
                lemma_pow2_unfold((s + 1) as nat);
                let p = pow2(s as nat) as int;
                assert(t * (2 * p) == 2 * (t * p)) by (nonlinear_arith);
                if s >= 108 {
                    if s > 108 {
                        lemma_pow2_strictly_increases(108, s as nat);
                    }
                    assert(p <= t * p) by (nonlinear_arith)
                        requires
                            t >= 1,
                            p >= 0,
                    ;
                }
            }
            wide = wide + wide;
            s = s + 1;
        }
        if (j + 1074 - s) % 2 != 0 {
            proof {
                lemma_pow2_unfold((s + 1) as nat);
                let p = pow2(s as nat) as int;
                assert(t * (2 * p) == 2 * (t * p)) by (nonlinear_arith);
            }
            wide = wide + wide;
            s = s + 1;
        }
        let h: i32 = (j + 1074 - s) / 2;
        let q: u128 = integer_root(wide);
        let exact: bool = q * q == wide;
        let ghost total = (mag(m as nat) * pow2(1074)) as int;
        proof {
            lemma_root_decreasing(total);
            lemma_pow2_adds(j as nat, 1074);
            assert(s + 2 * h == j + 1074);
            lemma_pow2_adds(s as nat, (2 * h) as nat);
            assert(s as nat + (2 * h) as nat == j as nat + 1074);
            let w = wide as int;
            let ps = pow2(s as nat) as int;
            let ph = pow2((2 * h) as nat) as int;
            let pj = pow2(j as nat) as int;
            let pu = pow2(1074) as int;
            assert(total == w * ph) by (nonlinear_arith)
                requires
                    total == (t * pj) * pu,
                    w == t * ps,
                    ps * ph == pj * pu,
            ;
            lemma_located_root(w, h as nat, q as int);
            if q < pow2(54) {
                assert((q + 1) * (q + 1) <= pow2(54) * pow2(54)) by (nonlinear_arith)
                    requires
                        q + 1 <= pow2(54),
                        q >= 0,
                ;
            }
        }
        let r: u64 = round_located(q, h, !exact, Ghost(root(total)));
        proof {
            lemma_rounded(root(total), r as nat);
        }
        assemble(false, r)
    }

    fn nearest_to_decimal(m: u64, e: i32) -> (r: F64)
        requires
            -37 <= e <= 18,
        ensures
            r == decimal(m as nat, e as int),
    {
        proof {
            reveal(decimal);
            lemma_pow2_facts();
            lemma_pow2_pos(1074);
        }
        let mut power: u128 = 1;
        let n: i32 = if e < 0 { 0 - e } else { e };
        let mut i: i32 = 0;
        proof {
            reveal_with_fuel(pow, 2);
        }
        while i < n
            invariant
                0 <= i <= n <= 37,
                power == pow(10, i as nat),
                0 < power,
                i <= 18 ==> power <= 1_000_000_000_000_000_000,
                power <= pow10_cap(i as nat),
            decreases n - i,
        {
            proof {
                reveal_with_fuel(pow, 2);
                lemma_pow10_cap(i as nat);
            }
            power = power * 10;
            i = i + 1;
        }
        if m == 0 {
            proof {
                lemma_zero_ratio(1);
                lemma_ratio_decreasing(0, 1);
                lemma_rounded(ratio(0, 1), 0);
                let p = pow(10, n as nat);
                lemma_zero_ratio(p);
                lemma_ratio_decreasing(0, p);
                lemma_rounded(ratio(0, p), 0);
                assert(0 * pow(10, n as nat) * pow2(1074) == 0 && 0 * pow2(1074) == 0) by (nonlinear_arith);
            }
            return assemble(false, 0);
        }
        let r: u64 = if e >= 0 {
            assert(m * power <= 0xffff_ffff_ffff_ffff * 1_000_000_000_000_000_000) by (nonlinear_arith)
                requires
                    m <= 0xffff_ffff_ffff_ffff,
                    power <= 1_000_000_000_000_000_000,
            ;
            assert(m * power > 0) by (nonlinear_arith)
                requires
                    m > 0,
                    power > 0,
            ;
            let q: u128 = (m as u128) * power;
            let ghost v = (q * pow2(1074)) as int;
            proof {
                lemma_ratio_decreasing(v, 1);
                assert(v < (q + 1) * pow2(1074)) by (nonlinear_arith)
                    requires
                        v == q * pow2(1074),
                        pow2(1074) > 0,
                ;
                lemma_located_whole(v, q as int, 1074, false);
            }
            let r: u64 = round_located(q, 1074, false, Ghost(ratio(v, 1)));
            proof {
                lemma_rounded(ratio(v, 1), r as nat);
            }
            r
        } else {
            proof {
                lemma_pow10_cap(n as nat);
            }
            let (q, k, sticky): (u128, i32, bool) = long_division(m as u128, power);
            let ghost gap = ratio((m * pow2(1074)) as int, power as int);
            proof {
                let rest = choose|rest: int|
                    0 <= rest < power && #[trigger] (q * power + rest) == m * pow2(k as nat) && (rest != 0) == sticky;
                lemma_located_quotient(m as int, 0, power as int, 0, q as int, rest, k as nat);
                assert((m * pow2(0)) * pow2(1074) == m * pow2(1074) && power * pow2(0) == power) by (nonlinear_arith)
                    requires
                        pow2(0) == 1,
                ;
                lemma_ratio_decreasing((m * pow2(1074)) as int, power as int);
            }
            let r: u64 = round_located(q, 1074 - k, sticky, Ghost(gap));
            proof {
                lemma_rounded(gap, r as nat);
            }
            r
        };
        assemble(false, r)
    }
}

/// The double nearest to `m * 10^e`: what a decimal literal denotes.
#[verifier::opaque]
pub open spec fn decimal(m: nat, e: int) -> F64 {
    signed(
        false,
        rounded(
            if e >= 0 {
                ratio(m * pow(10, e as nat) * pow2(1074), 1)
            } else {
                ratio((m * pow2(1074)) as int, pow(10, (-e) as nat))
            },
        ),
    )
}

/// `dec` in contracts.
pub open spec fn dec_spec(m: u64, places: u32) -> F64 {
    decimal(m as nat, -(places as int))
}

/// The double nearest to `m` with the decimal point moved `places` digits to the left.
#[verifier::when_used_as_spec(dec_spec)]
pub fn dec(m: u64, places: u32) -> (r: F64)
    requires
        places <= 37,
    ensures
        r == dec(m, places),
{
    F64::nearest_to_decimal(m, 0 - places as i32)
}

/// `big` in contracts.
pub open spec fn big_spec(m: u64, zeros: u32) -> F64 {
    decimal(m as nat, zeros as int)
}

/// The double nearest to `m` followed by this many decimal zeros.
#[verifier::when_used_as_spec(big_spec)]
pub fn big(m: u64, zeros: u32) -> (r: F64)
    requires
        zeros <= 18,
    ensures
        r == big(m, zeros),
{
    F64::nearest_to_decimal(m, zeros as i32)
}

/// `whole` in contracts.
pub open spec fn whole_spec(m: u64) -> F64 {
    decimal(m as nat, 0)
}

/// The double nearest to a whole number.
#[verifier::when_used_as_spec(whole_spec)]
pub fn whole(m: u64) -> (r: F64)
    ensures
        r == whole(m),
{
    F64::nearest_to_decimal(m, 0)
}

pub open spec fn zero_spec() -> F64 {
    F64 { bits: 0 }
}

/// Positive zero.
#[verifier::when_used_as_spec(zero_spec)]
pub fn zero() -> (r: F64)
    ensures
        r == zero(),
{
    F64 { bits: 0 }
}

pub open spec fn pi_spec() -> F64 {
    decimal(3_141_592_653_589_793, -15)
}

/// The double nearest to pi.
#[verifier::when_used_as_spec(pi_spec)]
pub fn pi() -> (r: F64)
    ensures
        r == pi(),
{
    F64::nearest_to_decimal(3_141_592_653_589_793, -15)
}

pub open spec fn tau_spec() -> F64 {
    decimal(6_283_185_307_179_586, -15)
}

/// The double nearest to two pi.
#[verifier::when_used_as_spec(tau_spec)]
pub fn tau() -> (r: F64)
    ensures
        r == tau(),
{
    F64::nearest_to_decimal(6_283_185_307_179_586, -15)
}

/// [`largest`] in contracts.
pub open spec fn largest_spec() -> F64 {
    F64 { bits: 0x7fef_ffff_ffff_ffff }
}

/// The greatest finite double.
#[verifier::when_used_as_spec(largest_spec)]
pub fn largest() -> (r: F64)
    ensures
        r == largest(),
{
    F64 { bits: 0x7fef_ffff_ffff_ffff }
}

/// [`given_or`] in contracts.
pub open spec fn given_or_spec(value: Option<F64>, default: F64) -> F64 {
    match value {
        Some(value) => value,
        None => default,
    }
}

/// An authored value, or its default.
#[verifier::when_used_as_spec(given_or_spec)]
pub fn given_or(value: Option<F64>, default: F64) -> (r: F64)
    ensures
        r == given_or(value, default),
{
    match value {
        Some(value) => value,
        None => default,
    }
}

/// Whether every value is finite.
pub open spec fn all_finite_in(values: Seq<F64>) -> bool {
    forall|i: int| 0 <= i < values.len() ==> #[trigger] values[i].is_finite()
}

/// Whether every value is finite.
pub fn all_finite(values: &Vec<F64>) -> (r: bool)
    ensures
        r == all_finite_in(values@),
{
    let mut i: usize = 0;
    while i < values.len()
        invariant
            i <= values@.len(),
            forall|k: int| 0 <= k < i ==> #[trigger] values@[k].is_finite(),
        decreases values@.len() - i,
    {
        if !values[i].is_finite() {
            return false;
        }
        i = i + 1;
    }
    true
}

/// A magnitude that a pattern stands for rounds to that pattern.
pub proof fn lemma_exact(m: nat)
    requires
        m < INF_BITS,
    ensures
        rounded(ratio(mag(m) as int, 1)) == m,
{
    let gap = ratio(mag(m) as int, 1);
    lemma_ratio_decreasing(mag(m) as int, 1);
    lemma_mag_increasing(m, m + 1);
    if m > 0 {
        lemma_mag_increasing((m - 1) as nat, m);
    }
    assert(nearest(gap, m));
    lemma_rounded(gap, m);
}

/// One is the double that it is, and lies above zero.
pub proof fn lemma_one()
    ensures
        whole(1) == (F64 { bits: 0x3ff0_0000_0000_0000 }),
        !whole(1).is_nan() && !zero().is_nan(),
        whole(1).is_finite() && zero().is_finite(),
        zero().units() == 0,
        whole(1).units() == pow2(1074),
        zero() < whole(1),
        zero() <= whole(1),
{
    reveal(decimal);
    reveal(F64::is_nan_spec);
    reveal(F64::is_finite_spec);
    reveal(F64::units);
    reveal_with_fuel(pow, 2);
    lemma_pow2_facts();
    lemma_pow2_adds(52, 1022);
    lemma_pow2_pos(1074);
    let m = 0x3ff0_0000_0000_0000nat;
    lemma_mag_scaled(HIDDEN as nat, 1022);
    assert(HIDDEN + 1022 * HIDDEN == m);
    assert(mag(m) == pow2(1074));
    lemma_exact(m);
    lemma_pow0(10);
    assert(1 * pow(10, 0) * pow2(1074) == pow2(1074)) by (nonlinear_arith)
        requires
            pow(10, 0) == 1,
    ;
    assert(mag(0) == 0);
}

/// A nearest pattern is the rounded one.
proof fn lemma_rounded(gap: spec_fn(int) -> int, m: nat)
    requires
        decreasing(gap),
        nearest(gap, m),
    ensures
        rounded(gap) == m,
{
    lemma_nearest_unique(gap, rounded(gap), m);
}

proof fn lemma_pow2_facts()
    ensures
        pow2(0) == 1,
        pow2(1) == 2,
        pow2(20) == 0x10_0000,
        pow2(52) == HIDDEN,
        pow2(53) == 2 * HIDDEN,
        pow2(54) == 4 * HIDDEN,
        pow2(56) == 16 * HIDDEN,
        pow2(127) == 0x8000_0000_0000_0000_0000_0000_0000_0000,
{
    lemma2_to64();
    lemma2_to64_rest();
    lemma_pow2_adds(64, 63);
}

/// The number with this sign and magnitude pattern.
fn assemble(negative: bool, m: u64) -> (r: F64)
    requires
        m <= NAN_BITS,
    ensures
        r == signed(negative, m as nat),
{
    if negative {
        F64 { bits: m + SIGN_BIT }
    } else {
        F64 { bits: m }
    }
}

/// Significand and scale of a finite pattern.
fn split(m: u64) -> (r: (u64, i32))
    requires
        m < INF_BITS,
    ensures
        r.0 < 2 * HIDDEN,
        0 <= r.1 <= 2045,
        r.1 == 0 || r.0 >= HIDDEN,
        mag(m as nat) == r.0 * pow2(r.1 as nat),
        r.0 == 0 <==> m == 0,
{
    proof {
        lemma_pow2_facts();
    }
    if m < HIDDEN {
        proof {
            lemma_mag_scaled(m as nat, 0);
        }
        (m, 0)
    } else {
        let e: u64 = m / HIDDEN;
        let f: u64 = m % HIDDEN;
        proof {
            assert(m == e * HIDDEN + f);
            lemma_mag_scaled((f + HIDDEN) as nat, (e - 1) as nat);
        }
        (f + HIDDEN, e as i32 - 1)
    }
}

/// The quotient of whole numbers with at least 55 significant bits: `t * 2^n`
/// is the first component times `d`, plus a remainder that vanishes unless flagged.
fn long_division(t: u128, d: u128) -> (r: (u128, i32, bool))
    requires
        0 < t < pow2(127),
        0 < d <= pow2(126),
    ensures
        0 < r.0 < pow2(127),
        r.2 ==> r.0 >= pow2(54),
        0 <= r.1 <= 200,
        exists|rest: int|
            0 <= rest < d && #[trigger] (r.0 * d + rest) == t * pow2(r.1 as nat) && (rest != 0) == r.2,
{
    let mut q: u128 = t / d;
    let mut rest: u128 = t % d;
    let mut n: i32 = 0;
    let enough: u128 = 0x40_0000_0000_0000;
    proof {
        lemma_pow2_facts();
        lemma_pow2_unfold(127);
        assert(t * pow2(0) == t) by (nonlinear_arith)
            requires
                pow2(0) == 1,
        ;
        assert(q * d + rest == t && q <= t) by (nonlinear_arith)
            requires
                q == t / d,
                rest == t % d,
                d > 0,
        ;
    }
    while q < enough
        invariant
            enough == pow2(54),
            enough == 0x40_0000_0000_0000,
            0 < t < pow2(127),
            0 < d <= pow2(126),
            pow2(127) == 2 * pow2(126),
            pow2(127) == 0x8000_0000_0000_0000_0000_0000_0000_0000,
            rest < d,
            q < pow2(127),
            0 <= n <= 200,
            q * d + rest == t * pow2(n as nat),
        decreases 201 - n,
    {
        proof {
            lemma_division_bound(t as int, d as int, q as int, rest as int, n as nat);
            lemma_pow2_unfold((n + 1) as nat);
            let p = pow2(n as nat) as int;
            assert(t * (2 * p) == 2 * (q * d + rest)) by (nonlinear_arith)
                requires
                    q * d + rest == t * p,
            ;
            assert((2 * q) * d + 2 * rest == 2 * (q * d + rest)) by (nonlinear_arith);
            assert((2 * q + 1) * d + (2 * rest - d) == 2 * (q * d + rest)) by (nonlinear_arith);
        }
        let twice: u128 = rest + rest;
        if twice >= d {
            q = q + q + 1;
            rest = twice - d;
        } else {
            q = q + q;
            rest = twice;
        }
        n = n + 1;
    }
    assert(q * d + rest == t * pow2(n as nat));
    (q, n, rest != 0)
}

proof fn lemma_division_bound(t: int, d: int, q: int, rest: int, n: nat)
    requires
        t >= 1,
        0 < d <= pow2(126),
        0 <= q < pow2(54),
        0 <= rest < d,
        q * d + rest == t * pow2(n),
    ensures
        n < 200,
{
    if n >= 200 {
        lemma_pow2_adds(54, 126);
        lemma_pow2_strictly_increases(180, 200);
        if n > 200 {
            lemma_pow2_strictly_increases(200, n);
        }
        let limit = pow2(54) as int;
        let big = pow2(126) as int;
        let p = pow2(n) as int;
        assert(q * d + rest < limit * big && p <= t * p) by (nonlinear_arith)
            requires
                0 <= q,
                q + 1 <= limit,
                0 <= rest < d,
                0 < d <= big,
                t >= 1,
                p >= 0,
        ;
    }
}

/// The integer square root.
fn integer_root(n: u128) -> (r: u128)
    requires
        n < pow2(112),
    ensures
        r * r <= n < (r + 1) * (r + 1),
        r < pow2(56),
{
    let mut low: u128 = 0;
    let mut step: u128 = 0x100_0000_0000_0000;
    proof {
        lemma_pow2_facts();
        lemma_pow2_adds(56, 56);
        assert(0 * 0 == 0);
        assert((low + step) * (low + step) == pow2(56) * pow2(56));
    }
    while step > 1
        invariant
            1 <= step,
            low + step <= 0x100_0000_0000_0000,
            low * low <= n < (low + step) * (low + step),
            step == 1 || step % 2 == 0,
            exists|b: nat| step == #[trigger] pow2(b),
        decreases step,
    {
        proof {
            let b = choose|b: nat| step == #[trigger] pow2(b);
            lemma_pow2_facts();
            if b == 0 {
            } else {
                lemma_pow2_unfold(b);
                assert(step == 2 * pow2((b - 1) as nat));
                if b > 1 {
                    lemma_pow2_unfold((b - 1) as nat);
                }
            }
        }
        step = step / 2;
        let middle: u128 = low + step;
        assert(middle * middle <= 0x100_0000_0000_0000 * 0x100_0000_0000_0000) by (nonlinear_arith)
            requires
                middle <= 0x100_0000_0000_0000,
        ;
        if middle * middle <= n {
            low = middle;
        }
    }
    proof {
        lemma_pow2_facts();
    }
    low
}

/// A bound on the powers of ten that literals use.
spec fn pow10_cap(i: nat) -> int {
    if i <= 18 { 1_000_000_000_000_000_000 } else { 10_000_000_000_000_000_000_000_000_000_000_000_000 }
}

proof fn lemma_pow10_cap(i: nat)
    requires
        i <= 37,
    ensures
        0 < pow(10, i) <= 0x4000_0000_0000_0000_0000_0000_0000_0000 == pow2(126),
        i < 18 ==> pow(10, i) <= 100_000_000_000_000_000,
        i < 37 ==> pow(10, i) <= 1_000_000_000_000_000_000_000_000_000_000_000_000,
        pow(10, i) <= pow10_cap(i),
{
    lemma_pow_positive(10, i);
    lemma_pow2_facts();
    lemma_pow2_unfold(127);
    reveal_with_fuel(pow, 40);
    if i < 37 {
        lemma_pow_increases(10, i, 36);
    }
    if i < 18 {
        lemma_pow_increases(10, i, 17);
    }
    lemma_pow_increases(10, i, 37);
}

impl PartialEq for F64 {
    fn eq(&self, other: &F64) -> (r: bool) {
        proof {
            lemma_units_order(*self, *other);
        }
        if self.is_nan() || other.is_nan() {
            false
        } else {
            let a: u64 = self.low_bits();
            let b: u64 = other.low_bits();
            a == b && (a == 0 || self.is_negative() == other.is_negative())
        }
    }
}

impl vstd::std_specs::cmp::PartialEqSpecImpl for F64 {
    open spec fn obeys_eq_spec() -> bool {
        true
    }

    open spec fn eq_spec(&self, other: &F64) -> bool {
        self.same_spec(*other)
    }
}

impl PartialOrd for F64 {
    fn partial_cmp(&self, other: &F64) -> (r: Option<Ordering>) {
        proof {
            lemma_units_order(*self, *other);
        }
        if self.is_nan() || other.is_nan() {
            return None;
        }
        let a: u64 = self.low_bits();
        let b: u64 = other.low_bits();
        if a == 0 && b == 0 {
            Some(Ordering::Equal)
        } else if self.is_negative() != other.is_negative() {
            if self.is_negative() {
                Some(Ordering::Less)
            } else {
                Some(Ordering::Greater)
            }
        } else if a == b {
            Some(Ordering::Equal)
        } else if (a < b) != self.is_negative() {
            Some(Ordering::Less)
        } else {
            Some(Ordering::Greater)
        }
    }
}

impl vstd::std_specs::cmp::PartialOrdSpecImpl for F64 {
    open spec fn obeys_partial_cmp_spec() -> bool {
        true
    }

    open spec fn partial_cmp_spec(&self, other: &F64) -> Option<Ordering> {
        if *self < *other {
            Some(Ordering::Less)
        } else if self.same_spec(*other) {
            Some(Ordering::Equal)
        } else if *self > *other {
            Some(Ordering::Greater)
        } else {
            None
        }
    }
}

/// Values are ordered as their patterns are.
proof fn lemma_units_order(a: F64, b: F64)
    ensures
        ({
            let (ma, mb) = (a.pattern(), b.pattern());
            &&& ma < mb ==> mag(ma) < mag(mb)
            &&& mb < ma ==> mag(mb) < mag(ma)
            &&& ma > 0 ==> mag(ma) > 0
            &&& mb > 0 ==> mag(mb) > 0
            &&& mag(0) == 0
            &&& a.units() == if a.negative() { -(mag(ma) as int) } else { mag(ma) as int }
            &&& b.units() == if b.negative() { -(mag(mb) as int) } else { mag(mb) as int }
        }),
{
    reveal(F64::units);
    let (ma, mb) = (a.pattern(), b.pattern());
    assert(mag(0) == 0);
    if ma < mb {
        lemma_mag_increasing(ma, mb);
    }
    if mb < ma {
        lemma_mag_increasing(mb, ma);
    }
    if ma > 0 {
        lemma_mag_increasing(0, ma);
    }
    if mb > 0 {
        lemma_mag_increasing(0, mb);
    }
}

impl std::ops::Neg for F64 {
    type Output = F64;

    fn neg(self) -> (r: F64) {
        if self.bits >= SIGN_BIT {
            F64 { bits: self.bits - SIGN_BIT }
        } else {
            F64 { bits: self.bits + SIGN_BIT }
        }
    }
}

impl vstd::std_specs::ops::NegSpecImpl for F64 {
    open spec fn obeys_neg_spec() -> bool {
        true
    }

    open spec fn neg_req(self) -> bool {
        true
    }

    open spec fn neg_spec(self) -> F64 {
        -self
    }
}

impl std::ops::Add for F64 {
    type Output = F64;

    fn add(self, other: F64) -> (r: F64) {
        proof {
            reveal(F64::spec_add);
        }
        let ma: u64 = self.low_bits();
        let mb: u64 = other.low_bits();
        let na: bool = self.is_negative();
        let nb: bool = other.is_negative();
        if ma > INF_BITS || mb > INF_BITS {
            return F64::nan();
        }
        if ma == INF_BITS {
            if mb == INF_BITS && na != nb {
                return F64::nan();
            }
            return self;
        }
        if mb == INF_BITS {
            return other;
        }
        proof {
            reveal(F64::units);
        }
        if ma >= mb {
            add_finite(na, ma, nb, mb)
        } else {
            add_finite(nb, mb, na, ma)
        }
    }
}

impl vstd::std_specs::ops::AddSpecImpl for F64 {
    open spec fn obeys_add_spec() -> bool {
        true
    }

    open spec fn add_req(self, other: F64) -> bool {
        true
    }

    open spec fn add_spec(self, other: F64) -> F64 {
        self + other
    }
}

spec fn with_sign(negative: bool, v: nat) -> int {
    if negative { -(v as int) } else { v as int }
}

/// Adds two finite numbers given by sign and pattern, the greater magnitude first.
fn add_finite(na: bool, ma: u64, nb: bool, mb: u64) -> (r: F64)
    requires
        mb <= ma < INF_BITS,
    ensures
        ({
            let total = with_sign(na, mag(ma as nat)) + with_sign(nb, mag(mb as nat));
            if total == 0 {
                r == signed(na && nb, 0)
            } else {
                r == signed(total < 0, rounded(ratio(if total < 0 { -total } else { total }, 1)))
            }
        }),
{
    let (ta, ja): (u64, i32) = split(ma);
    let (tb, jb): (u64, i32) = split(mb);
    let ghost va = mag(ma as nat) as int;
    let ghost vb = mag(mb as nat) as int;
    let ghost v = if na == nb { va + vb } else { va - vb };
    proof {
        lemma_pow2_facts();
        lemma_mag_not_less(ma as nat, mb as nat);
        lemma_scales_ordered(ma, mb, ta as nat, ja as nat, tb as nat, jb as nat);
        lemma_ratio_decreasing(v, 1);
    }
    if ja - jb <= 73 {
        let p: u128 = two_to((ja - jb) as u32);
        proof {
            let diff = (ja - jb) as nat;
            if diff < 73 {
                lemma_pow2_strictly_increases(diff, 73);
            }
            lemma_pow2_adds(53, 73);
            lemma_pow2_unfold(127);
            assert(ta * p <= pow2(53) * pow2(73)) by (nonlinear_arith)
                requires
                    ta <= pow2(53),
                    p <= pow2(73),
            ;
            lemma_pow2_adds(diff, jb as nat);
            let pa = pow2(ja as nat) as int;
            let pb = pow2(jb as nat) as int;
            assert(va == (ta * p) * pb) by (nonlinear_arith)
                requires
                    va == ta * pa,
                    pa == p * pb,
            ;
        }
        let x: u128 = (ta as u128) * p;
        let y: u128 = tb as u128;
        proof {
            let pb = pow2(jb as nat) as int;
            lemma_pow2_pos(jb as nat);
            assert(x >= y) by (nonlinear_arith)
                requires
                    va == x * pb,
                    vb == y * pb,
                    va >= vb,
                    pb > 0,
            ;
            assert((x + y) * pb == x * pb + y * pb && (x - y) * pb == x * pb - y * pb) by (nonlinear_arith);
        }
        let q: u128 = if na == nb { x + y } else { x - y };
        if q == 0 {
            assert(v == 0) by (nonlinear_arith)
                requires
                    v == q * pow2(jb as nat),
                    q == 0,
            ;
            return assemble(na && nb, 0);
        }
        proof {
            let pb = pow2(jb as nat) as int;
            assert(v == q * pb);
            assert(v < (q + 1) * pb && v > 0) by (nonlinear_arith)
                requires
                    v == q * pb,
                    pb > 0,
                    q > 0,
            ;
            lemma_located_whole(v, q as int, jb as nat, false);
        }
        let r: u64 = round_located(q, jb, false, Ghost(ratio(v, 1)));
        proof {
            lemma_rounded(ratio(v, 1), r as nat);
        }
        assemble(na, r)
    } else {
        let x: u128 = (ta as u128) * 0x10_0000;
        let k: i32 = ja - 20;
        proof {
            lemma_pow2_adds(20, k as nat);
            let pa = pow2(ja as nat) as int;
            let pk = pow2(k as nat) as int;
            assert(va == x * pk) by (nonlinear_arith)
                requires
                    va == ta * pa,
                    pa == 0x10_0000 * pk,
                    x == ta * 0x10_0000,
            ;
            lemma_pow2_adds(53, jb as nat);
            lemma_pow2_strictly_increases((53 + jb) as nat, k as nat);
            let pb = pow2(jb as nat) as int;
            lemma_pow2_pos(jb as nat);
            assert(0 <= vb < pk) by (nonlinear_arith)
                requires
                    vb == tb * pb,
                    0 <= tb < pow2(53),
                    pow2(53) * pb < pk,
                    pb > 0,
            ;
            assert(vb == 0 <==> tb == 0) by (nonlinear_arith)
                requires
                    vb == tb * pb,
                    pb > 0,
                    tb >= 0,
            ;
            assert((x + 1) * pk == x * pk + pk && (x - 1) * pk == x * pk - pk && (x - 1 + 1) * pk == x * pk) by (nonlinear_arith);
            assert(va >= pk) by (nonlinear_arith)
                requires
                    va == x * pk,
                    x >= 1,
                    pk >= 0,
            ;
        }
        let sticky: bool = tb != 0;
        let q: u128 = if sticky && na != nb { x - 1 } else { x };
        proof {
            lemma_located_whole(v, q as int, k as nat, sticky);
        }
        let r: u64 = round_located(q, k, sticky, Ghost(ratio(v, 1)));
        proof {
            lemma_rounded(ratio(v, 1), r as nat);
        }
        assemble(na, r)
    }
}

proof fn lemma_mag_not_less(a: nat, b: nat)
    requires
        b <= a,
    ensures
        mag(b) <= mag(a),
{
    if b < a {
        lemma_mag_increasing(b, a);
    }
}

/// The greater pattern has at least the scale of the lesser.
proof fn lemma_scales_ordered(ma: u64, mb: u64, ta: nat, ja: nat, tb: nat, jb: nat)
    requires
        mb <= ma,
        mag(ma as nat) == ta * pow2(ja),
        mag(mb as nat) == tb * pow2(jb),
        ta < 2 * HIDDEN,
        jb == 0 || tb >= HIDDEN,
    ensures
        ja >= jb,
{
    if ja < jb {
        lemma_mag_not_less(ma as nat, mb as nat);
        lemma_pow2_unfold((ja + 1) as nat);
        if ja + 1 < jb {
            lemma_pow2_strictly_increases(ja + 1, jb);
        }
        let pa = pow2(ja) as int;
        let pb = pow2(jb) as int;
        lemma_pow2_pos(ja);
        assert(tb * pb > ta * pa) by (nonlinear_arith)
            requires
                pb >= 2 * pa,
                tb >= HIDDEN,
                ta < 2 * HIDDEN,
                pa > 0,
        ;
    }
}

impl std::ops::Sub for F64 {
    type Output = F64;

    fn sub(self, other: F64) -> (r: F64) {
        self + std::ops::Neg::neg(other)
    }
}

impl vstd::std_specs::ops::SubSpecImpl for F64 {
    open spec fn obeys_sub_spec() -> bool {
        true
    }

    open spec fn sub_req(self, other: F64) -> bool {
        true
    }

    open spec fn sub_spec(self, other: F64) -> F64 {
        self - other
    }
}

impl std::ops::Mul for F64 {
    type Output = F64;

    fn mul(self, other: F64) -> (r: F64) {
        proof {
            reveal(F64::spec_mul);
        }
        let ma: u64 = self.low_bits();
        let mb: u64 = other.low_bits();
        let negative: bool = self.is_negative() != other.is_negative();
        if ma > INF_BITS || mb > INF_BITS {
            return F64::nan();
        }
        if ma == INF_BITS || mb == INF_BITS {
            if ma == 0 || mb == 0 {
                return F64::nan();
            }
            return assemble(negative, INF_BITS);
        }
        let (ta, ja): (u64, i32) = split(ma);
        let (tb, jb): (u64, i32) = split(mb);
        let ghost gap = ratio((mag(ma as nat) * mag(mb as nat)) as int, pow2(1074) as int);
        proof {
            lemma_pow2_pos(1074);
            lemma_ratio_decreasing((mag(ma as nat) * mag(mb as nat)) as int, pow2(1074) as int);
            lemma_located_product(ta as int, ja as nat, tb as int, jb as nat);
            lemma_pow2_facts();
            assert(ta * tb < 4 * HIDDEN * HIDDEN) by (nonlinear_arith)
                requires
                    ta < 2 * HIDDEN,
                    tb < 2 * HIDDEN,
            ;
        }
        let q: u128 = (ta as u128) * (tb as u128);
        if q == 0 {
            proof {
                assert(mag(ma as nat) * mag(mb as nat) == 0) by (nonlinear_arith)
                    requires
                        mag(ma as nat) == ta * pow2(ja as nat),
                        mag(mb as nat) == tb * pow2(jb as nat),
                        ta * tb == 0,
                ;
                lemma_zero_ratio(pow2(1074) as int);
                lemma_rounded(gap, 0);
            }
            return assemble(negative, 0);
        }
        let r: u64 = round_located(q, ja + jb - 1074, false, Ghost(gap));
        proof {
            lemma_rounded(gap, r as nat);
        }
        assemble(negative, r)
    }
}

impl vstd::std_specs::ops::MulSpecImpl for F64 {
    open spec fn obeys_mul_spec() -> bool {
        true
    }

    open spec fn mul_req(self, other: F64) -> bool {
        true
    }

    open spec fn mul_spec(self, other: F64) -> F64 {
        self * other
    }
}

impl std::ops::Div for F64 {
    type Output = F64;

    fn div(self, other: F64) -> (r: F64) {
        proof {
            reveal(F64::quotient);
        }
        let ma: u64 = self.low_bits();
        let mb: u64 = other.low_bits();
        let negative: bool = self.is_negative() != other.is_negative();
        if ma > INF_BITS || mb > INF_BITS {
            return F64::nan();
        }
        if ma == INF_BITS {
            if mb == INF_BITS {
                return F64::nan();
            }
            return assemble(negative, INF_BITS);
        }
        if mb == INF_BITS {
            return assemble(negative, 0);
        }
        if mb == 0 {
            if ma == 0 {
                return F64::nan();
            }
            return assemble(negative, INF_BITS);
        }
        let (ta, ja): (u64, i32) = split(ma);
        let (tb, jb): (u64, i32) = split(mb);
        let ghost num = (mag(ma as nat) * pow2(1074)) as int;
        let ghost den = mag(mb as nat) as int;
        proof {
            lemma_pow2_facts();
            lemma_pow2_unfold(127);
            lemma_mag_increasing(0, mb as nat);
            lemma_ratio_decreasing(num, den);
        }
        if ta == 0 {
            proof {
                assert(num == 0) by (nonlinear_arith)
                    requires
                        num == (ta * pow2(ja as nat)) * pow2(1074),
                        ta == 0,
                ;
                lemma_zero_ratio(den);
                lemma_rounded(ratio(num, den), 0);
            }
            return assemble(negative, 0);
        }
        let (q, n, sticky): (u128, i32, bool) = long_division(ta as u128, tb as u128);
        proof {
            let rest = choose|rest: int|
                0 <= rest < tb && #[trigger] (q * tb + rest) == ta * pow2(n as nat) && (rest != 0) == sticky;
            lemma_located_quotient(ta as int, ja as nat, tb as int, jb as nat, q as int, rest, n as nat);
        }
        let r: u64 = round_located(q, ja + 1074 - jb - n, sticky, Ghost(ratio(num, den)));
        proof {
            lemma_rounded(ratio(num, den), r as nat);
        }
        assemble(negative, r)
    }
}

impl vstd::std_specs::ops::DivSpecImpl for F64 {
    open spec fn obeys_div_spec() -> bool {
        true
    }

    open spec fn div_req(self, other: F64) -> bool {
        true
    }

    open spec fn div_spec(self, other: F64) -> F64 {
        self / other
    }
}

} // verus!
