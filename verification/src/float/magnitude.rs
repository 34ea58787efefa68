//! What a binary64 magnitude pattern stands for.
//!
//! Every finite binary64 magnitude is a whole multiple of 2^-1074, so a
//! magnitude pattern (the 63 bits below the sign) denotes a natural number of
//! such units. The pattern of infinity denotes what the next binade would hold,
//! which is exactly the threshold that IEEE 754 rounds to infinity against.
use vstd::arithmetic::power2::{lemma2_to64, lemma_pow2_pos, lemma_pow2_unfold, pow2};
use vstd::prelude::*;

verus! {

/// The magnitude pattern of infinity.
pub const INF_BITS: u64 = 0x7ff0_0000_0000_0000;

/// The weight of the hidden bit, and the step between two exponents in a pattern.
pub const HIDDEN: u64 = 0x10_0000_0000_0000;

/// Units of 2^-1074 that a magnitude pattern stands for.
pub open spec fn mag(m: nat) -> nat {
    if m < HIDDEN {
        m
    } else {
        ((HIDDEN + m % (HIDDEN as nat)) * pow2((m / (HIDDEN as nat) - 1) as nat)) as nat
    }
}

/// A significand `t` scaled by 2^`j` has the pattern `t + j * HIDDEN`.
pub proof fn lemma_mag_scaled(t: nat, j: nat)
    requires
        t <= 2 * HIDDEN,
        j == 0 || t >= HIDDEN,
    ensures
        mag((t + j * HIDDEN) as nat) == t * pow2(j),
{
    let h = HIDDEN as nat;
    let m = (t + j * h) as nat;
    lemma2_to64();
    if t < h {
        assert(m == t);
        assert(t * pow2(0) == t) by (nonlinear_arith)
            requires
                pow2(0) == 1,
        ;
    } else if t < 2 * h {
        assert(m == (j + 1) * h + (t - h)) by (nonlinear_arith)
            requires
                m == t + j * h,
        ;
        assert(m / h == j + 1 && m % h == t - h) by (nonlinear_arith)
            requires
                m == (j + 1) * h + (t - h),
                0 <= t - h < h,
        ;
        assert(m >= h) by (nonlinear_arith)
            requires
                m == t + j * h,
                t >= h,
        ;
    } else {
        assert(m == (j + 2) * h) by (nonlinear_arith)
            requires
                m == t + j * h,
                t == 2 * h,
        ;
        assert(m / h == j + 2 && m % h == 0) by (nonlinear_arith)
            requires
                m == (j + 2) * h,
                h > 0,
        ;
        assert(m >= h) by (nonlinear_arith)
            requires
                m == t + j * h,
                t >= h,
        ;
        lemma_pow2_unfold(j + 1);
        assert(h * (2 * pow2(j)) == (2 * h) * pow2(j)) by (nonlinear_arith);
    }
}

/// Every pattern has a significand and a scale.
pub proof fn lemma_mag_split(m: nat) -> (r: (nat, nat))
    ensures
        r.0 < 2 * HIDDEN,
        r.1 == 0 || r.0 >= HIDDEN,
        m == r.0 + r.1 * HIDDEN,
        mag(m) == r.0 * pow2(r.1),
{
    let h = HIDDEN as nat;
    if m < h {
        lemma_mag_scaled(m, 0);
        (m, 0)
    } else {
        let j = (m / h - 1) as nat;
        let t = (h + m % h) as nat;
        assert(m == t + j * h) by (nonlinear_arith)
            requires
                j == m / h - 1,
                t == h + m % h,
                h > 0,
        ;
        lemma_mag_scaled(t, j);
        (t, j)
    }
}

pub proof fn lemma_mag_step(m: nat)
    ensures
        mag(m) < mag(m + 1),
{
    let (t, j) = lemma_mag_split(m);
    lemma_mag_scaled(t + 1, j);
    lemma_pow2_pos(j);
    assert((t + 1) * pow2(j) == t * pow2(j) + pow2(j)) by (nonlinear_arith);
}

/// A greater pattern stands for a greater magnitude.
pub proof fn lemma_mag_increasing(a: nat, b: nat)
    requires
        a < b,
    ensures
        mag(a) < mag(b),
    decreases b - a,
{
    lemma_mag_step(a);
    if a + 1 < b {
        lemma_mag_increasing(a + 1, b);
    }
}

} // verus!
