//! Where exact sums, products, quotients and square roots lie.
use super::magnitude::mag;
use super::rounding::{decreasing, located, nearest, pinned};
use vstd::arithmetic::power2::{lemma2_to64, lemma_pow2_adds, lemma_pow2_pos, pow2};
use vstd::prelude::*;

verus! {

/// The gap of the magnitude `num / den`.
pub open spec fn ratio(num: int, den: int) -> spec_fn(int) -> int {
    |c: int| 2 * num - c * den
}

/// The gap of the square root of `n`.
pub open spec fn root(n: int) -> spec_fn(int) -> int {
    |c: int| 4 * n - c * c
}

pub proof fn lemma_ratio_decreasing(num: int, den: int)
    requires
        den > 0,
    ensures
        decreasing(ratio(num, den)),
{
    let gap = ratio(num, den);
    assert forall|a: int, b: int| 0 <= a < b implies #[trigger] gap(a) > #[trigger] gap(b) by {
        assert(a * den < b * den) by (nonlinear_arith)
            requires
                a < b,
                den > 0,
        ;
    }
}

pub proof fn lemma_root_decreasing(n: int)
    ensures
        decreasing(root(n)),
{
    let gap = root(n);
    assert forall|a: int, b: int| 0 <= a < b implies #[trigger] gap(a) > #[trigger] gap(b) by {
        assert(a * a < b * b) by (nonlinear_arith)
            requires
                0 <= a < b,
        ;
    }
}

/// Nothing rounds to zero but what is at most half a unit; zero itself does.
pub proof fn lemma_zero_ratio(den: int)
    requires
        den > 0,
    ensures
        nearest(ratio(0, den), 0),
{
    assert(mag(0) == 0 && mag(1) == 1);
    assert(1 * den > 0) by (nonlinear_arith)
        requires
            den > 0,
    ;
}

pub proof fn lemma_located_ratio(num: int, den: int, q: int, k: int, sticky: bool)
    requires
        den > 0,
        ({
            let a = pow2((if k < 0 { -k } else { 0 }) as nat) as int;
            let b = pow2((if k < 0 { 0 } else { k }) as nat) as int;
            &&& if sticky { q * b * den < num * a } else { q * b * den == num * a }
            &&& num * a < (q + 1) * b * den
        }),
    ensures
        located(ratio(num, den), q, k, sticky),
{
    let gap = ratio(num, den);
    let a = pow2((if k < 0 { -k } else { 0 }) as nat) as int;
    let b = pow2((if k < 0 { 0 } else { k }) as nat) as int;
    lemma2_to64();
    lemma_pow2_pos((if k < 0 { -k } else { 0 }) as nat);
    lemma_pow2_pos((if k < 0 { 0 } else { k }) as nat);
    let low = 2 * q * b;
    let high = 2 * (q + 1) * b;
    assert forall|c: int| 0 <= c implies {
        let g = #[trigger] gap(c);
        &&& c * a < low ==> g > 0
        &&& c * a == low ==> (if sticky { g > 0 } else { g == 0 })
        &&& (c * a > low && (!sticky || c * a >= high)) ==> g < 0
    } by {
        let g = gap(c);
        assert(g * a == 2 * (num * a) - (c * a) * den) by (nonlinear_arith)
            requires
                g == 2 * num - c * den,
        ;
        assert(low * den == 2 * (q * b * den)) by (nonlinear_arith)
            requires
                low == 2 * q * b,
        ;
        assert(high * den == 2 * ((q + 1) * b * den)) by (nonlinear_arith)
            requires
                high == 2 * (q + 1) * b,
        ;
        lemma_order_scaled(c * a, low, den);
        lemma_order_scaled(c * a, high, den);
        lemma_order_scaled(g, 0, a);
    }
    assert(pinned(gap, a, low, high, sticky));
    assert(2 * q * 1 == 2 * q && 2 * (q + 1) * 1 == 2 * (q + 1));
}

proof fn lemma_order_scaled(x: int, y: int, b: int)
    requires
        b > 0,
    ensures
        x < y <==> x * b < y * b,
        x == y <==> x * b == y * b,
        x > y <==> x * b > y * b,
        x >= y <==> x * b >= y * b,
{
    assert(x < y ==> x * b < y * b) by (nonlinear_arith)
        requires
            b > 0,
    ;
    assert(x > y ==> x * b > y * b) by (nonlinear_arith)
        requires
            b > 0,
    ;
}

/// A whole number of units given by its leading part.
pub proof fn lemma_located_whole(v: int, q: int, k: nat, sticky: bool)
    requires
        if sticky { q * pow2(k) < v } else { q * pow2(k) == v },
        v < (q + 1) * pow2(k),
    ensures
        located(ratio(v, 1), q, k as int, sticky),
{
    lemma2_to64();
    assert(q * pow2(k) * 1 == q * pow2(k) && (q + 1) * pow2(k) * 1 == (q + 1) * pow2(k));
    assert(v * pow2(0) == v);
    lemma_located_ratio(v, 1, q, k as int, sticky);
}

/// Where the product of two scaled significands lies.
pub proof fn lemma_located_product(ta: int, ja: nat, tb: int, jb: nat)
    requires
        ta >= 0,
        tb >= 0,
    ensures
        located(
            ratio((ta * pow2(ja)) * (tb * pow2(jb)), pow2(1074) as int),
            ta * tb,
            ja + jb - 1074,
            false,
        ),
{
    let k = ja + jb - 1074;
    let q = ta * tb;
    let num = (ta * pow2(ja)) * (tb * pow2(jb));
    let den = pow2(1074) as int;
    let e = pow2(ja + jb) as int;
    lemma2_to64();
    lemma_pow2_adds(ja, jb);
    lemma_pow2_pos(1074);
    assert(num == q * e) by (nonlinear_arith)
        requires
            num == (ta * pow2(ja)) * (tb * pow2(jb)),
            q == ta * tb,
            e == pow2(ja) * pow2(jb),
    ;
    let a = pow2((if k < 0 { -k } else { 0 }) as nat) as int;
    let b = pow2((if k < 0 { 0 } else { k }) as nat) as int;
    if k >= 0 {
        lemma_pow2_adds(k as nat, 1074);
    } else {
        lemma_pow2_adds(ja + jb, (-k) as nat);
    }
    assert(e * a == b * den);
    lemma_pow2_pos((if k < 0 { 0 } else { k }) as nat);
    assert(q * b * den == num * a && num * a < (q + 1) * b * den) by (nonlinear_arith)
        requires
            num == q * e,
            e * a == b * den,
            b > 0,
            den > 0,
    ;
    lemma_located_ratio(num, den, q, k, false);
}

/// Where a quotient lies, from a long division carried `n` bits past the point.
pub proof fn lemma_located_quotient(t: int, ja: nat, d: int, jb: nat, q: int, r: int, n: nat)
    requires
        t >= 0,
        d > 0,
        0 <= r < d,
        t * pow2(n) == q * d + r,
    ensures
        located(
            ratio((t * pow2(ja)) * pow2(1074), d * pow2(jb)),
            q,
            ja + 1074 - jb - n,
            r != 0,
        ),
        d * pow2(jb) > 0,
{
    let k = ja + 1074 - jb - n;
    let num = (t * pow2(ja)) * pow2(1074);
    let den = d * pow2(jb);
    let a = pow2((if k < 0 { -k } else { 0 }) as nat) as int;
    let b = pow2((if k < 0 { 0 } else { k }) as nat) as int;
    let e = pow2(ja + 1074) as int;
    let pj = pow2(jb) as int;
    let pn = pow2(n) as int;
    lemma2_to64();
    lemma_pow2_pos(jb);
    lemma_pow2_pos(n);
    lemma_pow2_pos((if k < 0 { 0 } else { k }) as nat);
    lemma_pow2_adds(ja, 1074);
    lemma_pow2_adds(jb, n);
    let f = pow2(jb + n) as int;
    if k >= 0 {
        lemma_pow2_adds(jb + n, k as nat);
        assert(jb + n + k as nat == ja + 1074);
        assert(e == f * b);
        assert(e * a == f * b) by (nonlinear_arith)
            requires
                e == f * b,
                a == 1,
        ;
    } else {
        lemma_pow2_adds(ja + 1074, (-k) as nat);
        assert(ja + 1074 + (-k) as nat == jb + n);
        assert(f == e * a);
        assert(e * a == f * b) by (nonlinear_arith)
            requires
                f == e * a,
                b == 1,
        ;
    }
    assert(num == t * e) by (nonlinear_arith)
        requires
            num == (t * pow2(ja)) * pow2(1074),
            e == pow2(ja) * pow2(1074),
    ;
    assert(num * a == (q * d + r) * (pj * b)) by (nonlinear_arith)
        requires
            num == t * e,
            e * a == f * b,
            f == pj * pn,
            t * pn == q * d + r,
    ;
    let w = pj * b;
    assert(w > 0) by (nonlinear_arith)
        requires
            w == pj * b,
            pj > 0,
            b > 0,
    ;
    assert(q * b * den == (q * d) * w && (q + 1) * b * den == (q * d + d) * w) by (nonlinear_arith)
        requires
            den == d * pj,
            w == pj * b,
    ;
    assert((q * d + r) * w == (q * d) * w + r * w && (q * d + d) * w == (q * d) * w + d * w) by (nonlinear_arith);
    lemma_order_scaled(r, d, w);
    lemma_order_scaled(0, r, w);
    assert(den > 0) by (nonlinear_arith)
        requires
            den == d * pj,
            d > 0,
            pj > 0,
    ;
    lemma_located_ratio(num, den, q, k, r != 0);
}

/// Where a square root lies, from the integer square root `q` of `n`.
pub proof fn lemma_located_root(n: int, h: nat, q: int)
    requires
        q >= 0,
        q * q <= n < (q + 1) * (q + 1),
    ensures
        located(root(n * pow2(2 * h)), q, h as int, q * q != n),
{
    let p = pow2(h) as int;
    let whole = n * pow2(2 * h);
    let gap = root(whole);
    let sticky = q * q != n;
    lemma_pow2_pos(h);
    lemma_pow2_adds(h, h);
    assert(h + h == 2 * h);
    let low = 2 * q * p;
    let high = 2 * (q + 1) * p;
    assert(whole == n * (p * p));
    assert(p * p > 0) by (nonlinear_arith)
        requires
            p > 0,
    ;
    assert(low * low == 4 * ((q * q) * (p * p)) && high * high == 4 * (((q + 1) * (q + 1)) * (p * p))) by (nonlinear_arith)
        requires
            low == 2 * q * p,
            high == 2 * (q + 1) * p,
    ;
    lemma_order_scaled(q * q, n, p * p);
    lemma_order_scaled(n, (q + 1) * (q + 1), p * p);
    assert(low >= 0 && high > 0) by (nonlinear_arith)
        requires
            low == 2 * q * p,
            high == 2 * (q + 1) * p,
            q >= 0,
            p > 0,
    ;
    assert forall|c: int| 0 <= c implies {
        let g = #[trigger] gap(c);
        &&& c * 1 < low ==> g > 0
        &&& c * 1 == low ==> (if sticky { g > 0 } else { g == 0 })
        &&& (c * 1 > low && (!sticky || c * 1 >= high)) ==> g < 0
    } by {
        assert(c < low ==> c * c < low * low) by (nonlinear_arith)
            requires
                0 <= c,
        ;
        assert(c > low ==> c * c > low * low) by (nonlinear_arith)
            requires
                0 <= low,
        ;
        assert(c >= high ==> c * c >= high * high) by (nonlinear_arith)
            requires
                0 <= high,
        ;
    }
    assert(pinned(gap, 1, low, high, sticky));
}

} // verus!
