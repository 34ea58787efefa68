//! How far a chain of operations strays from the exact calculation it stands for.
use super::accuracy::{
    about, amount, lemma_about_chain, lemma_about_more, lemma_about_product, lemma_about_quotient, lemma_about_same,
    lemma_about_sum, lemma_amount, lemma_normal, lemma_normal_sum, lemma_over, lemma_product_about,
    lemma_quotient_about, lemma_real_product, lemma_sqrt_about, lemma_sum_about, lemma_times_adds, lemma_times_one,
    lemma_times_unique, lemma_unit_value, lemma_value_negated, normal, over, times, value,
};
use super::{dec, whole, F64};
use super::decimals::{lemma_half, lemma_whole};
use super::errors::{
    allowance, close, lemma_allowance, lemma_difference_close, lemma_product_close, lemma_quotient_close,
    lemma_sum_close, lemma_within_more, lemma_within_rounded, lemma_within_same, lemma_within_sum, precise, size,
    within,
};
use super::exact::lemma_mul_negated;
use super::magnitude::HIDDEN;
use super::nearness::lemma_parts;
use super::order::lemma_negate;
use super::range::lemma_sized;
use vstd::arithmetic::power2::{lemma2_to64, lemma_pow2_adds, lemma_pow2_pos, pow2};
use vstd::prelude::*;

verus! {

/// A finite number that strays from `exact` by no more than `k` roundings of `scale`.
pub open spec fn tracks(x: F64, exact: real, scale: real, k: nat) -> bool {
    x.is_finite() && within(value(x), exact, scale, k)
}

/// A product that loses nothing to underflow or overflow.
pub open spec fn unlost(a: F64, b: F64) -> bool {
    precise(a * b) || a.units() == 0 || b.units() == 0
}

/// The greater of two counts.
pub open spec fn most(k: nat, m: nat) -> nat {
    if k < m {
        m
    } else {
        k
    }
}

/// A finite number is its own value.
pub proof fn lemma_tracks_itself(x: F64)
    requires
        x.is_finite(),
    ensures
        tracks(x, value(x), size(value(x)), 0),
{
    lemma_within_same(value(x), size(value(x)));
}

/// A whole number is worth itself.
pub proof fn lemma_whole_value(m: u64)
    requires
        m < 2 * HIDDEN,
    ensures
        value(whole(m)) == m as real,
        whole(m).is_finite(),
        tracks(whole(m), m as real, m as real, 0),
        m > 0 ==> amount(whole(m)),
{
    lemma_whole(m);
    lemma_parts(whole(m));
    lemma_pow2_pos(1074);
    if m > 0 {
        assert(m * pow2(1074) > 0) by (nonlinear_arith)
            requires
                m > 0,
                pow2(1074) > 0,
        ;
    }
    lemma_unit_value(whole(m));
    let unit = pow2(1074) as real;
    assert(times(m as real, unit) == (m * pow2(1074)) as real) by {
        reveal(times);
        lemma_real_product(m as int, pow2(1074) as int);
    }
    lemma_times_unique(value(whole(m)), m as real, unit);
    lemma_tracks_itself(whole(m));
}

/// A sum and a difference stray by four roundings more.
pub proof fn lemma_tracks_sum(a: F64, b: F64, x: real, y: real, s: real, t: real, k: nat, m: nat)
    requires
        tracks(a, x, s, k),
        tracks(b, y, t, m),
        k <= 1000,
        m <= 1000,
    ensures
        (a + b).is_finite() ==> tracks(a + b, x + y, s + t, most(k, m) + 4),
        (a - b).is_finite() ==> tracks(a - b, x - y, s + t, most(k, m) + 4),
{
    let n = most(k, m);
    lemma_within_more(value(a), x, s, k, s, n);
    lemma_within_more(value(b), y, t, m, t, n);
    lemma_within_sum(value(a), x, value(b), y, s, t, n);
    if (a + b).is_finite() {
        lemma_sum_close(a, b);
        lemma_within_rounded(value(a + b), value(a) + value(b), x + y, s + t, n);
    }
    if (a - b).is_finite() {
        lemma_difference_close(a, b);
        lemma_within_rounded(value(a - b), value(a) - value(b), x - y, s + t, n);
    }
}

/// A product of numbers of any sign is close to the exact one.
pub proof fn lemma_product_closes(a: F64, b: F64)
    requires
        a.is_finite(),
        b.is_finite(),
        unlost(a, b),
    ensures
        close(value(a * b), times(value(a), value(b))),
        (a * b).is_finite(),
{
    if b.negative() {
        lemma_negate(a);
        lemma_negate(b);
        lemma_mul_negated(a, b);
        lemma_value_negated(a);
        lemma_value_negated(b);
        lemma_product_close(a.negate(), b.negate());
        assert(times(-value(a), -value(b)) == times(value(a), value(b))) by {
            reveal(times);
            let (x, y) = (value(a), value(b));
            assert((-x) * (-y) == x * y) by (nonlinear_arith);
        }
    } else {
        lemma_product_close(a, b);
    }
}

/// A product of two numbers strays by four roundings.
pub proof fn lemma_tracks_exact_product(a: F64, b: F64)
    requires
        a.is_finite(),
        b.is_finite(),
        unlost(a, b),
    ensures
        tracks(a * b, times(value(a), value(b)), size(times(value(a), value(b))), 4),
{
    let exact = times(value(a), value(b));
    lemma_product_closes(a, b);
    lemma_within_same(exact, size(exact));
    lemma_within_rounded(value(a * b), exact, exact, size(exact), 0);
}

/// The exact product of numbers that stray.
proof fn lemma_strayed_product(v: real, w: real, x: real, y: real, s: real, t: real, k: nat, m: nat)
    requires
        within(v, x, s, k),
        within(w, y, t, m),
        k <= 1000,
        m <= 1000,
    ensures
        within(times(v, w), times(x, y), times(s, t), 2 * k + m),
{
    let (p, q) = (allowance(k), allowance(m));
    lemma_allowance(k, k);
    lemma_allowance(k + k, m);
    lemma_allowance(m, 0);
    assert(allowance(2 * k + m) == p + p + q);
    reveal(times);
    assert(size(v * w - x * y) <= (s * t) * (p + p + q)) by (nonlinear_arith)
        requires
            -(s * p) <= v - x <= s * p,
            -(t * q) <= w - y <= t * q,
            -s <= x <= s,
            -t <= y <= t,
            s >= (0 as real),
            t >= (0 as real),
            (0 as real) <= p <= (1 as real),
            (0 as real) <= q <= (1 as real),
            size(v * w - x * y) == v * w - x * y || size(v * w - x * y) == x * y - v * w,
    {
        let (d, e) = (v - x, w - y);
        // v w - x y == d y + x e + d e
        assert(v * w - x * y == d * y + x * e + d * e);
        assert(-(s * p) * t <= d * y <= (s * p) * t);
        assert(-s * (t * q) <= x * e <= s * (t * q));
        assert(-(s * p) * (t * q) <= d * e <= (s * p) * (t * q));
        assert((s * p) * (t * q) <= (s * p) * t);
        assert((s * t) * (p + p + q) == (s * p) * t + (s * p) * t + s * (t * q));
    }
    assert(size(x * y) <= s * t) by (nonlinear_arith)
        requires
            -s <= x <= s,
            -t <= y <= t,
            size(x * y) == x * y || size(x * y) == -(x * y),
    ;
}

/// A product strays by what its factors do, and four roundings more.
pub proof fn lemma_tracks_product(a: F64, b: F64, x: real, y: real, s: real, t: real, k: nat, m: nat)
    requires
        tracks(a, x, s, k),
        tracks(b, y, t, m),
        unlost(a, b),
        k <= 300,
        m <= 300,
    ensures
        tracks(a * b, times(x, y), times(s, t), 2 * k + m + 4),
{
    lemma_product_closes(a, b);
    lemma_strayed_product(value(a), value(b), x, y, s, t, k, m);
    lemma_within_rounded(value(a * b), times(value(a), value(b)), times(x, y), times(s, t), 2 * k + m);
}

/// The exact quotient of numbers that stray.
proof fn lemma_strayed_quotient(v: real, w: real, x: real, y: real, s: real, k: nat, m: nat)
    requires
        within(v, x, s, k),
        within(w, y, y, m),
        w > (0 as real),
        y > (0 as real),
        k <= 300,
        m <= 300,
    ensures
        within(over(v, w), over(x, y), over(s, y), 2 * k + 2 * m),
{
    let (p, q) = (allowance(k), allowance(m));
    lemma_allowance(k, k);
    lemma_allowance(m, m);
    lemma_allowance(k + k, m + m);
    assert(allowance(2 * k + 2 * m) == p + p + q + q);
    lemma_over(v, w);
    lemma_over(x, y);
    lemma_over(s, y);
    assert(q <= (1 as real) / (2 as real)) by {
        lemma_allowance(m, 300);
        assert(allowance(300) <= (1 as real) / (2 as real)) by {
            reveal(times);
        }
    }
    let (f, g, h) = (over(v, w), over(x, y), over(s, y));
    reveal(times);
    assert(size(f - g) <= h * (p + p + q + q)) by (nonlinear_arith)
        requires
            f * w == v,
            g * y == x,
            h * y == s,
            -(s * p) <= v - x <= s * p,
            -(y * q) <= w - y <= y * q,
            -s <= x <= s,
            s >= (0 as real),
            w > (0 as real),
            y > (0 as real),
            (0 as real) <= p,
            (0 as real) <= q <= (1 as real) / (2 as real),
            size(f - g) == f - g || size(f - g) == g - f,
    {
        // (f - g) w == (v - x) - g (w - y)
        let d = f - g;
        assert(d * w == (v - x) - g * (w - y));
        assert(-h <= g <= h) by (nonlinear_arith)
            requires
                g * y == x,
                h * y == s,
                -s <= x <= s,
                y > (0 as real),
        ;
        assert(h >= (0 as real)) by (nonlinear_arith)
            requires
                h * y == s,
                s >= (0 as real),
                y > (0 as real),
        ;
        let e = w - y;
        assert(-(h * (y * q)) <= g * e <= h * (y * q)) by (nonlinear_arith)
            requires
                -h <= g <= h,
                -(y * q) <= e <= y * q,
        ;
        assert(s * p == (h * y) * p);
        let r = h * (p + q);
        assert((h * y) * p + h * (y * q) == r * y) by (nonlinear_arith)
            requires
                r == h * (p + q),
        ;
        assert(-(r * y) <= d * w <= r * y);
        assert(r >= (0 as real)) by (nonlinear_arith)
            requires
                r == h * (p + q),
                h >= (0 as real),
                p >= (0 as real),
                q >= (0 as real),
        ;
        assert(y <= (2 as real) * w) by (nonlinear_arith)
            requires
                -(y * q) <= w - y,
                q <= (1 as real) / (2 as real),
                y > (0 as real),
        ;
        assert(-(r + r) <= d <= r + r) by (nonlinear_arith)
            requires
                -(r * y) <= d * w <= r * y,
                y <= (2 as real) * w,
                w > (0 as real),
                r >= (0 as real),
        ;
        assert(h * (p + p + q + q) == r + r) by (nonlinear_arith)
            requires
                r == h * (p + q),
        ;
    }
    assert(size(g) <= h) by (nonlinear_arith)
        requires
            g * y == x,
            h * y == s,
            -s <= x <= s,
            y > (0 as real),
            size(g) == g || size(g) == -g,
    ;
}

/// A quotient by a positive number strays by what its parts do, and four roundings more.
pub proof fn lemma_tracks_quotient(a: F64, b: F64, x: real, y: real, s: real, k: nat, m: nat)
    requires
        tracks(a, x, s, k),
        tracks(b, y, y, m),
        normal(b),
        y > (0 as real),
        precise(a / b) || a.units() == 0,
        k <= 200,
        m <= 200,
    ensures
        tracks(a / b, over(x, y), over(s, y), 2 * k + 2 * m + 4),
{
    lemma_normal(b);
    lemma_quotient_close(a, b);
    lemma_strayed_quotient(value(a), value(b), x, y, s, k, m);
    lemma_within_rounded(value(a / b), over(value(a), value(b)), over(x, y), over(s, y), 2 * k + 2 * m);
}

/// A half is worth a half.
pub proof fn lemma_half_value()
    ensures
        value(dec(5, 1)) + value(dec(5, 1)) == (1 as real),
        normal(dec(5, 1)),
{
    lemma_half();
    lemma_unit_value(dec(5, 1));
    let (unit, h) = (pow2(1074) as real, value(dec(5, 1)));
    lemma_times_adds(h, h, unit);
    lemma_times_one(unit);
    lemma_times_unique(h + h, 1 as real, unit);
    lemma_pow2_adds(1073, 1);
    lemma2_to64();
    lemma_sized(dec(5, 1), -1, -1);
}

/// A number is about itself.
pub proof fn lemma_about_itself(x: F64)
    requires
        amount(x),
    ensures
        about(value(x), value(x), 0),
{
    lemma_amount(x);
    lemma_about_same(value(x));
}

/// A product of positive numbers strays by what its factors do, and one rounding more.
pub proof fn lemma_about_times(a: F64, b: F64, x: real, y: real, k: nat, m: nat)
    requires
        amount(a),
        amount(b),
        normal(a * b),
        about(value(a), x, k),
        about(value(b), y, m),
    ensures
        about(value(a * b), times(x, y), k + m + 1),
{
    lemma_product_about(a, b);
    lemma_about_product(value(a), x, value(b), y, k, m);
    lemma_about_chain(value(a * b), times(value(a), value(b)), times(x, y), 1, k + m);
}

/// A quotient of positive numbers strays by what its parts do, and one rounding more.
pub proof fn lemma_about_over(a: F64, b: F64, x: real, y: real, k: nat, m: nat)
    requires
        amount(a),
        normal(b),
        normal(a / b),
        about(value(a), x, k),
        about(value(b), y, m),
        y > (0 as real),
    ensures
        about(value(a / b), over(x, y), k + m + 1),
{
    lemma_normal(b);
    lemma_quotient_about(a, b);
    lemma_about_quotient(value(a), x, value(b), y, k, m);
    lemma_about_chain(value(a / b), over(value(a), value(b)), over(x, y), 1, k + m);
}

/// A sum of positive numbers strays by what its terms do, and one rounding more.
pub proof fn lemma_about_plus(a: F64, b: F64, x: real, y: real, k: nat, m: nat)
    requires
        amount(a),
        amount(b),
        normal(a + b),
        about(value(a), x, k),
        about(value(b), y, m),
    ensures
        about(value(a + b), x + y, most(k, m) + 1),
{
    let n = most(k, m);
    lemma_normal_sum(a, b);
    lemma_sum_about(a, b);
    lemma_about_more(value(a), x, k, n);
    lemma_about_more(value(b), y, m, n);
    lemma_about_sum(value(a), x, value(b), y, n);
    lemma_about_chain(value(a + b), value(a) + value(b), x + y, 1, n);
}

/// The square of a root strays by what its radicand does, and two roundings more.
pub proof fn lemma_about_root(a: F64, x: real, k: nat)
    requires
        amount(a),
        normal(a.sqrt()),
        about(value(a), x, k),
    ensures
        about(times(value(a.sqrt()), value(a.sqrt())), x, k + 2),
{
    lemma_sqrt_about(a);
    lemma_about_chain(times(value(a.sqrt()), value(a.sqrt())), value(a), x, 2, k);
}

} // verus!
