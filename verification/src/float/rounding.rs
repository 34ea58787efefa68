//! Rounding to the nearest binary64, ties to even.
use super::magnitude::{lemma_mag_increasing, lemma_mag_scaled, lemma_mag_step, mag, HIDDEN, INF_BITS};
use vstd::arithmetic::power2::{lemma2_to64, lemma2_to64_rest, lemma_pow2_adds, lemma_pow2_pos, lemma_pow2_strictly_increases, lemma_pow2_unfold, pow2};
use vstd::bits::lemma_u128_shr_is_div;
use vstd::prelude::*;

verus! {

/// `gap(c)` has the sign of `2 * v - c`, where `v` is the exact magnitude in
/// units of 2^-1074: the pattern `m` is nearest when `v` lies between the
/// midpoints to its two neighbours, a midpoint itself going to the even pattern.
pub open spec fn nearest(gap: spec_fn(int) -> int, m: nat) -> bool {
    &&& m <= INF_BITS
    &&& m > 0 ==> {
        let below = gap((mag((m - 1) as nat) + mag(m)) as int);
        below > 0 || (below == 0 && m % 2 == 0)
    }
    &&& m < INF_BITS ==> {
        let above = gap((mag(m) + mag(m + 1)) as int);
        above < 0 || (above == 0 && m % 2 == 0)
    }
}

/// What `gap` must be to stand for one exact magnitude.
pub open spec fn decreasing(gap: spec_fn(int) -> int) -> bool {
    forall|a: int, b: int| 0 <= a < b ==> #[trigger] gap(a) > #[trigger] gap(b)
}

/// At most one pattern is nearest.
pub proof fn lemma_nearest_unique(gap: spec_fn(int) -> int, m1: nat, m2: nat)
    requires
        decreasing(gap),
        nearest(gap, m1),
        nearest(gap, m2),
    ensures
        m1 == m2,
{
    lemma_nearest_order(gap, m1, m2);
    lemma_nearest_order(gap, m2, m1);
}

proof fn lemma_nearest_order(gap: spec_fn(int) -> int, m1: nat, m2: nat)
    requires
        decreasing(gap),
        nearest(gap, m1),
        nearest(gap, m2),
    ensures
        m1 >= m2,
{
    if m1 + 1 < m2 {
        let c1 = (mag(m1) + mag(m1 + 1)) as int;
        let c2 = (mag((m2 - 1) as nat) + mag(m2)) as int;
        lemma_mag_increasing(m1, (m2 - 1) as nat);
        lemma_mag_increasing(m1 + 1, m2);
        assert(c1 < c2);
        assert(gap(c1) > gap(c2));
    }
}

/// The position of the exact magnitude: `a` times twice the magnitude is
/// `low`, or lies strictly between `low` and `high` when `sticky`.
pub open spec fn pinned(gap: spec_fn(int) -> int, a: int, low: int, high: int, sticky: bool) -> bool {
    forall|c: int|
        0 <= c ==> {
            let g = #[trigger] gap(c);
            &&& c * a < low ==> g > 0
            &&& c * a == low ==> (if sticky { g > 0 } else { g == 0 })
            &&& (c * a > low && (!sticky || c * a >= high)) ==> g < 0
        }
}

/// The exact magnitude is `q * 2^k` units, or strictly between that and
/// `(q + 1) * 2^k` when `sticky`.
pub open spec fn located(gap: spec_fn(int) -> int, q: int, k: int, sticky: bool) -> bool {
    if k >= 0 {
        pinned(gap, 1, 2 * q * pow2(k as nat), 2 * (q + 1) * pow2(k as nat), sticky)
    } else {
        pinned(gap, pow2((-k) as nat) as int, 2 * q, 2 * (q + 1), sticky)
    }
}

/// Whether the part cut off rounds the significand up.
pub open spec fn rounds_up(t: int, rem: int, unit: int, sticky: bool) -> bool {
    2 * rem > unit || (2 * rem == unit && (sticky || t % 2 == 1))
}

/// Cutting `d` low bits off a located significand and rounding gives the nearest pattern.
proof fn lemma_cut(gap: spec_fn(int) -> int, q: int, k: int, sticky: bool, t: nat, rem: nat, d: nat)
    requires
        decreasing(gap),
        located(gap, q, k, sticky),
        q == t * pow2(d) + rem,
        rem < pow2(d),
        k + d >= 0,
        sticky ==> d >= 1,
        t < 2 * HIDDEN,
        k + d == 0 || t >= HIDDEN,
    ensures
        ({
            let up: int = if rounds_up(t as int, rem as int, pow2(d) as int, sticky) { 1 } else { 0 };
            let m = t + (k + d) * HIDDEN + up;
            nearest(gap, (if m <= INF_BITS { m } else { INF_BITS as int }) as nat)
        }),
{
    let j = (k + d) as nat;
    let pd = pow2(d) as int;
    let pj = pow2(j) as int;
    lemma_pow2_pos(d);
    lemma_pow2_pos(j);
    let lo = 2 * t * pj;
    let mid = (2 * t + 1) * pj;
    let hi = (2 * t + 2) * pj;
    lemma_cut_signs(gap, q, k, sticky, t, rem, d);
    let up = rounds_up(t as int, rem as int, pd, sticky);
    let m0 = (t + j * HIDDEN) as nat;
    lemma_mag_scaled(t, j);
    lemma_mag_scaled(t + 1, j);
    assert(mag(m0) == t * pj);
    assert(mag(m0 + 1) == (t + 1) * pj);
    assert(mag(m0) + mag(m0 + 1) == mid) by (nonlinear_arith)
        requires
            mag(m0) == t * pj,
            mag(m0 + 1) == (t + 1) * pj,
            mid == (2 * t + 1) * pj,
    ;
    assert(2 * mag(m0) == lo && 2 * mag(m0 + 1) == hi) by (nonlinear_arith)
        requires
            mag(m0) == t * pj,
            mag(m0 + 1) == (t + 1) * pj,
            lo == 2 * t * pj,
            hi == (2 * t + 2) * pj,
    ;
    assert(m0 % 2 == t % 2) by (nonlinear_arith)
        requires
            m0 == t + j * HIDDEN,
            HIDDEN == 2 * 0x8_0000_0000_0000,
    ;
    lemma_mag_step(m0);
    lemma_mag_step(m0 + 1);
    if m0 > 0 {
        lemma_mag_step((m0 - 1) as nat);
    }
    if m0 >= INF_BITS {
        let inf = INF_BITS as nat;
        lemma_mag_step((inf - 1) as nat);
        if m0 > inf {
            lemma_mag_increasing(inf, m0);
        }
        let c = (mag((inf - 1) as nat) + mag(inf)) as int;
        assert(c < lo);
        assert(gap(c) > gap(lo));
    } else if up {
        let m = m0 + 1;
        let c = (mag(m) + mag(m + 1)) as int;
        assert(c > hi);
        assert(gap(hi) > gap(c));
        assert(gap(mid) >= 0);
        assert(gap(mid) == 0 ==> t % 2 == 1);
    } else {
        if m0 > 0 {
            let c = (mag((m0 - 1) as nat) + mag(m0)) as int;
            assert(c < lo);
            assert(gap(c) > gap(lo));
        }
        assert(gap(mid) <= 0);
        assert(gap(mid) == 0 ==> t % 2 == 0);
    }
}

/// The signs of the gap at a cut significand, its successor and the midpoint.
proof fn lemma_cut_signs(gap: spec_fn(int) -> int, q: int, k: int, sticky: bool, t: nat, rem: nat, d: nat)
    requires
        located(gap, q, k, sticky),
        q == t * pow2(d) + rem,
        rem < pow2(d),
        k + d >= 0,
        sticky ==> d >= 1,
    ensures
        ({
            let pj = pow2((k + d) as nat) as int;
            let mid = gap((2 * t + 1) * pj);
            &&& gap(2 * t * pj) >= 0
            &&& gap((2 * t + 2) * pj) < 0
            &&& 2 * rem > pow2(d) ==> mid > 0
            &&& 2 * rem < pow2(d) ==> mid < 0
            &&& 2 * rem == pow2(d) ==> (if sticky { mid > 0 } else { mid == 0 })
        }),
{
    let j = (k + d) as nat;
    let pd = pow2(d) as int;
    let pj = pow2(j) as int;
    lemma_pow2_pos(d);
    lemma_pow2_pos(j);
    let a: int = if k >= 0 { 1 } else { pow2((-k) as nat) as int };
    let b: int = if k >= 0 { pow2(k as nat) as int } else { 1 };
    if k >= 0 {
        lemma_pow2_adds(k as nat, d);
        lemma_pow2_pos(k as nat);
        assert(pj * a == pd * b) by (nonlinear_arith)
            requires
                pj == b * pd,
                a == 1,
        ;
    } else {
        lemma_pow2_adds((-k) as nat, j);
        assert((-k) as nat + j == d);
        assert(pj * a == pd * b) by (nonlinear_arith)
            requires
                pd == a * pj,
                b == 1,
        ;
    }
    let low = 2 * q * b;
    let high = 2 * (q + 1) * b;
    assert(pinned(gap, a, low, high, sticky)) by {
        if k < 0 {
            assert(low == 2 * q && high == 2 * (q + 1));
        }
    }
    let e = 2 * t * pj;
    let mid = (2 * t + 1) * pj;
    let hi = (2 * t + 2) * pj;
    assert(e >= 0 && mid >= 0 && hi >= 0) by (nonlinear_arith)
        requires
            e == 2 * t * pj,
            mid == (2 * t + 1) * pj,
            hi == (2 * t + 2) * pj,
            pj > 0,
            t >= 0,
    ;
    assert(e * a == (2 * t * pd) * b && mid * a == ((2 * t + 1) * pd) * b && hi * a == ((2 * t + 2) * pd) * b)
        by (nonlinear_arith)
        requires
            e == 2 * t * pj,
            mid == (2 * t + 1) * pj,
            hi == (2 * t + 2) * pj,
            pj * a == pd * b,
    ;
    // Everything is now compared as multiples of b > 0.
    assert(2 * q == 2 * t * pd + 2 * rem) by (nonlinear_arith)
        requires
            q == t * pd + rem,
    ;
    assert((2 * t + 1) * pd == 2 * t * pd + pd) by (nonlinear_arith);
    assert((2 * t + 2) * pd == 2 * t * pd + 2 * pd) by (nonlinear_arith);
    lemma_scaled_order(2 * t * pd, 2 * q, b);
    lemma_scaled_order((2 * t + 1) * pd, 2 * q, b);
    lemma_scaled_order((2 * t + 1) * pd, 2 * (q + 1), b);
    lemma_scaled_order((2 * t + 2) * pd, 2 * (q + 1), b);
    lemma_scaled_order((2 * t + 2) * pd, 2 * q, b);
    if d >= 1 {
        lemma_pow2_unfold(d);
    } else {
        lemma2_to64();
    }
    assert(gap(e) >= 0);
    assert(gap(hi) < 0);
    assert(2 * rem > pd ==> gap(mid) > 0);
    assert(2 * rem < pd ==> gap(mid) < 0);
}

proof fn lemma_scaled_order(x: int, y: int, b: int)
    requires
        b > 0,
    ensures
        x < y <==> x * b < y * b,
        x == y <==> x * b == y * b,
        x > y <==> x * b > y * b,
{
    assert(x < y ==> x * b < y * b) by (nonlinear_arith)
        requires
            b > 0,
    ;
    assert(x > y ==> x * b > y * b) by (nonlinear_arith)
        requires
            b > 0,
    ;
}

/// 2^d for `d` at most 127.
pub fn two_to(d: u32) -> (p: u128)
    requires
        d <= 127,
    ensures
        p == pow2(d as nat),
        p > 0,
{
    let top: u128 = 0x8000_0000_0000_0000_0000_0000_0000_0000;
    proof {
        lemma_pow2_top();
        lemma_u128_shr_is_div(top, (127 - d) as u128);
        lemma_pow2_adds((127 - d) as nat, d as nat);
        lemma_pow2_pos((127 - d) as nat);
        lemma_pow2_pos(d as nat);
        let lower = pow2((127 - d) as nat) as int;
        let upper = pow2(d as nat) as int;
        assert((lower * upper) / lower == upper) by (nonlinear_arith)
            requires
                lower > 0,
        ;
    }
    top >> ((127 - d) as u128)
}

proof fn lemma_pow2_top()
    ensures
        pow2(127) == 0x8000_0000_0000_0000_0000_0000_0000_0000,
{
    lemma2_to64();
    lemma2_to64_rest();
    lemma_pow2_adds(64, 63);
}

/// Position of the highest one bit.
fn top_bit(q: u128) -> (n: u32)
    requires
        q > 0,
    ensures
        n <= 127,
        pow2(n as nat) <= q < pow2(n as nat + 1),
{
    let mut x: u128 = q;
    let mut n: u32 = 0;
    proof {
        lemma2_to64();
        assert(x * pow2(0) == x && (x + 1) * pow2(0) == x + 1) by (nonlinear_arith)
            requires
                pow2(0) == 1,
        ;
    }
    while x >= 65536
        invariant
            x >= 1,
            n <= 127,
            x * pow2(n as nat) <= q < (x + 1) * pow2(n as nat),
        decreases x,
    {
        proof {
            lemma2_to64();
            lemma_shift_cell(q as int, x as int, n as nat, 16);
            lemma_top_bound(q as int, (x / 65536) as int, (n + 16) as nat);
        }
        x = x / 65536;
        n = n + 16;
    }
    while x >= 2
        invariant
            x >= 1,
            n <= 127,
            x * pow2(n as nat) <= q < (x + 1) * pow2(n as nat),
        decreases x,
    {
        proof {
            lemma2_to64();
            lemma_shift_cell(q as int, x as int, n as nat, 1);
            lemma_top_bound(q as int, (x / 2) as int, (n + 1) as nat);
        }
        x = x / 2;
        n = n + 1;
    }
    proof {
        lemma_pow2_unfold((n + 1) as nat);
        assert(1 * pow2(n as nat) <= q < (1 + 1) * pow2(n as nat));
    }
    n
}

proof fn lemma_shift_cell(q: int, x: int, n: nat, s: nat)
    requires
        x >= 0,
        x * pow2(n) <= q < (x + 1) * pow2(n),
    ensures
        ({
            let y = x / (pow2(s) as int);
            y * pow2(n + s) <= q < (y + 1) * pow2(n + s)
        }),
{
    let ps = pow2(s) as int;
    let pn = pow2(n) as int;
    let y = x / ps;
    lemma_pow2_pos(s);
    lemma_pow2_pos(n);
    lemma_pow2_adds(n, s);
    assert(y * ps <= x && x + 1 <= (y + 1) * ps) by (nonlinear_arith)
        requires
            y == x / ps,
            ps > 0,
    ;
    assert(y * (pn * ps) <= x * pn && (x + 1) * pn <= (y + 1) * (pn * ps)) by (nonlinear_arith)
        requires
            y * ps <= x,
            x + 1 <= (y + 1) * ps,
            pn > 0,
    ;
}

proof fn lemma_top_bound(q: int, x: int, n: nat)
    requires
        x >= 1,
        x * pow2(n) <= q,
        q <= u128::MAX,
    ensures
        n <= 127,
{
    if n > 127 {
        lemma_pow2_top();
        lemma_pow2_unfold(128);
        if n > 128 {
            lemma_pow2_strictly_increases(128, n);
        }
        lemma_pow2_pos(n);
        assert(pow2(n) <= x * pow2(n)) by (nonlinear_arith)
            requires
                x >= 1,
                pow2(n) > 0,
        ;
    }
}

/// Scaling an exact significand up by 2^s leaves it where it was.
proof fn lemma_rescale(gap: spec_fn(int) -> int, q: int, k: nat, s: nat)
    requires
        located(gap, q, k as int, false),
        s <= k,
    ensures
        located(gap, q * pow2(s), k - s, false),
{
    let ps = pow2(s) as int;
    let pr = pow2((k - s) as nat) as int;
    lemma_pow2_adds((k - s) as nat, s);
    assert(2 * q * (pr * ps) == 2 * (q * ps) * pr) by (nonlinear_arith);
}

/// A magnitude below half a unit rounds to zero.
proof fn lemma_tiny(gap: spec_fn(int) -> int, q: int, k: int, sticky: bool)
    requires
        decreasing(gap),
        located(gap, q, k, sticky),
        0 < q < pow2(127),
        k <= -128,
    ensures
        nearest(gap, 0),
{
    let a = pow2((-k) as nat) as int;
    lemma_pow2_unfold(128);
    if -k > 128 {
        lemma_pow2_strictly_increases(128, (-k) as nat);
    }
    assert(1 * a >= 2 * (q + 1));
    assert(gap(1) < 0);
}

/// Rounds the located magnitude to its nearest pattern.
pub fn round_located(q: u128, k: i32, sticky: bool, Ghost(gap): Ghost<spec_fn(int) -> int>) -> (m: u64)
    requires
        decreasing(gap),
        0 < q < pow2(127),
        sticky ==> q >= pow2(54),
        -5000 <= k <= 5000,
        located(gap, q as int, k as int, sticky),
    ensures
        nearest(gap, m as nat),
{
    if k <= -128 {
        proof {
            lemma_tiny(gap, q as int, k as int, sticky);
        }
        return 0;
    }
    let n: u32 = top_bit(q);
    proof {
        lemma2_to64();
        if n + 1 > 127 {
            if n + 1 > 128 { lemma_pow2_strictly_increases(128, (n + 1) as nat); }
        }
        if sticky && n < 54 {
            if n + 1 < 54 {
                lemma_pow2_strictly_increases((n + 1) as nat, 54);
            }
        }
        if n >= 127 {
            if n > 127 { lemma_pow2_strictly_increases(127, n as nat); }
        }
    }
    if n <= 52 && k >= 0 {
        let room: i32 = (52 - n) as i32;
        let s: i32 = if room <= k { room } else { k };
        let p: u128 = two_to(s as u32);
        proof {
            lemma_rescale(gap, q as int, k as nat, s as nat);
            lemma_pow2_adds(n as nat, s as nat);
            lemma_pow2_adds((n + 1) as nat, s as nat);
            lemma_narrow((n + 1 + s) as nat);
            lemma2_to64_rest();
            assert(pow2(n as nat) * p <= q * p && q * p < pow2((n + 1) as nat) * p) by (nonlinear_arith)
                requires
                    pow2(n as nat) <= q < pow2((n + 1) as nat),
                    p > 0,
            ;
        }
        let t: u128 = q * p;
        proof {
            lemma_cut(gap, t as int, k - s, false, t as nat, 0, 0);
            assert(t * pow2(0) == t) by (nonlinear_arith)
                requires
                    pow2(0) == 1,
            ;
        }
        return pack(t as u64, k - s, false);
    }
    let wide: i32 = if n > 52 { (n - 52) as i32 } else { 0 };
    let d: i32 = if wide >= 0 - k { wide } else { 0 - k };
    let p: u128 = two_to(d as u32);
    let t: u128 = q / p;
    let rem: u128 = q % p;
    proof {
        assert(q == t * p + rem) by (nonlinear_arith)
            requires
                t == q / p,
                rem == q % p,
                p > 0,
        ;
        lemma_cut_width(q as nat, n as nat, d as nat, t as nat);
        lemma_cut(gap, q as int, k as int, sticky, t as nat, rem as nat, d as nat);
    }
    let half: u128 = p / 2;
    proof {
        if d >= 1 {
            lemma_pow2_unfold(d as nat);
        }
    }
    let up: bool = d >= 1 && (rem > half || (rem == half && (sticky || t % 2 == 1)));
    pack(t as u64, k + d, up)
}

proof fn lemma_narrow(n: nat)
    requires
        n <= 53,
    ensures
        pow2(n) <= 2 * HIDDEN,
{
    lemma2_to64_rest();
    if n < 53 {
        lemma_pow2_strictly_increases(n, 53);
    }
}

/// How wide a significand is after a cut.
proof fn lemma_cut_width(q: nat, n: nat, d: nat, t: nat)
    requires
        pow2(n) <= q < pow2(n + 1),
        t == q / pow2(d),
        n <= 52 + d,
    ensures
        t < 2 * HIDDEN,
        n == 52 + d ==> t >= HIDDEN,
{
    lemma2_to64_rest();
    lemma_pow2_pos(d);
    let pd = pow2(d) as int;
    lemma_pow2_adds(53, d);
    if n + 1 < 53 + d {
        lemma_pow2_strictly_increases(n + 1, 53 + d);
    }
    assert(t < 2 * HIDDEN) by (nonlinear_arith)
        requires
            t == q as int / pd,
            q < 2 * HIDDEN * pd,
            pd > 0,
    ;
    if n == 52 + d {
        lemma_pow2_adds(52, d);
        assert(t >= HIDDEN) by (nonlinear_arith)
            requires
                t == q as int / pd,
                q >= HIDDEN * pd,
                pd > 0,
        ;
    }
}

/// Assembles a pattern, stopping at infinity.
fn pack(t: u64, j: i32, up: bool) -> (m: u64)
    requires
        t < 2 * HIDDEN,
        0 <= j <= 10000,
    ensures
        ({
            let full = t + j * HIDDEN + (if up { 1int } else { 0 });
            m == if full <= INF_BITS { full } else { INF_BITS as int }
        }),
{
    if j >= 2047 {
        assert(j * HIDDEN >= INF_BITS);
        return INF_BITS;
    }
    let full: u64 = t + (j as u64) * HIDDEN + (if up { 1 } else { 0 });
    if full <= INF_BITS { full } else { INF_BITS }
}

} // verus!
