//! The burning surface of a grain.
use crate::float::accuracy::{
    lemma_times_adds, lemma_times_commutes, lemma_times_one, lemma_times_order, lemma_value_order, lemma_zero_value,
    times, value,
};
use crate::float::{dec, decimal, lemma_one, pi, whole, zero, F64};
use crate::float::decimals::{lemma_decimal_between, lemma_whole};
use crate::float::errors::{allowance, lemma_allowance, lemma_within_more, lemma_within_scaled, size};
use crate::float::nearness::lemma_parts;
use crate::float::order::lemma_mul_commutes;
use crate::float::range::{lemma_sized, lemma_sized_product};
use crate::float::tracking::{
    lemma_tracks_itself, lemma_tracks_product, lemma_tracks_sum, lemma_whole_value, tracks, unlost,
};
use crate::solid::SolidMotorSpec;
use vstd::arithmetic::power2::{lemma2_to64, lemma_pow2_adds, lemma_pow2_pos};
use vstd::arithmetic::power::pow;
use vstd::prelude::*;

verus! {

/// Whether a segment still burns.
pub open spec fn alight(spec: &SolidMotorSpec, core: F64, burned: F64) -> bool {
    !(burned >= spec.outer_radius_m - core)
}

/// The port of a segment (m).
pub open spec fn port(core: F64, burned: F64) -> real {
    value(core) + value(burned)
}

/// The surface of a bore (m^2): its circumference times its length.
pub open spec fn bore(spec: &SolidMotorSpec, core: F64, burned: F64) -> real {
    times(times(times(value(pi()), 2 as real), port(core, burned)), value(spec.segment_length_m))
}

/// The two end faces of a segment (m^2): rings between port and case.
pub open spec fn faces(spec: &SolidMotorSpec, core: F64, burned: F64) -> real {
    times(
        times(2 as real, value(pi())),
        times(value(spec.outer_radius_m), value(spec.outer_radius_m)) - times(port(core, burned), port(core, burned)),
    )
}

/// The burning surface of one segment (m^2).
pub open spec fn segment_surface(spec: &SolidMotorSpec, core: F64, burned: F64) -> real {
    if !alight(spec, core, burned) {
        0 as real
    } else if spec.inhibited_ends {
        bore(spec, core, burned)
    } else {
        bore(spec, core, burned) + faces(spec, core, burned)
    }
}

/// What bounds the terms of a segment's surface (m^2).
pub open spec fn segment_scale(spec: &SolidMotorSpec, core: F64, burned: F64) -> real {
    let (wide, outer) = (size(value(core)) + size(value(burned)), size(value(spec.outer_radius_m)));
    let (turn, length) = (times(size(value(pi())), 2 as real), size(value(spec.segment_length_m)));
    let around = times(times(turn, wide), length);
    if !alight(spec, core, burned) {
        0 as real
    } else if spec.inhibited_ends {
        around
    } else {
        around + times(
            times(2 as real, size(value(pi()))),
            times(outer, outer) + times(wide, wide),
        )
    }
}

/// No term of a segment's surface is lost to underflow or overflow.
pub open spec fn segment_kept(spec: &SolidMotorSpec, core: F64, burned: F64) -> bool {
    let (port_m, outer, length) = (core + burned, spec.outer_radius_m, spec.segment_length_m);
    &&& core.is_finite() && burned.is_finite() && port_m.is_finite() && outer.is_finite() && length.is_finite()
    &&& unlost(pi() * whole(2), port_m) && unlost(pi() * whole(2) * port_m, length)
    &&& unlost(outer, outer) && unlost(port_m, port_m) && (outer * outer - port_m * port_m).is_finite()
    &&& unlost(whole(2) * pi(), outer * outer - port_m * port_m)
}

/// No term of the surface of the first `n` segments is lost to underflow or overflow.
pub open spec fn surface_kept(spec: &SolidMotorSpec, cores: Seq<F64>, burned: Seq<F64>, n: nat) -> bool {
    &&& n <= cores.len() && n <= burned.len() && n <= 16
    &&& forall|i: int|
        #![trigger cores[i]]
        0 <= i < n ==> {
            let before = spec.burn_area(cores, burned, i as nat);
            &&& segment_kept(spec, cores[i], burned[i])
            &&& (before + pi() * whole(2) * (cores[i] + burned[i]) * spec.segment_length_m).is_finite()
            &&& spec.burn_area(cores, burned, (i + 1) as nat).is_finite()
        }
}

/// The surfaces of the first `n` segments together (m^2).
pub open spec fn surfaces(spec: &SolidMotorSpec, cores: Seq<F64>, burned: Seq<F64>, n: nat) -> real
    decreases n,
{
    if n == 0 {
        0 as real
    } else {
        surfaces(spec, cores, burned, (n - 1) as nat) + segment_surface(spec, cores[n - 1], burned[n - 1])
    }
}

/// What bounds the terms of the first `n` segments' surfaces together (m^2).
pub open spec fn surface_scales(spec: &SolidMotorSpec, cores: Seq<F64>, burned: Seq<F64>, n: nat) -> real
    decreases n,
{
    if n == 0 {
        0 as real
    } else {
        surface_scales(spec, cores, burned, (n - 1) as nat) + segment_scale(spec, cores[n - 1], burned[n - 1])
    }
}

/// Pi is a number near three.
proof fn lemma_pi()
    ensures
        pi().is_finite(),
        (3 as real) <= value(pi()) <= (4 as real),
        unlost(pi(), whole(2)),
        unlost(whole(2), pi()),
{
    reveal_with_fuel(pow, 16);
    lemma_decimal_between(3_141_592_653_589_793, 15, 3, 4);
    assert(pi() == dec(3_141_592_653_589_793, 15)) by {
        reveal(decimal);
    }
    lemma_whole_value(2);
    lemma_whole_value(3);
    lemma_whole_value(4);
    lemma_value_order(whole(3), pi());
    lemma_value_order(pi(), whole(4));
    lemma_whole(2);
    lemma_whole(3);
    lemma_whole(4);
    lemma2_to64();
    lemma_pow2_adds(1074, 1);
    lemma_pow2_adds(1074, 2);
    lemma_parts(whole(2));
    lemma_pow2_pos(1074);
    lemma_sized_product(pi(), whole(2), 1, 2, 1, 1);
    lemma_sized(pi() * whole(2), 2, 3);
    lemma_mul_commutes(pi(), whole(2));
}

/// One segment's bore and faces, as they are calculated.
proof fn lemma_segment(spec: &SolidMotorSpec, core: F64, burned: F64)
    requires
        segment_kept(spec, core, burned),
    ensures
        ({
            let (wide, outer) = (size(value(core)) + size(value(burned)), size(value(spec.outer_radius_m)));
            let (turn, length) = (times(size(value(pi())), 2 as real), size(value(spec.segment_length_m)));
            let port_m = core + burned;
            &&& tracks(
                pi() * whole(2) * port_m * spec.segment_length_m,
                bore(spec, core, burned),
                times(times(turn, wide), length),
                36,
            )
            &&& tracks(
                whole(2) * pi() * (spec.outer_radius_m * spec.outer_radius_m - port_m * port_m),
                faces(spec, core, burned),
                times(times(2 as real, size(value(pi()))), times(outer, outer) + times(wide, wide)),
                32,
            )
        }),
{
    let (port_m, r, length) = (core + burned, spec.outer_radius_m, spec.segment_length_m);
    let (p, exact) = (value(pi()), port(core, burned));
    let wide = size(value(core)) + size(value(burned));
    let two = 2 as real;
    lemma_pi();
    lemma_whole_value(2);
    lemma_tracks_itself(pi());
    lemma_tracks_itself(core);
    lemma_tracks_itself(burned);
    lemma_tracks_itself(r);
    lemma_tracks_itself(length);
    lemma_tracks_sum(core, burned, value(core), value(burned), size(value(core)), size(value(burned)), 0, 0);
    lemma_tracks_product(pi(), whole(2), p, two, size(p), two, 0, 0);
    lemma_tracks_product(pi() * whole(2), port_m, times(p, two), exact, times(size(p), two), wide, 4, 4);
    lemma_tracks_product(
        pi() * whole(2) * port_m,
        length,
        times(times(p, two), exact),
        value(length),
        times(times(size(p), two), wide),
        size(value(length)),
        16,
        0,
    );
    lemma_tracks_product(whole(2), pi(), two, p, two, size(p), 0, 0);
    lemma_tracks_product(r, r, value(r), value(r), size(value(r)), size(value(r)), 0, 0);
    lemma_tracks_product(port_m, port_m, exact, exact, wide, wide, 4, 4);
    let ring = times(value(r), value(r)) - times(exact, exact);
    let bound = times(size(value(r)), size(value(r))) + times(wide, wide);
    lemma_tracks_sum(
        r * r,
        port_m * port_m,
        times(value(r), value(r)),
        times(exact, exact),
        times(size(value(r)), size(value(r))),
        times(wide, wide),
        4,
        16,
    );
    lemma_tracks_product(
        whole(2) * pi(),
        r * r - port_m * port_m,
        times(two, p),
        ring,
        times(two, size(p)),
        bound,
        4,
        20,
    );
}

/// A grain burns on the whole surface of every segment that is still alight: on its bore
/// and, unless they are inhibited, on both its end faces. The surfaces of the segments add
/// up, to within eight roundings a segment and thirty-six more.
pub proof fn lemma_burning_surface(spec: &SolidMotorSpec, cores: Seq<F64>, burned: Seq<F64>, n: nat)
    requires
        surface_kept(spec, cores, burned, n),
    ensures
        tracks(
            spec.burn_area(cores, burned, n),
            surfaces(spec, cores, burned, n),
            surface_scales(spec, cores, burned, n),
            8 * n + 36,
        ),
    decreases n,
{
    if n == 0 {
        lemma_one();
        lemma_parts(zero());
        lemma_zero_value();
        lemma_tracks_itself(zero());
        lemma_within_more(0 as real, 0 as real, 0 as real, 0, 0 as real, 36);
    } else {
        let m = (n - 1) as nat;
        let (core, depth) = (cores[n - 1], burned[n - 1]);
        assert(surface_kept(spec, cores, burned, m));
        lemma_burning_surface(spec, cores, burned, m);
        lemma_segment(spec, core, depth);
        let before = spec.burn_area(cores, burned, m);
        let (exact, scale) = (surfaces(spec, cores, burned, m), surface_scales(spec, cores, burned, m));
        let (wide, outer) = (size(value(core)) + size(value(depth)), size(value(spec.outer_radius_m)));
        let (turn, length) = (times(size(value(pi())), 2 as real), size(value(spec.segment_length_m)));
        let around = times(times(turn, wide), length);
        let ends = times(times(2 as real, size(value(pi()))), times(outer, outer) + times(wide, wide));
        let (first, second) = (
            pi() * whole(2) * (core + depth) * spec.segment_length_m,
            whole(2) * pi() * (spec.outer_radius_m * spec.outer_radius_m - (core + depth) * (core + depth)),
        );
        lemma_tracks_sum(before, first, exact, bore(spec, core, depth), scale, around, 8 * m + 36, 36);
        lemma_tracks_sum(
            before + first,
            second,
            exact + bore(spec, core, depth),
            faces(spec, core, depth),
            scale + around,
            ends,
            8 * m + 40,
            32,
        );
        let (all, bound) = (surfaces(spec, cores, burned, n), surface_scales(spec, cores, burned, n));
        let area = spec.burn_area(cores, burned, n);
        if !alight(spec, core, depth) {
            lemma_within_more(value(area), all, bound, 8 * m + 36, bound, 8 * n + 36);
        } else if spec.inhibited_ends {
            lemma_within_more(value(area), all, bound, 8 * m + 40, bound, 8 * n + 36);
        }
    }
}

/// Like segments: one port and one burned depth throughout.
pub open spec fn alike_segments(cores: Seq<F64>, burned: Seq<F64>, n: nat, core: F64, depth: F64) -> bool {
    &&& n <= cores.len() && n <= burned.len()
    &&& forall|i: int| #![trigger cores[i]] 0 <= i < n ==> cores[i] == core && burned[i] == depth
}

/// Surfaces of like segments are multiples of one.
proof fn lemma_multiples(spec: &SolidMotorSpec, cores: Seq<F64>, burned: Seq<F64>, n: nat, core: F64, depth: F64)
    requires
        alike_segments(cores, burned, n, core, depth),
    ensures
        surfaces(spec, cores, burned, n) == times(n as real, segment_surface(spec, core, depth)),
        surface_scales(spec, cores, burned, n) == times(n as real, segment_scale(spec, core, depth)),
    decreases n,
{
    let (one, scale) = (segment_surface(spec, core, depth), segment_scale(spec, core, depth));
    if n == 0 {
        lemma_times_adds(0 as real, 0 as real, one);
        lemma_times_adds(0 as real, 0 as real, scale);
    } else {
        let last = n - 1;
        assert(cores[last] == core);
        assert(burned[last] == depth);
        lemma_multiples(spec, cores, burned, (n - 1) as nat, core, depth);
        lemma_times_adds((n - 1) as real, 1 as real, one);
        lemma_times_adds((n - 1) as real, 1 as real, scale);
        lemma_times_one(one);
        lemma_times_one(scale);
    }
}

/// Like segments burn alike: many segments with the same port and burned depth have as
/// many times the burning surface of one, inhibited or not, to within eight roundings a
/// segment and eighty more.
pub proof fn lemma_like_segments_burn_alike(
    spec: &SolidMotorSpec,
    cores: Seq<F64>,
    burned: Seq<F64>,
    n: nat,
    core: F64,
    depth: F64,
)
    requires
        n > 0,
        alike_segments(cores, burned, n, core, depth),
        surface_kept(spec, cores, burned, n),
    ensures
        size(
            value(spec.burn_area(cores, burned, n)) - times(
                n as real,
                value(spec.burn_area(seq![core], seq![depth], 1)),
            ),
        ) <= times(times(n as real, segment_scale(spec, core, depth)), allowance(8 * n + 80)),
{
    let scale = segment_scale(spec, core, depth);
    let (ones, depths) = (seq![core], seq![depth]);
    assert(cores[0] == core);
    assert(burned[0] == depth);
    assert(spec.burn_area(ones, depths, 0) == zero() && spec.burn_area(cores, burned, 0) == zero());
    assert(spec.burn_area(ones, depths, 1) == spec.burn_area(cores, burned, 1));
    assert(surface_kept(spec, ones, depths, 1));
    lemma_burning_surface(spec, cores, burned, n);
    lemma_burning_surface(spec, ones, depths, 1);
    lemma_multiples(spec, cores, burned, n, core, depth);
    lemma_multiples(spec, ones, depths, 1, core, depth);
    lemma_times_one(scale);
    lemma_times_one(segment_surface(spec, core, depth));
    let one = value(spec.burn_area(ones, depths, 1));
    let exact = segment_surface(spec, core, depth);
    let k = n as real;
    lemma_within_scaled(one, exact, scale, 44, k);
    lemma_times_commutes(k, one);
    lemma_times_commutes(k, exact);
    lemma_times_commutes(k, scale);
    let all = times(k, scale);
    lemma_allowance(8 * n + 36, 44);
    lemma_times_adds(allowance(8 * n + 36), allowance(44), all);
}

/// Uninhibited ends add the rings of both faces of a segment that is alight to what its
/// bore burns, up to a hundred roundings of its terms.
pub proof fn lemma_open_ends(inhibited: &SolidMotorSpec, open: &SolidMotorSpec, core: F64, depth: F64)
    requires
        inhibited.inhibited_ends,
        !open.inhibited_ends,
        open.outer_radius_m == inhibited.outer_radius_m,
        open.segment_length_m == inhibited.segment_length_m,
        alight(open, core, depth),
        surface_kept(inhibited, seq![core], seq![depth], 1),
        surface_kept(open, seq![core], seq![depth], 1),
    ensures
        ({
            let (plain, both) = (
                value(inhibited.burn_area(seq![core], seq![depth], 1)),
                value(open.burn_area(seq![core], seq![depth], 1)),
            );
            let (p, outer, inner) = (value(pi()), value(open.outer_radius_m), value(core) + value(depth));
            let rings = times(times(2 as real, p), times(outer, outer) - times(inner, inner));
            let cylinder = times(times(times(p, 2 as real), inner), value(inhibited.segment_length_m));
            &&& size((both - plain) - rings) <= times(
                segment_scale(inhibited, core, depth) + segment_scale(open, core, depth),
                allowance(100),
            )
            &&& size(plain - cylinder) <= times(segment_scale(inhibited, core, depth), allowance(100))
        }),
{
    let (ones, depths) = (seq![core], seq![depth]);
    assert(ones[0] == core && depths[0] == depth);
    lemma_burning_surface(inhibited, ones, depths, 1);
    lemma_burning_surface(open, ones, depths, 1);
    reveal_with_fuel(surfaces, 2);
    reveal_with_fuel(surface_scales, 2);
    let (s, t) = (segment_scale(inhibited, core, depth), segment_scale(open, core, depth));
    lemma_allowance(44, 100);
    lemma_times_order(allowance(44), allowance(100), s);
    lemma_times_order(allowance(44), allowance(100), t);
    lemma_times_adds(s, t, allowance(100));
}

} // verus!
