//! What lies between two states is a straight line: mixture tables and transitions.
use crate::estoc::{CompiledEstoc, EstocTransient};
use crate::float::accuracy::{lemma_normal, normal, over, times, value};
use crate::float::{dec, whole, F64};
use crate::float::decimals::lemma_decimal;
use crate::float::errors::{precise, size};
use crate::float::nearness::lemma_parts;
use crate::float::tracking::{
    lemma_tracks_itself, lemma_tracks_product, lemma_tracks_quotient, lemma_tracks_sum, lemma_whole_value, tracks,
    unlost,
};
use crate::numerics::{exp, Numerics};
use crate::propellant::{FluidThermo, MixtureRow, MixtureTable, Propellant};
use vstd::prelude::*;

verus! {

/// A step of the way between two numbers, no term of which is lost to underflow or overflow.
pub open spec fn way_kept(old: F64, new: F64, way: F64) -> bool {
    &&& old.is_finite() && new.is_finite() && (new - old).is_finite()
    &&& unlost(new - old, way)
    &&& (old + (new - old) * way).is_finite()
}

/// `x` lies the part `way` of the road from `old` to `new`, to within `k` roundings of
/// what the road is made of. A `bound` limits the part.
pub open spec fn lies_along(x: F64, old: F64, new: F64, way: real, bound: real, k: nat) -> bool {
    let (from, to) = (value(old), value(new));
    tracks(x, from + times(to - from, way), size(from) + times(size(to) + size(from), bound), k)
}

/// A step of the way lies along the road.
proof fn lemma_along(old: F64, new: F64, way: F64, exact: real, bound: real, k: nat)
    requires
        way_kept(old, new, way),
        tracks(way, exact, bound, k),
        k <= 100,
    ensures
        lies_along(old + (new - old) * way, old, new, exact, bound, k + 16),
{
    let (from, to) = (value(old), value(new));
    lemma_tracks_itself(old);
    lemma_tracks_itself(new);
    lemma_tracks_sum(new, old, to, from, size(to), size(from), 0, 0);
    lemma_tracks_product(new - old, way, to - from, exact, size(to) + size(from), bound, 4, k);
    lemma_tracks_sum(
        old,
        (new - old) * way,
        from,
        times(to - from, exact),
        size(from),
        times(size(to) + size(from), bound),
        0,
        k + 12,
    );
}

/// The rows of a table on either side of a ratio.
pub open spec fn rows_about(table: MixtureTable, ratio: F64) -> (MixtureRow, MixtureRow) {
    if ratio <= table.reference.ratio {
        (table.low, table.reference)
    } else {
        (table.reference, table.high)
    }
}

/// A reading between two rows, no term of which is lost to underflow or overflow.
pub open spec fn reading_kept(low: MixtureRow, high: MixtureRow, ratio: F64) -> bool {
    let (gone, span) = (ratio - low.ratio, high.ratio - low.ratio);
    &&& gone.is_finite() && normal(span) && dec(1, 12) <= span
    &&& precise(gone / span) || gone.units() == 0
    &&& way_kept(low.gamma, high.gamma, gone / span)
    &&& way_kept(low.chamber_temp_k, high.chamber_temp_k, gone / span)
    &&& way_kept(low.gas_constant_j_kg_k, high.gas_constant_j_kg_k, gone / span)
}

/// A mixture within its table burns as its neighbours do: each property lies as far along
/// from the row below to the row above as the ratio does, to within twenty roundings. What
/// the ratio does not bear on stays the propellant's own.
pub proof fn lemma_mixture_reads<M: Numerics>(
    propellant: Propellant,
    math: &M,
    fluids: &FluidThermo,
    table: MixtureTable,
    ratio: F64,
)
    requires
        propellant.mixture_table() == Some(table),
        propellant.mixture_fault(math, Some(ratio)) is None,
        !table.high.ratio.is_nan(),
        reading_kept(rows_about(table, ratio).0, rows_about(table, ratio).1, ratio),
    ensures
        ({
            let thermo = propellant.mixed_thermo(fluids, Some(ratio));
            let (low, high) = rows_about(table, ratio);
            let (gone, span) = (value(ratio - low.ratio), value(high.ratio - low.ratio));
            let (way, bound) = (over(gone, span), over(size(gone), span));
            &&& lies_along(thermo.gamma, low.gamma, high.gamma, way, bound, 20)
            &&& lies_along(thermo.chamber_temp_k, low.chamber_temp_k, high.chamber_temp_k, way, bound, 20)
            &&& lies_along(thermo.gas_constant_j_kg_k, low.gas_constant_j_kg_k, high.gas_constant_j_kg_k, way, bound, 20)
            &&& thermo.bulk_density_kg_m3 == propellant.thermo().bulk_density_kg_m3
            &&& thermo.characteristic_length_m == propellant.thermo().characteristic_length_m
            &&& thermo.reference_c_star_mps == propellant.thermo().reference_c_star_mps
        }),
{
    let (low, high) = rows_about(table, ratio);
    let (gone, span) = (ratio - low.ratio, high.ratio - low.ratio);
    let (way, bound) = (over(value(gone), value(span)), over(size(value(gone)), value(span)));
    lemma_parts(ratio);
    lemma_parts(table.high.ratio);
    lemma_parts(table.reference.ratio);
    lemma_parts(span);
    lemma_parts(dec(1, 12));
    lemma_decimal(1, 12);
    lemma_normal(span);
    lemma_tracks_itself(gone);
    lemma_tracks_itself(span);
    lemma_tracks_quotient(gone, span, value(gone), value(span), size(value(gone)), 0, 0);
    lemma_along(low.gamma, high.gamma, gone / span, way, bound, 4);
    lemma_along(low.chamber_temp_k, high.chamber_temp_k, gone / span, way, bound, 4);
    lemma_along(low.gas_constant_j_kg_k, high.gas_constant_j_kg_k, gone / span, way, bound, 4);
    assert(ratio <= table.reference.ratio || ratio <= table.high.ratio);
}

/// What of a combined-cycle engine's state goes over gradually.
pub open spec fn channels(state: EstocTransient) -> Seq<F64> {
    seq![
        state.thrust_n,
        state.fuel_flow_kg_s,
        state.bulk_fuel_flow_kg_s,
        state.boost_fuel_flow_kg_s,
        state.oxidizer_flow_kg_s,
        state.air_flow_kg_s,
        state.exhaust_temp_k,
        state.exhaust_velocity_mps,
        state.exit_pressure_pa,
        state.exit_mach,
        state.compressor_inlet_total_temp_k,
        state.precooler_heat_flow_w,
        state.precooler_wall_heat_flow_w,
    ]
}

/// A transition goes the same part of the way in every channel: one less what decays over
/// the step, to within twenty roundings. Wall and coolant temperatures are their own.
pub proof fn lemma_transition_lags<M: Numerics>(
    engine: &CompiledEstoc,
    math: &M,
    target: EstocTransient,
    previous: EstocTransient,
    dt_s: F64,
    i: int,
)
    requires
        0 <= i < 13,
        ({
            let decay = exp(math, dt_s.negate() / engine.transition_tau_s);
            &&& decay.is_finite() && (whole(1) - decay).is_finite()
            &&& way_kept(channels(previous)[i], channels(target)[i], whole(1) - decay)
        }),
    ensures
        ({
            let decay = value(exp(math, dt_s.negate() / engine.transition_tau_s));
            let state = engine.smoothed(math, target, Some(previous), dt_s);
            &&& lies_along(
                channels(state)[i],
                channels(previous)[i],
                channels(target)[i],
                (1 as real) - decay,
                (1 as real) + size(decay),
                20,
            )
            &&& state.precooler_wall_temp_k == target.precooler_wall_temp_k
            &&& state.coolant_outlet_temp_k == target.coolant_outlet_temp_k
        }),
{
    let decay = exp(math, dt_s.negate() / engine.transition_tau_s);
    let (old, new) = (channels(previous)[i], channels(target)[i]);
    lemma_whole_value(1);
    lemma_tracks_itself(decay);
    lemma_tracks_sum(whole(1), decay, 1 as real, value(decay), 1 as real, size(value(decay)), 0, 0);
    lemma_along(old, new, whole(1) - decay, (1 as real) - value(decay), (1 as real) + size(value(decay)), 4);
    let state = engine.smoothed(math, target, Some(previous), dt_s);
    assert(channels(state)[i] == old + (new - old) * (whole(1) - decay));
}

/// A state that starts afresh is at once what it aims at.
pub proof fn lemma_fresh_state<M: Numerics>(engine: &CompiledEstoc, math: &M, target: EstocTransient, dt_s: F64)
    ensures
        engine.smoothed(math, target, None, dt_s) == target,
{
}

} // verus!
