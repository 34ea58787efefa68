//! Tables over altitude and Mach number hold the operating points that they stand for.
use crate::air::{
    air_row, air_rows_at, air_rows_from, cell_condition, sample_at, AirAltitudePoint, AirOperatingPoint,
    CompiledAirbreather, FlightCondition,
};
use crate::atmosphere::{AtmosphereSample, SampledAltitude};
use crate::error::Fault;
use crate::estoc::{estoc_row, EstocPoint};
use crate::float::F64;
use crate::numerics::Numerics;
use vstd::prelude::*;

verus! {

/// A row of an air-breather's table reads a point.
pub open spec fn row_reads(row: AirAltitudePoint, altitude_m: F64, mach: F64, ambient_pa: F64, point: AirOperatingPoint) -> bool {
    &&& row.altitude_m == altitude_m && row.mach == mach && row.ambient_pa == ambient_pa
    &&& row.thrust_n == point.thrust_n && row.isp_s == point.isp_s && row.fuel_flow_kg_s == point.fuel_flow_kg_s
    &&& row.air_limited == point.air_limited && row.oxygen_limited == point.oxygen_limited
    &&& row.drive_limited == point.drive_limited && row.nozzle_limited == point.nozzle_limited
    &&& row.separation_risk == point.separation_risk && row.spool_n == point.spool_n
}

/// What a cell of the table holds: the steady point at the cell's altitude and Mach number.
pub open spec fn air_cell<M: Numerics>(
    math: &M,
    engine: &CompiledAirbreather,
    row: AirAltitudePoint,
    altitude: SampledAltitude,
    sample: AtmosphereSample,
    machs: Seq<F64>,
    throttle: F64,
    j: int,
) -> bool {
    exists|condition: FlightCondition, point: AirOperatingPoint|
        {
            &&& cell_condition(sample, altitude.solved_machs@, machs[j], j, "Mach numbers must be finite and >= 0")
                == Ok::<FlightCondition, Fault>(condition)
            &&& #[trigger] engine.steady(math, &condition, throttle) == Ok::<AirOperatingPoint, Fault>(point)
            &&& #[trigger] row_reads(row, altitude.altitude_m, machs[j], sample.pressure_pa, point)
        }
}

/// The cells of one altitude follow what was there before, one for each Mach number.
proof fn lemma_air_cells<M: Numerics>(
    math: &M,
    engine: &CompiledAirbreather,
    altitude: SampledAltitude,
    sample: AtmosphereSample,
    machs: Seq<F64>,
    throttle: F64,
    j: int,
    done: Seq<AirAltitudePoint>,
    rows: Seq<AirAltitudePoint>,
)
    requires
        0 <= j <= machs.len(),
        air_rows_at(math, engine, altitude, sample, machs, throttle, j, done) == Ok::<Seq<AirAltitudePoint>, Fault>(
            rows,
        ),
    ensures
        rows.len() == done.len() + machs.len() - j,
        forall|k: int| #![trigger rows[k]] 0 <= k < done.len() ==> rows[k] == done[k],
        forall|k: int|
            #![trigger rows[k]]
            done.len() <= k < rows.len() ==> air_cell(
                math,
                engine,
                rows[k],
                altitude,
                sample,
                machs,
                throttle,
                j + k - done.len(),
            ),
    decreases machs.len() - j,
{
    if j < machs.len() {
        let condition = cell_condition(
            sample,
            altitude.solved_machs@,
            machs[j],
            j,
            "Mach numbers must be finite and >= 0",
        )->Ok_0;
        let point = engine.steady(math, &condition, throttle)->Ok_0;
        let row = air_row(altitude.altitude_m, machs[j], sample.pressure_pa, point);
        let next = done.push(row);
        lemma_air_cells(math, engine, altitude, sample, machs, throttle, j + 1, next, rows);
        assert(engine.steady(math, &condition, throttle) == Ok::<AirOperatingPoint, Fault>(point));
        assert(row_reads(row, altitude.altitude_m, machs[j], sample.pressure_pa, point));
        assert forall|k: int| #![trigger rows[k]] 0 <= k < done.len() implies rows[k] == done[k] by {
            assert(rows[k] == next[k]);
        }
        assert forall|k: int| #![trigger rows[k]] done.len() <= k < rows.len() implies air_cell(
            math,
            engine,
            rows[k],
            altitude,
            sample,
            machs,
            throttle,
            j + k - done.len(),
        ) by {
            if k == done.len() {
                assert(rows[k] == next[k]);
                assert(next[k] == row);
            }
        }
    }
}

/// A table of an air-breather at one altitude holds, for each Mach number in order, the
/// steady point of the engine there.
pub proof fn lemma_air_table_row<M: Numerics>(
    math: &M,
    engine: &CompiledAirbreather,
    altitude: SampledAltitude,
    machs: Seq<F64>,
    throttle: F64,
    rows: Seq<AirAltitudePoint>,
)
    requires
        air_rows_from(math, engine, seq![altitude], machs, throttle, 0, Seq::empty()) == Ok::<
            Seq<AirAltitudePoint>,
            Fault,
        >(rows),
    ensures
        rows.len() == machs.len(),
        forall|k: int|
            #![trigger rows[k]]
            0 <= k < rows.len() ==> air_cell(
                math,
                engine,
                rows[k],
                altitude,
                sample_at(altitude, "altitudes must be finite")->Ok_0,
                machs,
                throttle,
                k,
            ),
{
    let altitudes = seq![altitude];
    assert(altitudes[0] == altitude);
    let sample = sample_at(altitude, "altitudes must be finite")->Ok_0;
    let none = Seq::<AirAltitudePoint>::empty();
    let first = air_rows_at(math, engine, altitude, sample, machs, throttle, 0, none)->Ok_0;
    assert(air_rows_from(math, engine, altitudes, machs, throttle, 1, first) == Ok::<Seq<AirAltitudePoint>, Fault>(
        first,
    ));
    lemma_air_cells(math, engine, altitude, sample, machs, throttle, 0, none, rows);
}

/// One altitude more adds its own rows behind those before it.
pub proof fn lemma_air_table_grows<M: Numerics>(
    math: &M,
    engine: &CompiledAirbreather,
    altitudes: Seq<SampledAltitude>,
    machs: Seq<F64>,
    throttle: F64,
    i: int,
    done: Seq<AirAltitudePoint>,
    rows: Seq<AirAltitudePoint>,
)
    requires
        0 <= i < altitudes.len(),
        air_rows_from(math, engine, altitudes, machs, throttle, i, done) == Ok::<Seq<AirAltitudePoint>, Fault>(rows),
    ensures
        rows.len() == done.len() + (altitudes.len() - i) * machs.len(),
        forall|k: int| #![trigger rows[k]] 0 <= k < done.len() ==> rows[k] == done[k],
        forall|k: int|
            #![trigger rows[k]]
            done.len() <= k < done.len() + machs.len() ==> air_cell(
                math,
                engine,
                rows[k],
                altitudes[i],
                sample_at(altitudes[i], "altitudes must be finite")->Ok_0,
                machs,
                throttle,
                k - done.len(),
            ),
    decreases altitudes.len() - i,
{
    let sample = sample_at(altitudes[i], "altitudes must be finite")->Ok_0;
    let next = air_rows_at(math, engine, altitudes[i], sample, machs, throttle, 0, done)->Ok_0;
    lemma_air_cells(math, engine, altitudes[i], sample, machs, throttle, 0, done, next);
    let (left, each) = (altitudes.len() - i, machs.len() as int);
    assert(left * each == (left - 1) * each + each) by (nonlinear_arith);
    if i + 1 < altitudes.len() {
        lemma_air_table_grows(math, engine, altitudes, machs, throttle, i + 1, next, rows);
        assert forall|k: int| #![trigger rows[k]] 0 <= k < next.len() implies rows[k] == next[k] by {}
    } else {
        assert(air_rows_from(math, engine, altitudes, machs, throttle, i + 1, next) == Ok::<
            Seq<AirAltitudePoint>,
            Fault,
        >(next));
        assert(rows == next);
        assert((left - 1) * each == 0) by (nonlinear_arith)
            requires
                left == 1,
        ;
    }
    assert forall|k: int| #![trigger rows[k]] 0 <= k < done.len() implies rows[k] == done[k] by {
        assert(next[k] == done[k]);
    }
    assert forall|k: int| #![trigger rows[k]] done.len() <= k < done.len() + machs.len() implies air_cell(
        math,
        engine,
        rows[k],
        altitudes[i],
        sample,
        machs,
        throttle,
        k - done.len(),
    ) by {
        assert(rows[k] == next[k]);
    }
}

/// A row of a combined-cycle engine's table reads its point.
pub proof fn lemma_estoc_row(altitude_m: F64, mach: F64, ambient_pa: F64, point: EstocPoint)
    ensures
        ({
            let row = estoc_row(altitude_m, mach, ambient_pa, point);
            &&& row.altitude_m == altitude_m && row.mach == mach && row.ambient_pa == ambient_pa
            &&& row.mode == point.mode && row.thrust_n == point.thrust_n && row.isp_total_s == point.isp_total_s
            &&& row.fuel_flow_kg_s == point.fuel_flow_kg_s && row.bulk_fuel_flow_kg_s == point.bulk_fuel_flow_kg_s
            &&& row.boost_fuel_flow_kg_s == point.boost_fuel_flow_kg_s
            &&& row.oxidizer_flow_kg_s == point.oxidizer_flow_kg_s && row.air_flow_kg_s == point.air_flow_kg_s
            &&& row.precooler_saturated == point.precooler_saturated
        }),
{
}

} // verus!
