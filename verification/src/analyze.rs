//! Thrust and Isp versus altitude at fixed throttle.
use crate::atmosphere::{AtmosphereSample, SampledAltitude};
use crate::engine::{CompiledEngine, EngineOperatingPoint};
use crate::error::{bad_spec, invalid_spec, seen, Fault, PropulsionError};
use crate::float::F64;
use crate::numerics::{repeatable, Numerics};
use crate::text::join;
use vstd::prelude::*;

verus! {

/// One altitude row of the performance analysis.
#[derive(Debug, Clone, Copy, PartialEq)]
pub struct AltitudePoint {
    pub altitude_m: F64,
    pub ambient_pa: F64,
    pub thrust_n: F64,
    pub isp_s: F64,
    pub mass_flow_kg_s: F64,
    pub separation_risk: bool,
}

/// [`altitude_point`] in contracts.
pub open spec fn altitude_point_spec(altitude_m: F64, ambient_pa: F64, point: EngineOperatingPoint) -> AltitudePoint {
    AltitudePoint {
        altitude_m,
        ambient_pa,
        thrust_n: point.thrust_n,
        isp_s: point.isp_s,
        mass_flow_kg_s: point.mass_flow_kg_s,
        separation_risk: point.separation_risk,
    }
}

/// The row of an operating point.
#[verifier::when_used_as_spec(altitude_point_spec)]
pub fn altitude_point(altitude_m: F64, ambient_pa: F64, point: EngineOperatingPoint) -> (r: AltitudePoint)
    ensures
        r == altitude_point(altitude_m, ambient_pa, point),
{
    AltitudePoint {
        altitude_m,
        ambient_pa,
        thrust_n: point.thrust_n,
        isp_s: point.isp_s,
        mass_flow_kg_s: point.mass_flow_kg_s,
        separation_risk: point.separation_risk,
    }
}

/// The row of one altitude, or what stops it.
pub open spec fn row_at<M: Numerics>(
    math: &M,
    engine: &CompiledEngine,
    row: SampledAltitude,
    throttle: F64,
    burn_time_s: F64,
) -> Result<AltitudePoint, Fault> {
    if !row.altitude_m.is_finite() {
        Err(bad_spec("analyzer altitudes must be finite"))
    } else {
        match row.sample {
            Err(reason) => Err(Fault::InvalidSpec("atmosphere sample: "@ + reason@)),
            Ok(sample) => match engine.point(math, throttle, sample.pressure_pa, burn_time_s) {
                Err(fault) => Err(fault),
                Ok(point) => Ok(altitude_point(row.altitude_m, sample.pressure_pa, point)),
            },
        }
    }
}

/// The rows of some altitudes in their order; the first one that cannot be
/// analyzed stops the analysis.
pub open spec fn rows_of<M: Numerics>(
    math: &M,
    engine: &CompiledEngine,
    altitudes: Seq<SampledAltitude>,
    throttle: F64,
    burn_time_s: F64,
) -> Result<Seq<AltitudePoint>, Fault>
    decreases altitudes.len(),
{
    if altitudes.len() == 0 {
        Ok(Seq::empty())
    } else {
        match rows_of(math, engine, altitudes.drop_last(), throttle, burn_time_s) {
            Err(fault) => Err(fault),
            Ok(rows) => match row_at(math, engine, altitudes.last(), throttle, burn_time_s) {
                Err(fault) => Err(fault),
                Ok(row) => Ok(rows.push(row)),
            },
        }
    }
}

/// The fault of a prefix is the fault of the whole.
proof fn lemma_rows_prefix<M: Numerics>(
    math: &M,
    engine: &CompiledEngine,
    altitudes: Seq<SampledAltitude>,
    throttle: F64,
    burn_time_s: F64,
    n: int,
)
    requires
        0 <= n <= altitudes.len(),
        rows_of(math, engine, altitudes.take(n), throttle, burn_time_s) is Err,
    ensures
        rows_of(math, engine, altitudes, throttle, burn_time_s) == rows_of(
            math,
            engine,
            altitudes.take(n),
            throttle,
            burn_time_s,
        ),
    decreases altitudes.len(),
{
    if n == altitudes.len() {
        assert(altitudes.take(n) =~= altitudes);
    } else {
        assert(altitudes.drop_last().take(n) =~= altitudes.take(n));
        lemma_rows_prefix(math, engine, altitudes.drop_last(), throttle, burn_time_s, n);
    }
}

fn row_of<M: Numerics>(
    math: &M,
    engine: &CompiledEngine,
    row: &SampledAltitude,
    throttle: F64,
    burn_time_s: F64,
) -> (r: Result<
    AltitudePoint,
    PropulsionError,
>)
    ensures
        repeatable(math) ==> seen(r) == row_at(math, engine, *row, throttle, burn_time_s),
{
    if !row.altitude_m.is_finite() {
        return Err(invalid_spec("analyzer altitudes must be finite"));
    }
    let sample: AtmosphereSample = match &row.sample {
        Ok(sample) => *sample,
        Err(reason) => {
            return Err(PropulsionError::InvalidSpec(join("atmosphere sample: ", reason.as_str())));
        },
    };
    let point: EngineOperatingPoint = engine.operating_point(math, throttle, sample.pressure_pa, burn_time_s)?;
    Ok(altitude_point(row.altitude_m, sample.pressure_pa, point))
}

/// Thrust and Isp versus altitude at fixed throttle and (for solids) burn time.
pub fn analyze_altitude<M: Numerics>(
    math: &M,
    engine: &CompiledEngine,
    altitudes: &Vec<SampledAltitude>,
    throttle: F64,
    burn_time_s: F64,
) -> (r: Result<Vec<AltitudePoint>, PropulsionError>)
    ensures
        altitudes@.len() == 0 ==> seen(r) == Err::<Vec<AltitudePoint>, Fault>(
            bad_spec("analyzer needs at least one altitude"),
        ),
        repeatable(math) && altitudes@.len() > 0 ==> match rows_of(math, engine, altitudes@, throttle, burn_time_s) {
            Err(fault) => seen(r) == Err::<Vec<AltitudePoint>, Fault>(fault),
            Ok(rows) => r is Ok && r->Ok_0@ == rows,
        },
{
    if altitudes.len() == 0 {
        return Err(invalid_spec("analyzer needs at least one altitude"));
    }
    let mut points: Vec<AltitudePoint> = Vec::new();
    let mut i: usize = 0;
    assert(altitudes@.take(0) =~= Seq::empty());
    while i < altitudes.len()
        invariant
            i <= altitudes@.len(),
            altitudes@.len() > 0,
            repeatable(math) ==> rows_of(math, engine, altitudes@.take(i as int), throttle, burn_time_s) == Ok::<
                Seq<AltitudePoint>,
                Fault,
            >(points@),
        decreases altitudes@.len() - i,
    {
        proof {
            let next = altitudes@.take(i + 1);
            assert(next.drop_last() =~= altitudes@.take(i as int));
            assert(next.last() == altitudes@[i as int]);
            if repeatable(math) && rows_of(math, engine, next, throttle, burn_time_s) is Err {
                lemma_rows_prefix(math, engine, altitudes@, throttle, burn_time_s, i + 1);
            }
        }
        points.push(row_of(math, engine, &altitudes[i], throttle, burn_time_s)?);
        i = i + 1;
    }
    assert(altitudes@.take(i as int) =~= altitudes@);
    Ok(points)
}

} // verus!
