//! Solid rocket motors: grain authoring compiled into an equilibrium burn trace.
use crate::constants::{
    aerospike_base_fraction, mass_fit_feed_kg_per_n, mass_fit_gimbal_base_kg, mass_fit_gimbal_kg_per_n,
    mass_fit_mount_kg_per_n, mass_fit_solid_igniter_kg, pressure_safety_factor, sea_level_pa, standard_gravity_mps2,
};
use crate::error::{
    bad_spec, checks, invalid_spec, outcome, require_non_negative, require_positive, seen, Fault, PropulsionError,
};
use crate::float::{dec, pi, whole, zero, F64};
use crate::liquid::divergence_of;
use crate::material::ChamberMaterial;
use crate::nozzle::{
    characteristic_velocity, exit_for, nozzle_exit, pressure_ratio_at, thrust_coefficient, NozzleContour,
    NozzleExitState,
};
use crate::numerics::{atan, powf, powi, repeatable, Numerics};
use crate::propellant::{Propellant, PropellantThermo};
use crate::text::{blank, copied, is_blank};
use vstd::prelude::*;

verus! {

/// The most stations a burn trace may have before the grain is refused.
pub const MAX_BURN_STATIONS: usize = 100_000;

/// Cylindrical-port grain authoring.
#[derive(Debug, Clone, PartialEq)]
pub struct SolidMotorSpec {
    pub name: String,
    /// Thermo is read from the propellant, so that other chemistries plug in.
    pub propellant: Propellant,
    /// Grain outer radius (m).
    pub outer_radius_m: F64,
    /// Initial port (core) radius (m).
    pub core_radius_m: F64,
    /// Grain length per segment (m).
    pub segment_length_m: F64,
    /// Number of segments.
    pub segments: u32,
    /// Burn-rate coefficient a in r = a * Pc^n (m/s/Pa^n).
    pub burn_rate_coeff: F64,
    /// Burn-rate exponent n (must be < 1 for stable equilibrium).
    pub burn_rate_exponent: F64,
    pub throat_radius_m: F64,
    pub expansion_ratio: F64,
    pub nozzle_length_m: F64,
    pub contour: NozzleContour,
    pub casing_material: ChamberMaterial,
    /// Inhibited segment ends (neutral trace); exposed ends burn too.
    pub inhibited_ends: bool,
    /// Per-segment initial port radii (m) for a stepped channel; `None` =
    /// uniform `core_radius_m`.
    pub segment_core_radii_m: Option<Vec<F64>>,
    pub gimbal_range_rad: F64,
    /// Ignition shots carried (solids are single-shot by default).
    pub ignition_shots: u32,
}

/// One web station of a compiled burn trace. Altitude replay varies only the
/// pressure term, which is exact for a choked motor at frozen chamber pressure.
#[derive(Debug, Clone, Copy, PartialEq)]
pub struct BurnPoint {
    pub time_s: F64,
    pub web_burned_m: F64,
    pub chamber_pa: F64,
    pub mass_flow_kg_s: F64,
    pub thrust_sl_n: F64,
    pub thrust_vac_n: F64,
}

/// Compiled solid motor with its equilibrium burn trace.
#[derive(Debug, Clone, PartialEq)]
pub struct CompiledSolid {
    pub name: String,
    pub propellant: Propellant,
    pub throat_area_m2: F64,
    pub throat_radius_m: F64,
    pub expansion_ratio: F64,
    pub exit_radius_m: F64,
    pub divergence_factor: F64,
    pub gamma: F64,
    pub chamber_temp_k: F64,
    pub gas_constant_j_kg_k: F64,
    pub c_star_mps: F64,
    pub exit_mach: F64,
    pub exit_temp_k: F64,
    pub exhaust_velocity_mps: F64,
    pub burn_curve: Vec<BurnPoint>,
    pub burn_time_s: F64,
    pub total_impulse_ns: F64,
    pub propellant_mass_kg: F64,
    pub avg_isp_s: F64,
    pub peak_pressure_pa: F64,
    pub peak_thrust_sl_n: F64,
    pub dry_mass_kg: F64,
    pub grain_outer_radius_m: F64,
    pub grain_length_m: F64,
    pub ignition_shots: u32,
    pub gimbal_range_rad: F64,
    pub contour: NozzleContour,
    /// Aerospike base area exposed to ambient (m^2, 0 for bell and cone).
    pub aerospike_base_area_m2: F64,
}

/// Chamber and nozzle of a motor, frozen over the burn.
#[derive(Debug, Clone, Copy, PartialEq)]
pub struct FrozenNozzle {
    pub thermo: PropellantThermo,
    pub c_star_mps: F64,
    pub throat_area_m2: F64,
    pub exit_radius_m: F64,
    pub exit: NozzleExitState,
    pub divergence: F64,
}

/// How far a burn has come: the web burned in each segment, the clock, the
/// stations recorded, and the peaks over the stations after ignition.
pub struct Burn {
    pub burned: Seq<F64>,
    pub time_s: F64,
    pub stations: Seq<BurnPoint>,
    pub peak_pressure_pa: F64,
    pub peak_thrust_n: F64,
}

/// The web of each segment.
pub open spec fn webs_of(outer: F64, cores: Seq<F64>) -> Seq<F64> {
    Seq::new(cores.len(), |i: int| outer - cores[i])
}

/// The greatest of some values, counted from zero.
pub open spec fn greatest(values: Seq<F64>) -> F64
    decreases values.len(),
{
    if values.len() == 0 {
        zero()
    } else {
        greatest(values.drop_last()).max(values.last())
    }
}

/// Every segment advanced by `step`, none beyond its web.
pub open spec fn advanced(burned: Seq<F64>, webs: Seq<F64>, step: F64) -> Seq<F64> {
    Seq::new(
        burned.len(),
        |i: int|
            if burned[i] < webs[i] {
                (burned[i] + step).min(webs[i])
            } else {
                burned[i]
            },
    )
}

/// Whether no segment has web left.
pub open spec fn burned_through(burned: Seq<F64>, webs: Seq<F64>) -> bool {
    forall|i: int| 0 <= i < burned.len() ==> !(#[trigger] burned[i] < webs[i])
}

/// Trapezoidal integral of vacuum thrust over the stations (N s).
pub open spec fn impulse_over(stations: Seq<BurnPoint>) -> F64
    decreases stations.len(),
{
    if stations.len() < 2 {
        zero()
    } else {
        let a = stations[stations.len() - 2];
        let b = stations[stations.len() - 1];
        impulse_over(stations.drop_last()) + dec(5, 1) * (a.thrust_vac_n + b.thrust_vac_n) * (b.time_s - a.time_s)
    }
}

/// Trapezoidal integral of mass flow over the stations (kg).
pub open spec fn propellant_over(stations: Seq<BurnPoint>) -> F64
    decreases stations.len(),
{
    if stations.len() < 2 {
        zero()
    } else {
        let a = stations[stations.len() - 2];
        let b = stations[stations.len() - 1];
        propellant_over(stations.drop_last()) + dec(5, 1) * (a.mass_flow_kg_s + b.mass_flow_kg_s) * (b.time_s - a.time_s)
    }
}

/// [`impulse_along`] in contracts.
pub open spec fn impulse_along_spec(curve: &Vec<BurnPoint>) -> F64 {
    impulse_over(curve@)
}

#[verifier::when_used_as_spec(impulse_along_spec)]
pub fn impulse_along(curve: &Vec<BurnPoint>) -> (r: F64)
    ensures
        r == impulse_along(curve),
{
    let mut total: F64 = zero();
    let mut i: usize = 1;
    proof {
        if curve@.len() > 0 {
            assert(curve@.take(1).len() == 1);
            assert(impulse_over(curve@.take(1)) == zero());
        }
    }
    while i < curve.len()
        invariant
            1 <= i,
            i <= curve@.len() || curve@.len() == 0,
            total == if curve@.len() == 0 { zero() } else { impulse_over(curve@.take(i as int)) },
        decreases curve@.len() - i,
    {
        let a: BurnPoint = curve[i - 1];
        let b: BurnPoint = curve[i];
        proof {
            let next = curve@.take(i + 1);
            assert(next.drop_last() =~= curve@.take(i as int));
        }
        total = total + dec(5, 1) * (a.thrust_vac_n + b.thrust_vac_n) * (b.time_s - a.time_s);
        i = i + 1;
    }
    proof {
        if curve@.len() > 0 {
            assert(curve@.take(i as int) =~= curve@);
        }
    }
    total
}

/// [`propellant_along`] in contracts.
pub open spec fn propellant_along_spec(curve: &Vec<BurnPoint>) -> F64 {
    propellant_over(curve@)
}

#[verifier::when_used_as_spec(propellant_along_spec)]
pub fn propellant_along(curve: &Vec<BurnPoint>) -> (r: F64)
    ensures
        r == propellant_along(curve),
{
    let mut total: F64 = zero();
    let mut i: usize = 1;
    proof {
        if curve@.len() > 0 {
            assert(curve@.take(1).len() == 1);
            assert(propellant_over(curve@.take(1)) == zero());
        }
    }
    while i < curve.len()
        invariant
            1 <= i,
            i <= curve@.len() || curve@.len() == 0,
            total == if curve@.len() == 0 { zero() } else { propellant_over(curve@.take(i as int)) },
        decreases curve@.len() - i,
    {
        let a: BurnPoint = curve[i - 1];
        let b: BurnPoint = curve[i];
        proof {
            let next = curve@.take(i + 1);
            assert(next.drop_last() =~= curve@.take(i as int));
        }
        total = total + dec(5, 1) * (a.mass_flow_kg_s + b.mass_flow_kg_s) * (b.time_s - a.time_s);
        i = i + 1;
    }
    proof {
        if curve@.len() > 0 {
            assert(curve@.take(i as int) =~= curve@);
        }
    }
    total
}

fn greatest_of(values: &Vec<F64>) -> (r: F64)
    ensures
        r == greatest(values@),
{
    let mut best: F64 = zero();
    let mut i: usize = 0;
    assert(greatest(values@.take(0)) == zero());
    while i < values.len()
        invariant
            i <= values@.len(),
            best == greatest(values@.take(i as int)),
        decreases values@.len() - i,
    {
        proof {
            let next = values@.take(i + 1);
            assert(next.drop_last() =~= values@.take(i as int));
        }
        best = best.max(values[i]);
        i = i + 1;
    }
    assert(values@.take(i as int) =~= values@);
    best
}

impl SolidMotorSpec {
    /// [`apcp_ballistics`] in contracts.
    pub open spec fn apcp_ballistics_spec() -> (F64, F64) {
        (dec(4, 5), dec(35, 2))
    }

    /// Reference composite-propellant ballistics: about 10 mm/s at 7 MPa.
    #[verifier::when_used_as_spec(apcp_ballistics_spec)]
    pub fn apcp_ballistics() -> (r: (F64, F64))
        ensures
            r == Self::apcp_ballistics(),
    {
        (dec(4, 5), dec(35, 2))
    }

    /// The first thing wrong with the port radii from the `i`th on.
    pub open spec fn radii_fault(&self, radii: Seq<F64>, i: int) -> Option<Fault>
        decreases radii.len() - i,
    {
        if i < 0 || i >= radii.len() {
            None
        } else {
            match checks().positive(radii[i], "segment port radius").refuse(
                !(radii[i] < self.outer_radius_m),
                bad_spec("segment port must be smaller than the outer radius"),
            ).fault {
                Some(fault) => Some(fault),
                None => self.radii_fault(radii, i + 1),
            }
        }
    }

    /// What is wrong with the authoring values, if anything.
    pub open spec fn fault(&self) -> Option<Fault> {
        let first = checks()
            .refuse(blank(self.name@), bad_spec("motor name must not be empty"))
            .refuse(!self.propellant.is_solid(), bad_spec("grain ballistics need a solid propellant"))
            .positive(self.outer_radius_m, "grain outer radius")
            .positive(self.core_radius_m, "grain core radius")
            .refuse(
                !(self.core_radius_m < self.outer_radius_m),
                bad_spec("grain core must be smaller than the outer radius"),
            )
            .positive(self.segment_length_m, "grain segment length")
            .refuse(self.segments == 0 || self.segments > 16, bad_spec("segments must be in 1..=16"))
            .positive(self.burn_rate_coeff, "burn-rate coefficient")
            .refuse(
                !(self.burn_rate_exponent > zero()) || !(self.burn_rate_exponent < whole(1)),
                bad_spec("burn-rate exponent must be in (0, 1): n >= 1 has no stable pressure equilibrium"),
            )
            .positive(self.throat_radius_m, "throat radius")
            .refuse(!(self.expansion_ratio >= whole(1)), bad_spec("expansion ratio must be finite and >= 1"))
            .positive(self.nozzle_length_m, "nozzle length")
            .part(self.casing_material.fault())
            .non_negative(self.gimbal_range_rad, "gimbal range");
        let second = match self.segment_core_radii_m {
            None => first,
            Some(radii) => first.refuse(
                radii@.len() != self.segments,
                bad_spec("segment port radii must match the segment count"),
            ).part(self.radii_fault(radii@, 0)),
        };
        second.refuse(self.ignition_shots == 0, bad_spec("a solid motor with zero shots can never ignite")).fault
    }

    fn check_radii(&self, radii: &Vec<F64>) -> (r: Result<(), PropulsionError>)
        ensures
            seen(r) == outcome(self.radii_fault(radii@, 0)),
    {
        let mut i: usize = 0;
        while i < radii.len()
            invariant
                i <= radii@.len(),
                self.radii_fault(radii@, 0) == self.radii_fault(radii@, i as int),
            decreases radii@.len() - i,
        {
            require_positive(radii[i], "segment port radius")?;
            if !(radii[i] < self.outer_radius_m) {
                return Err(invalid_spec("segment port must be smaller than the outer radius"));
            }
            i = i + 1;
        }
        Ok(())
    }

    /// Validates the authoring values (NaN fails closed).
    pub fn validate(&self) -> (r: Result<(), PropulsionError>)
        ensures
            seen(r) == outcome(self.fault()),
    {
        if is_blank(self.name.as_str()) {
            return Err(invalid_spec("motor name must not be empty"));
        }
        if !self.propellant.is_solid() {
            return Err(invalid_spec("grain ballistics need a solid propellant"));
        }
        require_positive(self.outer_radius_m, "grain outer radius")?;
        require_positive(self.core_radius_m, "grain core radius")?;
        if !(self.core_radius_m < self.outer_radius_m) {
            return Err(invalid_spec("grain core must be smaller than the outer radius"));
        }
        require_positive(self.segment_length_m, "grain segment length")?;
        if self.segments == 0 || self.segments > 16 {
            return Err(invalid_spec("segments must be in 1..=16"));
        }
        require_positive(self.burn_rate_coeff, "burn-rate coefficient")?;
        if !(self.burn_rate_exponent > zero()) || !(self.burn_rate_exponent < whole(1)) {
            return Err(
                invalid_spec("burn-rate exponent must be in (0, 1): n >= 1 has no stable pressure equilibrium"),
            );
        }
        require_positive(self.throat_radius_m, "throat radius")?;
        if !(self.expansion_ratio >= whole(1)) {
            return Err(invalid_spec("expansion ratio must be finite and >= 1"));
        }
        require_positive(self.nozzle_length_m, "nozzle length")?;
        self.casing_material.validate()?;
        require_non_negative(self.gimbal_range_rad, "gimbal range")?;
        if let Some(radii) = &self.segment_core_radii_m {
            if radii.len() as u64 != self.segments as u64 {
                return Err(invalid_spec("segment port radii must match the segment count"));
            }
            self.check_radii(radii)?;
        }
        if self.ignition_shots == 0 {
            return Err(invalid_spec("a solid motor with zero shots can never ignite"));
        }
        Ok(())
    }

    /// Initial port radius of each segment.
    pub open spec fn cores(&self) -> Seq<F64> {
        match self.segment_core_radii_m {
            Some(radii) => radii@,
            None => Seq::new(self.segments as nat, |i: int| self.core_radius_m),
        }
    }

    fn core_radii(&self) -> (r: Vec<F64>)
        ensures
            r@ == self.cores(),
    {
        let mut cores: Vec<F64> = Vec::new();
        match &self.segment_core_radii_m {
            Some(radii) => {
                let mut i: usize = 0;
                while i < radii.len()
                    invariant
                        i <= radii@.len(),
                        cores@ =~= radii@.take(i as int),
                    decreases radii@.len() - i,
                {
                    cores.push(radii[i]);
                    i = i + 1;
                }
                assert(radii@.take(i as int) =~= radii@);
            },
            None => {
                let mut i: u32 = 0;
                while i < self.segments
                    invariant
                        i <= self.segments,
                        cores@ =~= Seq::new(i as nat, |k: int| self.core_radius_m),
                    decreases self.segments - i,
                {
                    cores.push(self.core_radius_m);
                    i = i + 1;
                }
            },
        }
        cores
    }

    /// Burning surface of the first `n` segments (m^2).
    pub open spec fn burn_area(&self, cores: Seq<F64>, burned: Seq<F64>, n: nat) -> F64
        decreases n,
    {
        if n == 0 {
            zero()
        } else {
            let before = self.burn_area(cores, burned, (n - 1) as nat);
            let core = cores[n - 1];
            if burned[n - 1] >= self.outer_radius_m - core {
                before
            } else {
                let port_m = core + burned[n - 1];
                let bore = before + pi() * whole(2) * port_m * self.segment_length_m;
                if self.inhibited_ends {
                    bore
                } else {
                    bore + whole(2) * pi() * (self.outer_radius_m * self.outer_radius_m - port_m * port_m)
                }
            }
        }
    }

    fn burn_area_at(&self, cores: &Vec<F64>, webs: &Vec<F64>, burned: &Vec<F64>) -> (r: F64)
        requires
            webs@ == webs_of(self.outer_radius_m, cores@),
            burned@.len() == cores@.len(),
        ensures
            r == self.burn_area(cores@, burned@, cores@.len()),
    {
        let mut area_m2: F64 = zero();
        let mut i: usize = 0;
        while i < cores.len()
            invariant
                i <= cores@.len(),
                webs@ == webs_of(self.outer_radius_m, cores@),
                burned@.len() == cores@.len(),
                area_m2 == self.burn_area(cores@, burned@, i as nat),
            decreases cores@.len() - i,
        {
            if !(burned[i] >= webs[i]) {
                let port_m: F64 = cores[i] + burned[i];
                area_m2 = area_m2 + pi() * whole(2) * port_m * self.segment_length_m;
                if !self.inhibited_ends {
                    area_m2 = area_m2 + whole(2) * pi() * (self.outer_radius_m * self.outer_radius_m - port_m * port_m);
                }
            }
            i = i + 1;
        }
        area_m2
    }

    /// [`Self::frozen_nozzle`] in contracts.
    pub open spec fn frozen_nozzle_spec<M: Numerics>(
        &self,
        math: &M,
        thermo: &PropellantThermo,
        exit: &NozzleExitState,
    ) -> FrozenNozzle {
        let exit_radius_m = self.throat_radius_m * self.expansion_ratio.sqrt();
        let wall_slope = (exit_radius_m - self.throat_radius_m) / self.nozzle_length_m;
        FrozenNozzle {
            thermo: *thermo,
            c_star_mps: characteristic_velocity(math, thermo),
            throat_area_m2: pi() * self.throat_radius_m * self.throat_radius_m,
            exit_radius_m,
            exit: *exit,
            divergence: divergence_of(math, self.contour, atan(math, wall_slope)),
        }
    }

    /// Chamber and nozzle for a solved exit state.
    #[verifier::when_used_as_spec(frozen_nozzle_spec)]
    pub fn frozen_nozzle<M: Numerics>(
        &self,
        math: &M,
        thermo: &PropellantThermo,
        exit: &NozzleExitState,
    ) -> (r: FrozenNozzle)
        ensures
            repeatable(math) ==> r == self.frozen_nozzle(math, thermo, exit),
    {
        let exit_radius_m = self.throat_radius_m * self.expansion_ratio.sqrt();
        let wall_slope = (exit_radius_m - self.throat_radius_m) / self.nozzle_length_m;
        FrozenNozzle {
            thermo: *thermo,
            c_star_mps: characteristic_velocity(math, thermo),
            throat_area_m2: pi() * self.throat_radius_m * self.throat_radius_m,
            exit_radius_m,
            exit: *exit,
            divergence: divergence_of(math, self.contour, atan(math, wall_slope)),
        }
    }

    /// [`Self::equilibrium_pa`] in contracts.
    pub open spec fn equilibrium_pa_spec<M: Numerics>(&self, math: &M, nozzle: &FrozenNozzle, area_m2: F64) -> F64 {
        powf(
            math,
            area_m2 * self.burn_rate_coeff * nozzle.thermo.bulk_density_kg_m3 * nozzle.c_star_mps / nozzle.throat_area_m2,
            whole(1) / (whole(1) - self.burn_rate_exponent),
        )
    }

    /// Equilibrium chamber pressure of a burning surface (Pa).
    #[verifier::when_used_as_spec(equilibrium_pa_spec)]
    pub fn equilibrium_pa<M: Numerics>(&self, math: &M, nozzle: &FrozenNozzle, area_m2: F64) -> (r: F64)
        ensures
            repeatable(math) ==> r == self.equilibrium_pa(math, nozzle, area_m2),
    {
        powf(
            math,
            area_m2 * self.burn_rate_coeff * nozzle.thermo.bulk_density_kg_m3 * nozzle.c_star_mps / nozzle.throat_area_m2,
            whole(1) / (whole(1) - self.burn_rate_exponent),
        )
    }

    /// [`Self::burn_rate_mps`] in contracts.
    pub open spec fn burn_rate_mps_spec<M: Numerics>(&self, math: &M, chamber_pa: F64) -> F64 {
        self.burn_rate_coeff * powf(math, chamber_pa, self.burn_rate_exponent)
    }

    /// Burn rate at a chamber pressure (m/s).
    #[verifier::when_used_as_spec(burn_rate_mps_spec)]
    pub fn burn_rate_mps<M: Numerics>(&self, math: &M, chamber_pa: F64) -> (r: F64)
        ensures
            repeatable(math) ==> r == self.burn_rate_mps(math, chamber_pa),
    {
        self.burn_rate_coeff * powf(math, chamber_pa, self.burn_rate_exponent)
    }

    /// Equilibrium chamber pressure, where it is physical.
    pub open spec fn pressure<M: Numerics>(&self, math: &M, nozzle: &FrozenNozzle, area_m2: F64) -> Result<F64, Fault> {
        let chamber_pa = self.equilibrium_pa(math, nozzle, area_m2);
        if !chamber_pa.is_finite() || chamber_pa <= zero() {
            Err(bad_spec("grain equilibrium pressure is non-physical"))
        } else {
            Ok(chamber_pa)
        }
    }

    fn pressure_at<M: Numerics>(
        &self,
        math: &M,
        nozzle: &FrozenNozzle,
        area_m2: F64,
    ) -> (r: Result<F64, PropulsionError>)
        ensures
            repeatable(math) ==> seen(r) == self.pressure(math, nozzle, area_m2),
    {
        let chamber_pa: F64 = self.equilibrium_pa(math, nozzle, area_m2);
        if !chamber_pa.is_finite() || chamber_pa <= zero() {
            return Err(invalid_spec("grain equilibrium pressure is non-physical"));
        }
        Ok(chamber_pa)
    }

    /// [`Self::lit_station`] in contracts.
    pub open spec fn lit_station_spec<M: Numerics>(
        &self,
        math: &M,
        nozzle: &FrozenNozzle,
        time_s: F64,
        web_burned_m: F64,
        area_m2: F64,
        chamber_pa: F64,
    ) -> BurnPoint {
        let mass_flow_kg_s = nozzle.thermo.bulk_density_kg_m3 * area_m2 * self.burn_rate_mps(math, chamber_pa);
        let thrust_sl_n = thrust_coefficient(
            math,
            &nozzle.thermo,
            chamber_pa,
            &nozzle.exit,
            self.expansion_ratio,
            sea_level_pa(),
            nozzle.divergence,
        ) * chamber_pa * nozzle.throat_area_m2;
        let thrust_vac_n = thrust_coefficient(
            math,
            &nozzle.thermo,
            chamber_pa,
            &nozzle.exit,
            self.expansion_ratio,
            zero(),
            nozzle.divergence,
        ) * chamber_pa * nozzle.throat_area_m2;
        BurnPoint { time_s, web_burned_m, chamber_pa, mass_flow_kg_s, thrust_sl_n, thrust_vac_n }
    }

    /// The station at a burning surface and its chamber pressure.
    #[verifier::when_used_as_spec(lit_station_spec)]
    pub fn lit_station<M: Numerics>(
        &self,
        math: &M,
        nozzle: &FrozenNozzle,
        time_s: F64,
        web_burned_m: F64,
        area_m2: F64,
        chamber_pa: F64,
    ) -> (r: BurnPoint)
        ensures
            repeatable(math) ==> r == self.lit_station(math, nozzle, time_s, web_burned_m, area_m2, chamber_pa),
    {
        let mass_flow_kg_s = nozzle.thermo.bulk_density_kg_m3 * area_m2 * self.burn_rate_mps(math, chamber_pa);
        let thrust_sl_n = thrust_coefficient(
            math,
            &nozzle.thermo,
            chamber_pa,
            &nozzle.exit,
            self.expansion_ratio,
            sea_level_pa(),
            nozzle.divergence,
        ) * chamber_pa * nozzle.throat_area_m2;
        let thrust_vac_n = thrust_coefficient(
            math,
            &nozzle.thermo,
            chamber_pa,
            &nozzle.exit,
            self.expansion_ratio,
            zero(),
            nozzle.divergence,
        ) * chamber_pa * nozzle.throat_area_m2;
        BurnPoint { time_s, web_burned_m, chamber_pa, mass_flow_kg_s, thrust_sl_n, thrust_vac_n }
    }

    /// The station that a state of the web comes to; a grain burned through
    /// gives nothing any more.
    pub open spec fn station<M: Numerics>(
        &self,
        math: &M,
        nozzle: &FrozenNozzle,
        time_s: F64,
        burned: Seq<F64>,
        web_burned_m: F64,
    ) -> Result<BurnPoint, Fault> {
        let area_m2 = self.burn_area(self.cores(), burned, self.cores().len());
        match self.pressure(math, nozzle, area_m2) {
            Err(fault) => Err(fault),
            Ok(chamber_pa) => Ok(self.lit_station(math, nozzle, time_s, web_burned_m, area_m2, chamber_pa)),
        }
    }

    fn station_at<M: Numerics>(
        &self,
        math: &M,
        nozzle: &FrozenNozzle,
        time_s: F64,
        cores: &Vec<F64>,
        webs: &Vec<F64>,
        burned: &Vec<F64>,
        web_burned_m: F64,
    ) -> (r: Result<BurnPoint, PropulsionError>)
        requires
            cores@ == self.cores(),
            webs@ == webs_of(self.outer_radius_m, cores@),
            burned@.len() == cores@.len(),
        ensures
            repeatable(math) ==> seen(r) == self.station(math, nozzle, time_s, burned@, web_burned_m),
    {
        let area_m2: F64 = self.burn_area_at(cores, webs, burned);
        let chamber_pa: F64 = self.pressure_at(math, nozzle, area_m2)?;
        Ok(self.lit_station(math, nozzle, time_s, web_burned_m, area_m2, chamber_pa))
    }

    /// The burn from a state of it to burn-through, in steps of `dt_s`: each
    /// segment regresses its own port, and the common chamber pressure couples
    /// them through the total burning surface.
    pub open spec fn burn_on<M: Numerics>(
        &self,
        math: &M,
        nozzle: &FrozenNozzle,
        dt_s: F64,
        burn: Burn,
    ) -> Result<Burn, Fault>
        decreases MAX_BURN_STATIONS + 1 - burn.stations.len(),
    {
        let cores = self.cores();
        let webs = webs_of(self.outer_radius_m, cores);
        let area_m2 = self.burn_area(cores, burn.burned, cores.len());
        if area_m2 <= zero() {
            Ok(burn)
        } else {
            match self.pressure(math, nozzle, area_m2) {
                Err(fault) => Err(fault),
                Ok(chamber_pa) => {
                    let burned = advanced(burn.burned, webs, self.burn_rate_mps(math, chamber_pa) * dt_s);
                    let time_s = burn.time_s + dt_s;
                    let left_m2 = self.burn_area(cores, burned, cores.len());
                    let station = if left_m2 <= zero() {
                        Ok(burned_through_station(time_s, greatest(burned)))
                    } else {
                        self.station(math, nozzle, time_s, burned, greatest(burned))
                    };
                    match station {
                        Err(fault) => Err(fault),
                        Ok(point) => {
                            let next = Burn {
                                burned,
                                time_s,
                                stations: burn.stations.push(point),
                                peak_pressure_pa: burn.peak_pressure_pa.max(point.chamber_pa),
                                peak_thrust_n: burn.peak_thrust_n.max(point.thrust_sl_n),
                            };
                            if burned_through(burned, webs) {
                                Ok(next)
                            } else if next.stations.len() > MAX_BURN_STATIONS {
                                Err(bad_spec("grain does not burn through"))
                            } else {
                                self.burn_on(math, nozzle, dt_s, next)
                            }
                        },
                    }
                },
            }
        }
    }

    /// Nothing burned yet.
    pub open spec fn unburned(&self) -> Seq<F64> {
        Seq::new(self.cores().len(), |i: int| zero())
    }

    /// Time step: a four-hundredth of the greatest web at the initial burn rate.
    pub open spec fn time_step<M: Numerics>(&self, math: &M, nozzle: &FrozenNozzle) -> Result<F64, Fault> {
        let area_m2 = self.burn_area(self.cores(), self.unburned(), self.cores().len());
        match self.pressure(math, nozzle, area_m2) {
            Err(fault) => Err(fault),
            Ok(chamber_pa) => {
                let web_m = greatest(webs_of(self.outer_radius_m, self.cores()));
                let dt_s = web_m / self.burn_rate_mps(math, chamber_pa) / whole(400);
                if !dt_s.is_finite() || dt_s <= zero() {
                    Err(bad_spec("grain step sizing is non-physical"))
                } else {
                    Ok(dt_s)
                }
            },
        }
    }

    /// The whole burn, from ignition.
    pub open spec fn burn<M: Numerics>(&self, math: &M, nozzle: &FrozenNozzle) -> Result<Burn, Fault> {
        match self.time_step(math, nozzle) {
            Err(fault) => Err(fault),
            Ok(dt_s) => match self.station(math, nozzle, zero(), self.unburned(), zero()) {
                Err(fault) => Err(fault),
                Ok(point) => self.burn_on(
                    math,
                    nozzle,
                    dt_s,
                    Burn {
                        burned: self.unburned(),
                        time_s: zero(),
                        stations: seq![point],
                        peak_pressure_pa: zero(),
                        peak_thrust_n: zero(),
                    },
                ),
            },
        }
    }

    fn run_burn<M: Numerics>(
        &self,
        math: &M,
        nozzle: &FrozenNozzle,
    ) -> (r: Result<(Vec<BurnPoint>, F64, F64, F64), PropulsionError>)
        ensures
            repeatable(math) ==> match self.burn(math, nozzle) {
                Err(fault) => seen(r) == Err::<(Vec<BurnPoint>, F64, F64, F64), Fault>(fault),
                Ok(burn) => r is Ok && {
                    let (stations, time_s, pressure, thrust) = r->Ok_0;
                    stations@ == burn.stations && time_s == burn.time_s && pressure == burn.peak_pressure_pa && thrust
                        == burn.peak_thrust_n
                },
            },
            r is Ok ==> r->Ok_0.0@.len() >= 1,
    {
        let cores: Vec<F64> = self.core_radii();
        let mut webs: Vec<F64> = Vec::new();
        let mut burned: Vec<F64> = Vec::new();
        let mut i: usize = 0;
        while i < cores.len()
            invariant
                i <= cores@.len(),
                webs@ =~= webs_of(self.outer_radius_m, cores@).take(i as int),
                burned@ =~= Seq::new(i as nat, |k: int| zero()),
            decreases cores@.len() - i,
        {
            webs.push(self.outer_radius_m - cores[i]);
            burned.push(zero());
            i = i + 1;
        }
        assert(webs@ =~= webs_of(self.outer_radius_m, cores@));
        assert(burned@ =~= self.unburned());
        let area_m2: F64 = self.burn_area_at(&cores, &webs, &burned);
        let first_pa: F64 = self.pressure_at(math, nozzle, area_m2)?;
        let dt_s: F64 = greatest_of(&webs) / self.burn_rate_mps(math, first_pa) / whole(400);
        if !dt_s.is_finite() || dt_s <= zero() {
            return Err(invalid_spec("grain step sizing is non-physical"));
        }
        let first: BurnPoint = self.station_at(math, nozzle, zero(), &cores, &webs, &burned, zero())?;
        let mut stations: Vec<BurnPoint> = Vec::new();
        stations.push(first);
        let mut time_s: F64 = zero();
        let mut peak_pressure_pa: F64 = zero();
        let mut peak_thrust_n: F64 = zero();
        assert(stations@ =~= seq![first]);
        loop
            invariant
                cores@ == self.cores(),
                webs@ == webs_of(self.outer_radius_m, cores@),
                burned@.len() == cores@.len(),
                1 <= stations@.len() <= MAX_BURN_STATIONS,
                repeatable(math) ==> self.burn(math, nozzle) == self.burn_on(
                    math,
                    nozzle,
                    dt_s,
                    Burn { burned: burned@, time_s, stations: stations@, peak_pressure_pa, peak_thrust_n },
                ),
            decreases MAX_BURN_STATIONS + 1 - stations@.len(),
        {
            let ghost here = Burn { burned: burned@, time_s, stations: stations@, peak_pressure_pa, peak_thrust_n };
            let area_m2: F64 = self.burn_area_at(&cores, &webs, &burned);
            if area_m2 <= zero() {
                return Ok((stations, time_s, peak_pressure_pa, peak_thrust_n));
            }
            let chamber_pa: F64 = self.pressure_at(math, nozzle, area_m2)?;
            let step: F64 = self.burn_rate_mps(math, chamber_pa) * dt_s;
            let ghost before = burned@;
            let done: bool = advance_webs(&mut burned, &webs, step);
            let burned_max_m: F64 = greatest_of(&burned);
            time_s = time_s + dt_s;
            let left_m2: F64 = self.burn_area_at(&cores, &webs, &burned);
            let point: BurnPoint = if left_m2 <= zero() {
                burned_through_station(time_s, burned_max_m)
            } else {
                self.station_at(math, nozzle, time_s, &cores, &webs, &burned, burned_max_m)?
            };
            peak_pressure_pa = peak_pressure_pa.max(point.chamber_pa);
            peak_thrust_n = peak_thrust_n.max(point.thrust_sl_n);
            stations.push(point);
            if done {
                return Ok((stations, time_s, peak_pressure_pa, peak_thrust_n));
            }
            if stations.len() > MAX_BURN_STATIONS {
                return Err(invalid_spec("grain does not burn through"));
            }
        }
    }

    /// [`Self::assemble`] in contracts.
    pub open spec fn assemble_spec<M: Numerics>(
        &self,
        math: &M,
        nozzle: &FrozenNozzle,
        burn_curve: Vec<BurnPoint>,
        first: BurnPoint,
        burn_time_s: F64,
        later_peak_pa: F64,
        later_peak_n: F64,
    ) -> CompiledSolid {
        let peak_pressure_pa = later_peak_pa.max(first.chamber_pa);
        let peak_thrust_n = later_peak_n.max(first.thrust_sl_n);
        let total_impulse_ns = impulse_along(&burn_curve);
        let propellant_kg = propellant_along(&burn_curve);
        // Casing: cylinder plus hemispherical-cap allowance plus the nozzle.
        let grain_length_m = self.segment_length_m * whole(self.segments as u64);
        let case_thickness_m = peak_pressure_pa * whole(2) * self.outer_radius_m / (whole(2)
            * self.casing_material.yield_strength_pa) * pressure_safety_factor();
        let case_kg = whole(2) * pi() * self.outer_radius_m * grain_length_m * case_thickness_m
            * self.casing_material.density_kg_m3 * dec(13, 1);
        let slant_m = (self.nozzle_length_m * self.nozzle_length_m + powi(
            math,
            nozzle.exit_radius_m - self.throat_radius_m,
            2,
        )).sqrt();
        let cone_kg = pi() * (self.throat_radius_m + nozzle.exit_radius_m) * slant_m * case_thickness_m * dec(6, 1)
            * self.casing_material.density_kg_m3;
        let nozzle_kg = match self.contour {
            NozzleContour::Conical => cone_kg,
            NozzleContour::Bell => cone_kg * dec(85, 2),
            NozzleContour::Aerospike => {
                let spike_base_m = dec(6, 1) * nozzle.exit_radius_m;
                let spike_slant_m = (self.nozzle_length_m * self.nozzle_length_m + spike_base_m * spike_base_m).sqrt();
                cone_kg * dec(7, 1) + pi() * spike_base_m * spike_slant_m * case_thickness_m * dec(6, 1)
                    * self.casing_material.density_kg_m3
            },
        };
        let gimbal_kg = if self.gimbal_range_rad > zero() {
            mass_fit_gimbal_base_kg() + mass_fit_gimbal_kg_per_n() * peak_thrust_n
        } else {
            zero()
        };
        let dry_mass_kg = case_kg + nozzle_kg + gimbal_kg + mass_fit_solid_igniter_kg() + mass_fit_mount_kg_per_n()
            * peak_thrust_n + mass_fit_feed_kg_per_n() * peak_thrust_n;
        CompiledSolid {
            name: copied(&self.name),
            propellant: self.propellant,
            throat_area_m2: nozzle.throat_area_m2,
            throat_radius_m: self.throat_radius_m,
            expansion_ratio: self.expansion_ratio,
            exit_radius_m: nozzle.exit_radius_m,
            divergence_factor: nozzle.divergence,
            gamma: nozzle.thermo.gamma,
            chamber_temp_k: nozzle.thermo.chamber_temp_k,
            gas_constant_j_kg_k: nozzle.thermo.gas_constant_j_kg_k,
            c_star_mps: nozzle.c_star_mps,
            exit_mach: nozzle.exit.exit_mach,
            exit_temp_k: nozzle.exit.exit_temp_k,
            exhaust_velocity_mps: nozzle.exit.exhaust_velocity_mps,
            burn_curve,
            burn_time_s,
            total_impulse_ns,
            propellant_mass_kg: propellant_kg,
            avg_isp_s: total_impulse_ns / (propellant_kg * standard_gravity_mps2()),
            peak_pressure_pa,
            peak_thrust_sl_n: peak_thrust_n,
            dry_mass_kg,
            grain_outer_radius_m: self.outer_radius_m,
            grain_length_m,
            ignition_shots: self.ignition_shots,
            gimbal_range_rad: self.gimbal_range_rad,
            contour: self.contour,
            aerospike_base_area_m2: match self.contour {
                NozzleContour::Aerospike => aerospike_base_fraction() * nozzle.throat_area_m2 * self.expansion_ratio,
                _ => zero(),
            },
        }
    }

    /// The motor with a burn trace and its peaks.
    #[verifier::when_used_as_spec(assemble_spec)]
    pub fn assemble<M: Numerics>(
        &self,
        math: &M,
        nozzle: &FrozenNozzle,
        burn_curve: Vec<BurnPoint>,
        first: BurnPoint,
        burn_time_s: F64,
        later_peak_pa: F64,
        later_peak_n: F64,
    ) -> (r: CompiledSolid)
        ensures
            repeatable(math) ==> r == self.assemble(math, nozzle, burn_curve, first, burn_time_s, later_peak_pa, later_peak_n),
    {
        let peak_pressure_pa = later_peak_pa.max(first.chamber_pa);
        let peak_thrust_n = later_peak_n.max(first.thrust_sl_n);
        let total_impulse_ns = impulse_along(&burn_curve);
        let propellant_kg = propellant_along(&burn_curve);
        // Casing: cylinder plus hemispherical-cap allowance plus the nozzle.
        let grain_length_m = self.segment_length_m * whole(self.segments as u64);
        let case_thickness_m = peak_pressure_pa * whole(2) * self.outer_radius_m / (whole(2)
            * self.casing_material.yield_strength_pa) * pressure_safety_factor();
        let case_kg = whole(2) * pi() * self.outer_radius_m * grain_length_m * case_thickness_m
            * self.casing_material.density_kg_m3 * dec(13, 1);
        let slant_m = (self.nozzle_length_m * self.nozzle_length_m + powi(
            math,
            nozzle.exit_radius_m - self.throat_radius_m,
            2,
        )).sqrt();
        let cone_kg = pi() * (self.throat_radius_m + nozzle.exit_radius_m) * slant_m * case_thickness_m * dec(6, 1)
            * self.casing_material.density_kg_m3;
        let nozzle_kg = match self.contour {
            NozzleContour::Conical => cone_kg,
            NozzleContour::Bell => cone_kg * dec(85, 2),
            NozzleContour::Aerospike => {
                let spike_base_m = dec(6, 1) * nozzle.exit_radius_m;
                let spike_slant_m = (self.nozzle_length_m * self.nozzle_length_m + spike_base_m * spike_base_m).sqrt();
                cone_kg * dec(7, 1) + pi() * spike_base_m * spike_slant_m * case_thickness_m * dec(6, 1)
                    * self.casing_material.density_kg_m3
            },
        };
        let gimbal_kg = if self.gimbal_range_rad > zero() {
            mass_fit_gimbal_base_kg() + mass_fit_gimbal_kg_per_n() * peak_thrust_n
        } else {
            zero()
        };
        let dry_mass_kg = case_kg + nozzle_kg + gimbal_kg + mass_fit_solid_igniter_kg() + mass_fit_mount_kg_per_n()
            * peak_thrust_n + mass_fit_feed_kg_per_n() * peak_thrust_n;
        CompiledSolid {
            name: copied(&self.name),
            propellant: self.propellant,
            throat_area_m2: nozzle.throat_area_m2,
            throat_radius_m: self.throat_radius_m,
            expansion_ratio: self.expansion_ratio,
            exit_radius_m: nozzle.exit_radius_m,
            divergence_factor: nozzle.divergence,
            gamma: nozzle.thermo.gamma,
            chamber_temp_k: nozzle.thermo.chamber_temp_k,
            gas_constant_j_kg_k: nozzle.thermo.gas_constant_j_kg_k,
            c_star_mps: nozzle.c_star_mps,
            exit_mach: nozzle.exit.exit_mach,
            exit_temp_k: nozzle.exit.exit_temp_k,
            exhaust_velocity_mps: nozzle.exit.exhaust_velocity_mps,
            burn_curve,
            burn_time_s,
            total_impulse_ns,
            propellant_mass_kg: propellant_kg,
            avg_isp_s: total_impulse_ns / (propellant_kg * standard_gravity_mps2()),
            peak_pressure_pa,
            peak_thrust_sl_n: peak_thrust_n,
            dry_mass_kg,
            grain_outer_radius_m: self.outer_radius_m,
            grain_length_m,
            ignition_shots: self.ignition_shots,
            gimbal_range_rad: self.gimbal_range_rad,
            contour: self.contour,
            aerospike_base_area_m2: match self.contour {
                NozzleContour::Aerospike => aerospike_base_fraction() * nozzle.throat_area_m2 * self.expansion_ratio,
                _ => zero(),
            },
        }
    }

    /// Whether `result` is the motor that the grain burns to: its trace is the
    /// burn, and every other field follows from the trace.
    pub open spec fn compiles_to<M: Numerics>(&self, math: &M, result: Result<CompiledSolid, Fault>) -> bool {
        match self.fault() {
            Some(fault) => result == Err::<CompiledSolid, Fault>(fault),
            None => match exit_for(math, &self.propellant.thermo(), self.expansion_ratio) {
                Err(fault) => result == Err::<CompiledSolid, Fault>(fault),
                Ok(exit) => {
                    let nozzle = self.frozen_nozzle(math, &self.propellant.thermo(), &exit);
                    match self.burn(math, &nozzle) {
                        Err(fault) => result == Err::<CompiledSolid, Fault>(fault),
                        Ok(burn) => {
                            &&& result is Ok
                            &&& result->Ok_0.burn_curve@ == burn.stations
                            &&& result->Ok_0 == self.assemble(
                                math,
                                &nozzle,
                                result->Ok_0.burn_curve,
                                burn.stations[0],
                                burn.time_s,
                                burn.peak_pressure_pa,
                                burn.peak_thrust_n,
                            )
                        },
                    }
                },
            },
        }
    }

    /// Compiles the motor: solves the equilibrium burn trace over the web.
    pub fn compile<M: Numerics>(&self, math: &M) -> (r: Result<CompiledSolid, PropulsionError>)
        ensures
            repeatable(math) ==> self.compiles_to(math, seen(r)),
            self.fault() is Some ==> seen(r) == Err::<CompiledSolid, Fault>(self.fault()->0),
    {
        self.validate()?;
        let thermo: PropellantThermo = self.propellant.thermo();
        let exit: NozzleExitState = nozzle_exit(math, &thermo, self.expansion_ratio)?;
        let nozzle: FrozenNozzle = self.frozen_nozzle(math, &thermo, &exit);
        let (stations, burn_time_s, later_peak_pa, later_peak_n): (Vec<BurnPoint>, F64, F64, F64) = self.run_burn(
            math,
            &nozzle,
        )?;
        let first: BurnPoint = stations[0];
        Ok(self.assemble(math, &nozzle, stations, first, burn_time_s, later_peak_pa, later_peak_n))
    }
}

/// [`burned_through_station`] in contracts.
pub open spec fn burned_through_station_spec(time_s: F64, web_burned_m: F64) -> BurnPoint {
    BurnPoint {
        time_s,
        web_burned_m,
        chamber_pa: zero(),
        mass_flow_kg_s: zero(),
        thrust_sl_n: zero(),
        thrust_vac_n: zero(),
    }
}

/// The station at burn-through: the trace ends at zero thrust.
#[verifier::when_used_as_spec(burned_through_station_spec)]
pub fn burned_through_station(time_s: F64, web_burned_m: F64) -> (r: BurnPoint)
    ensures
        r == burned_through_station(time_s, web_burned_m),
{
    BurnPoint {
        time_s,
        web_burned_m,
        chamber_pa: zero(),
        mass_flow_kg_s: zero(),
        thrust_sl_n: zero(),
        thrust_vac_n: zero(),
    }
}

/// Burns every segment on by `step`; whether none has web left.
fn advance_webs(burned: &mut Vec<F64>, webs: &Vec<F64>, step: F64) -> (done: bool)
    requires
        old(burned)@.len() == webs@.len(),
    ensures
        final(burned)@ == advanced(old(burned)@, webs@, step),
        done == burned_through(final(burned)@, webs@),
{
    let mut done: bool = true;
    let mut i: usize = 0;
    let ghost start = burned@;
    while i < webs.len()
        invariant
            i <= webs@.len(),
            burned@.len() == webs@.len(),
            start.len() == webs@.len(),
            forall|k: int| 0 <= k < i ==> burned@[k] == advanced(start, webs@, step)[k],
            forall|k: int| i <= k < webs@.len() ==> burned@[k] == start[k],
            done == (forall|k: int| 0 <= k < i ==> !(#[trigger] burned@[k] < webs@[k])),
        decreases webs@.len() - i,
    {
        let ghost before = burned@;
        if burned[i] < webs[i] {
            let value: F64 = (burned[i] + step).min(webs[i]);
            burned.set(i, value);
        }
        assert(forall|k: int| 0 <= k < i ==> burned@[k] == before[k]);
        if burned[i] < webs[i] {
            done = false;
        }
        i = i + 1;
    }
    assert(burned@ =~= advanced(start, webs@, step));
    done
}

impl CompiledSolid {
    /// [`Self::thermo_ref`] in contracts.
    pub open spec fn thermo_ref_spec(&self) -> PropellantThermo {
        PropellantThermo {
            gamma: self.gamma,
            chamber_temp_k: self.chamber_temp_k,
            gas_constant_j_kg_k: self.gas_constant_j_kg_k,
            bulk_density_kg_m3: zero(),
            characteristic_length_m: zero(),
            reference_c_star_mps: zero(),
        }
    }

    /// Chamber thermo as compiled, for runtime evaluation.
    #[verifier::when_used_as_spec(thermo_ref_spec)]
    pub fn thermo_ref(&self) -> (r: PropellantThermo)
        ensures
            r == self.thermo_ref(),
    {
        PropellantThermo {
            gamma: self.gamma,
            chamber_temp_k: self.chamber_temp_k,
            gas_constant_j_kg_k: self.gas_constant_j_kg_k,
            bulk_density_kg_m3: zero(),
            characteristic_length_m: zero(),
            reference_c_star_mps: zero(),
        }
    }

    /// [`Self::exit_pressure_ratio`] in contracts.
    pub open spec fn exit_pressure_ratio_spec<M: Numerics>(&self, math: &M) -> F64 {
        pressure_ratio_at(math, self.gamma, self.exit_mach)
    }

    /// Exit pressure ratio of the frozen nozzle: it depends on gamma and the
    /// expansion ratio alone.
    #[verifier::when_used_as_spec(exit_pressure_ratio_spec)]
    pub fn exit_pressure_ratio<M: Numerics>(&self, math: &M) -> (r: F64)
        ensures
            repeatable(math) ==> r == self.exit_pressure_ratio(math),
    {
        pressure_ratio_at(math, self.gamma, self.exit_mach)
    }

    /// [`Self::exit_state`] in contracts.
    pub open spec fn exit_state_spec<M: Numerics>(&self, math: &M) -> NozzleExitState {
        NozzleExitState {
            exit_mach: self.exit_mach,
            exit_pressure_ratio: self.exit_pressure_ratio(math),
            exit_temp_k: self.exit_temp_k,
            exhaust_velocity_mps: self.exhaust_velocity_mps,
        }
    }

    /// Nozzle exit as compiled, for runtime evaluation.
    #[verifier::when_used_as_spec(exit_state_spec)]
    pub fn exit_state<M: Numerics>(&self, math: &M) -> (r: NozzleExitState)
        ensures
            repeatable(math) ==> r == self.exit_state(math),
    {
        NozzleExitState {
            exit_mach: self.exit_mach,
            exit_pressure_ratio: self.exit_pressure_ratio(math),
            exit_temp_k: self.exit_temp_k,
            exhaust_velocity_mps: self.exhaust_velocity_mps,
        }
    }

    /// The trace read at a burn clock, searching from the `i`th station on.
    pub open spec fn read_from(curve: Seq<BurnPoint>, burn_time_s: F64, i: int) -> BurnPoint
        decreases curve.len() - i,
    {
        if i < 1 || i >= curve.len() {
            curve.last()
        } else if burn_time_s <= curve[i].time_s {
            between(curve[i - 1], curve[i], burn_time_s)
        } else {
            CompiledSolid::read_from(curve, burn_time_s, i + 1)
        }
    }

    /// The trace read at a burn clock: linear between stations, the first one
    /// before ignition, the last one after the end.
    pub open spec fn read_at(&self, burn_time_s: F64) -> BurnPoint {
        let curve = self.burn_curve@;
        if curve.len() == 0 {
            burned_through_station(zero(), zero())
        } else if burn_time_s <= zero() {
            curve[0]
        } else {
            CompiledSolid::read_from(curve, burn_time_s, 1)
        }
    }

    /// The trace read at a burn clock.
    pub fn interpolate(&self, burn_time_s: F64) -> (r: BurnPoint)
        ensures
            r == self.read_at(burn_time_s),
    {
        let n: usize = self.burn_curve.len();
        if n == 0 {
            return burned_through_station(zero(), zero());
        }
        if burn_time_s <= zero() {
            return self.burn_curve[0];
        }
        let mut i: usize = 1;
        while i < n
            invariant
                n == self.burn_curve@.len(),
                1 <= i <= n,
                !(burn_time_s <= zero()),
                self.read_at(burn_time_s) == CompiledSolid::read_from(self.burn_curve@, burn_time_s, i as int),
            decreases n - i,
        {
            if burn_time_s <= self.burn_curve[i].time_s {
                return between(self.burn_curve[i - 1], self.burn_curve[i], burn_time_s);
            }
            i = i + 1;
        }
        self.burn_curve[n - 1]
    }
}

/// [`between`] in contracts.
pub open spec fn between_spec(a: BurnPoint, b: BurnPoint, burn_time_s: F64) -> BurnPoint {
    let span = (b.time_s - a.time_s).max(dec(1, 12));
    let fraction = ((burn_time_s - a.time_s) / span).clamp_unit();
    BurnPoint {
        time_s: burn_time_s,
        web_burned_m: a.web_burned_m + (b.web_burned_m - a.web_burned_m) * fraction,
        chamber_pa: a.chamber_pa + (b.chamber_pa - a.chamber_pa) * fraction,
        mass_flow_kg_s: a.mass_flow_kg_s + (b.mass_flow_kg_s - a.mass_flow_kg_s) * fraction,
        thrust_sl_n: a.thrust_sl_n + (b.thrust_sl_n - a.thrust_sl_n) * fraction,
        thrust_vac_n: a.thrust_vac_n + (b.thrust_vac_n - a.thrust_vac_n) * fraction,
    }
}

/// The station at a clock between two stations.
#[verifier::when_used_as_spec(between_spec)]
pub fn between(a: BurnPoint, b: BurnPoint, burn_time_s: F64) -> (r: BurnPoint)
    ensures
        r == between(a, b, burn_time_s),
{
    let span = (b.time_s - a.time_s).max(dec(1, 12));
    let fraction = ((burn_time_s - a.time_s) / span).clamp_unit();
    BurnPoint {
        time_s: burn_time_s,
        web_burned_m: a.web_burned_m + (b.web_burned_m - a.web_burned_m) * fraction,
        chamber_pa: a.chamber_pa + (b.chamber_pa - a.chamber_pa) * fraction,
        mass_flow_kg_s: a.mass_flow_kg_s + (b.mass_flow_kg_s - a.mass_flow_kg_s) * fraction,
        thrust_sl_n: a.thrust_sl_n + (b.thrust_sl_n - a.thrust_sl_n) * fraction,
        thrust_vac_n: a.thrust_vac_n + (b.thrust_vac_n - a.thrust_vac_n) * fraction,
    }
}

} // verus!
