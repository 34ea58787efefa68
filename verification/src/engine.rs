//! Compiled engine runtime: throttle and ambient evaluation, thermal power and
//! depletion queries, and the plume-renderer handoff.
use crate::constants::{separation_pressure_ratio, standard_gravity_mps2};
use crate::error::{
    bad_command, bad_spec, checks, invalid_command, invalid_spec, outcome, require_non_negative, require_positive,
    require_unit_interval, seen, Fault, PropulsionError,
};
use crate::float::{all_finite, all_finite_in, dec, whole, zero, F64};
use crate::liquid::CompiledLiquid;
use crate::nozzle::{thrust_coefficient, NozzleContour};
use crate::numerics::{repeatable, Numerics};
use crate::propellant::Propellant;
use crate::solid::{BurnPoint, CompiledSolid};
use crate::text::copied;
use vstd::prelude::*;

verus! {

/// Compiled engine of either family.
#[derive(Debug, Clone, PartialEq)]
pub enum CompiledEngine {
    Liquid(CompiledLiquid),
    Solid(CompiledSolid),
}

/// Instantaneous operating point: the single choke point between the
/// propulsion backend and thrust, mass-flow and plume consumers.
#[derive(Debug, Clone, Copy, PartialEq)]
pub struct EngineOperatingPoint {
    pub thrust_n: F64,
    pub mass_flow_kg_s: F64,
    pub isp_s: F64,
    pub exhaust_velocity_mps: F64,
    pub exit_pressure_pa: F64,
    pub exit_temp_k: F64,
    pub exit_mach: F64,
    /// True when Pe/Pa trips the Summerfield separation criterion.
    pub separation_risk: bool,
}

/// Nozzle and exhaust state for the plume renderer.
#[derive(Debug, Clone, Copy, PartialEq)]
pub struct EnginePlumeState {
    pub exit_radius_m: F64,
    pub mass_flow_kg_s: F64,
    pub exhaust_velocity_mps: F64,
    pub exit_pressure_pa: F64,
    pub exit_temp_k: F64,
    pub exit_mach: F64,
    pub propellant: Propellant,
}

impl EngineOperatingPoint {
    /// [`idle`] in contracts.
    pub open spec fn idle_spec(exhaust_velocity_mps: F64, exit_temp_k: F64, exit_mach: F64) -> EngineOperatingPoint {
        EngineOperatingPoint {
            thrust_n: zero(),
            mass_flow_kg_s: zero(),
            isp_s: zero(),
            exhaust_velocity_mps,
            exit_pressure_pa: zero(),
            exit_temp_k,
            exit_mach,
            separation_risk: false,
        }
    }

    /// An engine that gives nothing, with its exhaust state frozen.
    #[verifier::when_used_as_spec(idle_spec)]
    pub fn idle(exhaust_velocity_mps: F64, exit_temp_k: F64, exit_mach: F64) -> (r: EngineOperatingPoint)
        ensures
            r == Self::idle(exhaust_velocity_mps, exit_temp_k, exit_mach),
    {
        EngineOperatingPoint {
            thrust_n: zero(),
            mass_flow_kg_s: zero(),
            isp_s: zero(),
            exhaust_velocity_mps,
            exit_pressure_pa: zero(),
            exit_temp_k,
            exit_mach,
            separation_risk: false,
        }
    }
}

/// The greatest mass flow of some stations, counted from zero.
pub open spec fn peak_flow(curve: Seq<BurnPoint>) -> F64
    decreases curve.len(),
{
    if curve.len() == 0 {
        zero()
    } else {
        peak_flow(curve.drop_last()).max(curve.last().mass_flow_kg_s)
    }
}

fn peak_flow_of(curve: &Vec<BurnPoint>) -> (r: F64)
    ensures
        r == peak_flow(curve@),
{
    let mut best: F64 = zero();
    let mut i: usize = 0;
    assert(peak_flow(curve@.take(0)) == zero());
    while i < curve.len()
        invariant
            i <= curve@.len(),
            best == peak_flow(curve@.take(i as int)),
        decreases curve@.len() - i,
    {
        proof {
            let next = curve@.take(i + 1);
            assert(next.drop_last() =~= curve@.take(i as int));
        }
        best = best.max(curve[i].mass_flow_kg_s);
        i = i + 1;
    }
    assert(curve@.take(i as int) =~= curve@);
    best
}

/// [`active_fraction`] in contracts.
pub open spec fn active_fraction_spec(value: F64) -> bool {
    value.is_finite() && !(value <= zero()) && !(value > whole(1))
}

/// Whether a value lies in `(0, 1]`.
#[verifier::when_used_as_spec(active_fraction_spec)]
pub fn active_fraction(value: F64) -> (r: bool)
    ensures
        r == active_fraction(value),
{
    value.is_finite() && !(value <= zero()) && !(value > whole(1))
}

/// Propellant used up to a clock, with `used` gone before the `i`th station.
pub open spec fn consumed_from(curve: Seq<BurnPoint>, burn_time_s: F64, i: int, used: F64) -> F64
    decreases curve.len() - i,
{
    if i < 1 || i >= curve.len() {
        used
    } else if curve[i].time_s >= burn_time_s {
        used + partial_use(curve[i - 1], curve[i], burn_time_s)
    } else {
        consumed_from(curve, burn_time_s, i + 1, used + whole_use(curve[i - 1], curve[i]))
    }
}

/// [`whole_use`] in contracts.
pub open spec fn whole_use_spec(a: BurnPoint, b: BurnPoint) -> F64 {
    dec(5, 1) * (a.mass_flow_kg_s + b.mass_flow_kg_s) * (b.time_s - a.time_s)
}

/// Propellant used between two stations (kg).
#[verifier::when_used_as_spec(whole_use_spec)]
pub fn whole_use(a: BurnPoint, b: BurnPoint) -> (r: F64)
    ensures
        r == whole_use(a, b),
{
    dec(5, 1) * (a.mass_flow_kg_s + b.mass_flow_kg_s) * (b.time_s - a.time_s)
}

/// [`partial_use`] in contracts.
pub open spec fn partial_use_spec(a: BurnPoint, b: BurnPoint, burn_time_s: F64) -> F64 {
    let span = (b.time_s - a.time_s).max(dec(1, 12));
    let fraction = ((burn_time_s - a.time_s) / span).clamp_unit();
    let flow_now = a.mass_flow_kg_s + (b.mass_flow_kg_s - a.mass_flow_kg_s) * fraction;
    dec(5, 1) * (a.mass_flow_kg_s + flow_now) * (burn_time_s - a.time_s).max(zero())
}

/// Propellant used from a station to a clock before the next, with linear flow:
/// the exact integral (kg).
#[verifier::when_used_as_spec(partial_use_spec)]
pub fn partial_use(a: BurnPoint, b: BurnPoint, burn_time_s: F64) -> (r: F64)
    ensures
        r == partial_use(a, b, burn_time_s),
{
    let span = (b.time_s - a.time_s).max(dec(1, 12));
    let fraction = ((burn_time_s - a.time_s) / span).clamp_unit();
    let flow_now = a.mass_flow_kg_s + (b.mass_flow_kg_s - a.mass_flow_kg_s) * fraction;
    dec(5, 1) * (a.mass_flow_kg_s + flow_now) * (burn_time_s - a.time_s).max(zero())
}

/// What is wrong with the burn trace from the `i`th station on: a station that
/// a query can land on must be burning, because pressure and flow are divided by.
pub open spec fn curve_fault(curve: Seq<BurnPoint>, i: int) -> Option<Fault>
    decreases curve.len() - i,
{
    if i < 0 || i >= curve.len() {
        None
    } else {
        let point = curve[i];
        let here = checks()
            .refuse(
                !all_finite_in(
                    seq![
                        point.time_s,
                        point.web_burned_m,
                        point.chamber_pa,
                        point.mass_flow_kg_s,
                        point.thrust_sl_n,
                        point.thrust_vac_n,
                    ],
                ),
                bad_spec("solid burn curve points must be finite"),
            )
            .refuse(
                point.time_s < zero() || point.chamber_pa < zero() || point.mass_flow_kg_s < zero(),
                bad_spec("solid burn curve points must be non-negative"),
            )
            .refuse(
                i > 0 && point.time_s < curve[i - 1].time_s,
                bad_spec("solid burn curve time must be non-decreasing"),
            )
            .refuse(
                i + 1 < curve.len() && (point.chamber_pa <= zero() || point.mass_flow_kg_s <= zero()),
                bad_spec("solid burn curve must stay lit between ignition and burn-through"),
            )
            .fault;
        match here {
            Some(fault) => Some(fault),
            None => curve_fault(curve, i + 1),
        }
    }
}

fn check_curve(curve: &Vec<BurnPoint>) -> (r: Result<(), PropulsionError>)
    ensures
        seen(r) == outcome(curve_fault(curve@, 0)),
{
    let n: usize = curve.len();
    let mut i: usize = 0;
    while i < n
        invariant
            n == curve@.len(),
            i <= n,
            curve_fault(curve@, 0) == curve_fault(curve@, i as int),
        decreases n - i,
    {
        let point: BurnPoint = curve[i];
        if !all_finite(
            &vec![
                point.time_s,
                point.web_burned_m,
                point.chamber_pa,
                point.mass_flow_kg_s,
                point.thrust_sl_n,
                point.thrust_vac_n,
            ],
        ) {
            return Err(invalid_spec("solid burn curve points must be finite"));
        }
        if point.time_s < zero() || point.chamber_pa < zero() || point.mass_flow_kg_s < zero() {
            return Err(invalid_spec("solid burn curve points must be non-negative"));
        }
        if i > 0 && point.time_s < curve[i - 1].time_s {
            return Err(invalid_spec("solid burn curve time must be non-decreasing"));
        }
        if i + 1 < n && (point.chamber_pa <= zero() || point.mass_flow_kg_s <= zero()) {
            return Err(invalid_spec("solid burn curve must stay lit between ignition and burn-through"));
        }
        i = i + 1;
    }
    Ok(())
}

impl CompiledLiquid {
    /// What is wrong with the compiled data, if anything.
    pub open spec fn fault(&self) -> Option<Fault> {
        checks()
            .positive(self.chamber_pressure_pa, "engine chamber pressure")
            .positive(self.throat_area_m2, "engine throat area")
            .positive(self.full_flow_kg_s, "engine full-throttle flow")
            .positive(self.gas_constant_j_kg_k, "engine gas constant")
            .positive(self.chamber_temp_k, "engine chamber temperature")
            .positive(self.spool_tau_s, "engine spool time constant")
            .refuse(!self.gamma.is_finite() || self.gamma <= whole(1), bad_spec("engine gamma must be finite and > 1"))
            .refuse(
                !self.expansion_ratio.is_finite() || self.expansion_ratio < whole(1),
                bad_spec("engine expansion ratio must be finite and >= 1"),
            )
            .refuse(
                !self.exit_pressure_pa.is_finite() || self.exit_pressure_pa <= zero() || self.exit_pressure_pa
                    > self.chamber_pressure_pa,
                bad_spec("engine exit pressure must be finite in (0, chamber pressure]"),
            )
            .refuse(
                !active_fraction(self.divergence_factor),
                bad_spec("engine divergence factor must be finite in (0, 1]"),
            )
            .refuse(
                !active_fraction(self.kinetic_efficiency),
                bad_spec("engine kinetic efficiency must be finite in (0, 1]"),
            )
            .unit_interval(self.min_throttle, "engine minimum throttle")
            .unit_interval(self.gg_bypass_fraction, "engine gg bypass fraction")
            .non_negative(self.exhaust_velocity_mps, "engine exhaust velocity")
            .non_negative(self.exit_mach, "engine exit mach")
            .non_negative(self.dry_mass_kg, "engine dry mass")
            .non_negative(self.gimbal_range_rad, "engine gimbal range")
            .refuse(
                !all_finite_in(
                    seq![
                        self.exit_temp_k,
                        self.c_star_mps,
                        self.thrust_sl_n,
                        self.thrust_vac_n,
                        self.isp_sl_s,
                        self.isp_vac_s,
                        self.gg_thrust_sl_n,
                        self.gg_thrust_vac_n,
                        self.gg_exit_area_m2,
                        self.gg_isp_s,
                        self.aerospike_base_area_m2,
                        self.nozzle_wall_area_m2,
                        self.pump_power_w,
                        self.feed_pressure_required_pa,
                        self.exit_radius_m,
                        self.nozzle_length_m,
                        self.chamber_pressure_pa,
                        self.throat_area_m2,
                        self.full_flow_kg_s,
                        self.spool_tau_s,
                        self.gas_constant_j_kg_k,
                        self.chamber_temp_k,
                        self.exhaust_velocity_mps,
                        self.exit_mach,
                        self.dry_mass_kg,
                        self.gimbal_range_rad,
                    ],
                ),
                bad_spec("compiled liquid engine values must be finite"),
            )
            .fault
    }

    /// Fails closed on data that the operating-point formulas would turn into NaN.
    pub fn validate(&self) -> (r: Result<(), PropulsionError>)
        ensures
            seen(r) == outcome(self.fault()),
    {
        // Divisors: chamber pressure in the exit-pressure ratio and thrust
        // coefficient, full flow in Isp, gas constant and (gamma - 1) in the
        // thermal power, spool tau in the valve advance.
        require_positive(self.chamber_pressure_pa, "engine chamber pressure")?;
        require_positive(self.throat_area_m2, "engine throat area")?;
        require_positive(self.full_flow_kg_s, "engine full-throttle flow")?;
        require_positive(self.gas_constant_j_kg_k, "engine gas constant")?;
        require_positive(self.chamber_temp_k, "engine chamber temperature")?;
        require_positive(self.spool_tau_s, "engine spool time constant")?;
        if !self.gamma.is_finite() || self.gamma <= whole(1) {
            return Err(invalid_spec("engine gamma must be finite and > 1"));
        }
        if !self.expansion_ratio.is_finite() || self.expansion_ratio < whole(1) {
            return Err(invalid_spec("engine expansion ratio must be finite and >= 1"));
        }
        // The frozen exit-pressure ratio is the base of a power inside a square
        // root: zero or below goes NaN, a ratio above 1 takes the root of a negative.
        if !self.exit_pressure_pa.is_finite() || self.exit_pressure_pa <= zero() || self.exit_pressure_pa
            > self.chamber_pressure_pa {
            return Err(invalid_spec("engine exit pressure must be finite in (0, chamber pressure]"));
        }
        if !active_fraction(self.divergence_factor) {
            return Err(invalid_spec("engine divergence factor must be finite in (0, 1]"));
        }
        if !active_fraction(self.kinetic_efficiency) {
            return Err(invalid_spec("engine kinetic efficiency must be finite in (0, 1]"));
        }
        require_unit_interval(self.min_throttle, "engine minimum throttle")?;
        require_unit_interval(self.gg_bypass_fraction, "engine gg bypass fraction")?;
        require_non_negative(self.exhaust_velocity_mps, "engine exhaust velocity")?;
        require_non_negative(self.exit_mach, "engine exit mach")?;
        require_non_negative(self.dry_mass_kg, "engine dry mass")?;
        require_non_negative(self.gimbal_range_rad, "engine gimbal range")?;
        // Every scalar that reaches an operating point, the plume handoff or the vehicle
        // mass budget must be finite: an infinite chamber pressure, say, makes NaN thrust.
        if !all_finite(
            &vec![
                self.exit_temp_k,
                self.c_star_mps,
                self.thrust_sl_n,
                self.thrust_vac_n,
                self.isp_sl_s,
                self.isp_vac_s,
                self.gg_thrust_sl_n,
                self.gg_thrust_vac_n,
                self.gg_exit_area_m2,
                self.gg_isp_s,
                self.aerospike_base_area_m2,
                self.nozzle_wall_area_m2,
                self.pump_power_w,
                self.feed_pressure_required_pa,
                self.exit_radius_m,
                self.nozzle_length_m,
                self.chamber_pressure_pa,
                self.throat_area_m2,
                self.full_flow_kg_s,
                self.spool_tau_s,
                self.gas_constant_j_kg_k,
                self.chamber_temp_k,
                self.exhaust_velocity_mps,
                self.exit_mach,
                self.dry_mass_kg,
                self.gimbal_range_rad,
            ],
        ) {
            return Err(invalid_spec("compiled liquid engine values must be finite"));
        }
        Ok(())
    }

    /// [`Self::burning_point`] in contracts.
    pub open spec fn burning_point_spec<M: Numerics>(
        &self,
        math: &M,
        throttle: F64,
        ambient_pa: F64,
    ) -> EngineOperatingPoint {
        let flow_kg_s = self.full_flow_kg_s * throttle;
        match self.contour {
            NozzleContour::Aerospike => {
                // Altitude compensation: the design vacuum thrust survives at
                // any altitude minus base drag on the plug base.
                let thrust_n = (self.thrust_vac_n * throttle - ambient_pa * self.aerospike_base_area_m2).max(zero());
                EngineOperatingPoint {
                    thrust_n,
                    mass_flow_kg_s: flow_kg_s,
                    isp_s: thrust_n / (flow_kg_s * standard_gravity_mps2()),
                    exhaust_velocity_mps: self.exhaust_velocity_mps,
                    exit_pressure_pa: (self.exit_pressure_pa * throttle).max(ambient_pa),
                    exit_temp_k: self.exit_temp_k,
                    exit_mach: self.exit_mach,
                    separation_risk: false,
                }
            },
            _ => {
                let chamber_pa = self.chamber_pressure_pa * throttle;
                let exit_pressure_pa = self.exit_pressure_pa * throttle;
                let main_cf = thrust_coefficient(
                    math,
                    &self.thermo_ref(),
                    chamber_pa,
                    &self.exit_ref(),
                    self.expansion_ratio,
                    ambient_pa,
                    self.divergence_factor,
                );
                let thrust_n = main_cf * chamber_pa * self.throat_area_m2 * self.kinetic_efficiency + self.gg_thrust_at(
                    throttle,
                    ambient_pa,
                );
                EngineOperatingPoint {
                    thrust_n,
                    mass_flow_kg_s: flow_kg_s,
                    isp_s: thrust_n / (flow_kg_s * standard_gravity_mps2()),
                    exhaust_velocity_mps: self.exhaust_velocity_mps,
                    exit_pressure_pa,
                    exit_temp_k: self.exit_temp_k,
                    exit_mach: self.exit_mach,
                    separation_risk: exit_pressure_pa < separation_pressure_ratio() * ambient_pa,
                }
            },
        }
    }

    /// The operating point at a positive throttle.
    #[verifier::when_used_as_spec(burning_point_spec)]
    pub fn burning_point<M: Numerics>(&self, math: &M, throttle: F64, ambient_pa: F64) -> (r: EngineOperatingPoint)
        ensures
            repeatable(math) ==> r == self.burning_point(math, throttle, ambient_pa),
    {
        let flow_kg_s = self.full_flow_kg_s * throttle;
        match self.contour {
            NozzleContour::Aerospike => {
                // Altitude compensation: the design vacuum thrust survives at
                // any altitude minus base drag on the plug base.
                let thrust_n = (self.thrust_vac_n * throttle - ambient_pa * self.aerospike_base_area_m2).max(zero());
                EngineOperatingPoint {
                    thrust_n,
                    mass_flow_kg_s: flow_kg_s,
                    isp_s: thrust_n / (flow_kg_s * standard_gravity_mps2()),
                    exhaust_velocity_mps: self.exhaust_velocity_mps,
                    exit_pressure_pa: (self.exit_pressure_pa * throttle).max(ambient_pa),
                    exit_temp_k: self.exit_temp_k,
                    exit_mach: self.exit_mach,
                    separation_risk: false,
                }
            },
            _ => {
                let chamber_pa = self.chamber_pressure_pa * throttle;
                let exit_pressure_pa = self.exit_pressure_pa * throttle;
                let main_cf = thrust_coefficient(
                    math,
                    &self.thermo_ref(),
                    chamber_pa,
                    &self.exit_ref(),
                    self.expansion_ratio,
                    ambient_pa,
                    self.divergence_factor,
                );
                let thrust_n = main_cf * chamber_pa * self.throat_area_m2 * self.kinetic_efficiency + self.gg_thrust_at(
                    throttle,
                    ambient_pa,
                );
                EngineOperatingPoint {
                    thrust_n,
                    mass_flow_kg_s: flow_kg_s,
                    isp_s: thrust_n / (flow_kg_s * standard_gravity_mps2()),
                    exhaust_velocity_mps: self.exhaust_velocity_mps,
                    exit_pressure_pa,
                    exit_temp_k: self.exit_temp_k,
                    exit_mach: self.exit_mach,
                    separation_risk: exit_pressure_pa < separation_pressure_ratio() * ambient_pa,
                }
            },
        }
    }
}

impl CompiledLiquid {
    /// Steady-state operating point at effective throttle and ambient pressure.
    pub fn operating_point<M: Numerics>(&self, math: &M, throttle: F64, ambient_pa: F64) -> (r: Result<
        EngineOperatingPoint,
        PropulsionError,
    >)
        ensures
            repeatable(math) ==> seen(r) == CompiledEngine::Liquid(*self).point(math, throttle, ambient_pa, zero()),
            r is Err ==> seen(r) == CompiledEngine::Liquid(*self).point(math, throttle, ambient_pa, zero()),
            r is Err <==> CompiledEngine::Liquid(*self).point(math, throttle, ambient_pa, zero()) is Err,
    {
        if !ambient_pa.is_finite() || ambient_pa < zero() {
            return Err(invalid_command("ambient pressure must be finite and >= 0"));
        }
        if !throttle.is_finite() || throttle < zero() || throttle > whole(1) {
            return Err(invalid_command("throttle must be finite in [0, 1]"));
        }
        if throttle.same(zero()) {
            return Ok(EngineOperatingPoint::idle(self.exhaust_velocity_mps, self.exit_temp_k, self.exit_mach));
        }
        Ok(self.burning_point(math, throttle, ambient_pa))
    }

    /// A copy of the engine.
    pub fn duplicate(&self) -> (r: CompiledLiquid)
        ensures
            r == *self,
    {
        CompiledLiquid { name: copied(&self.name), ..*self }
    }
}

impl CompiledSolid {
    /// What is wrong with the compiled data, if anything.
    pub open spec fn fault(&self) -> Option<Fault> {
        let curve = self.burn_curve@;
        let last = curve.last();
        checks()
            .positive(self.throat_area_m2, "engine throat area")
            .positive(self.gas_constant_j_kg_k, "engine gas constant")
            .positive(self.chamber_temp_k, "engine chamber temperature")
            .positive(self.burn_time_s, "engine burn time")
            .non_negative(self.propellant_mass_kg, "engine propellant mass")
            .non_negative(self.exhaust_velocity_mps, "engine exhaust velocity")
            .non_negative(self.exit_mach, "engine exit mach")
            .non_negative(self.dry_mass_kg, "engine dry mass")
            .non_negative(self.gimbal_range_rad, "engine gimbal range")
            .refuse(!self.gamma.is_finite() || self.gamma <= whole(1), bad_spec("engine gamma must be finite and > 1"))
            .refuse(
                !self.expansion_ratio.is_finite() || self.expansion_ratio < whole(1),
                bad_spec("engine expansion ratio must be finite and >= 1"),
            )
            .refuse(
                !active_fraction(self.divergence_factor),
                bad_spec("engine divergence factor must be finite in (0, 1]"),
            )
            .refuse(
                !all_finite_in(
                    seq![
                        self.total_impulse_ns,
                        self.avg_isp_s,
                        self.peak_pressure_pa,
                        self.peak_thrust_sl_n,
                        self.c_star_mps,
                        self.exit_temp_k,
                        self.aerospike_base_area_m2,
                        self.throat_radius_m,
                        self.exit_radius_m,
                        self.grain_outer_radius_m,
                        self.grain_length_m,
                        self.throat_area_m2,
                        self.gas_constant_j_kg_k,
                        self.chamber_temp_k,
                        self.burn_time_s,
                        self.propellant_mass_kg,
                        self.exhaust_velocity_mps,
                        self.exit_mach,
                        self.dry_mass_kg,
                        self.gimbal_range_rad,
                    ],
                ),
                bad_spec("compiled solid engine values must be finite"),
            )
            .refuse(curve.len() == 0, bad_spec("solid engine burn curve must not be empty"))
            .refuse(
                curve[0].chamber_pa <= zero() || curve[0].mass_flow_kg_s <= zero(),
                bad_spec("solid engine must be burning at ignition"),
            )
            .part(curve_fault(curve, 0))
            .refuse(
                (last.chamber_pa <= zero() || last.mass_flow_kg_s <= zero()) && last.time_s < self.burn_time_s,
                bad_spec("solid burn-through sample must reach the burn clock"),
            )
            .fault
    }

    /// Fails closed on data that the operating-point formulas would turn into NaN.
    pub fn validate(&self) -> (r: Result<(), PropulsionError>)
        ensures
            seen(r) == outcome(self.fault()),
    {
        require_positive(self.throat_area_m2, "engine throat area")?;
        require_positive(self.gas_constant_j_kg_k, "engine gas constant")?;
        require_positive(self.chamber_temp_k, "engine chamber temperature")?;
        require_positive(self.burn_time_s, "engine burn time")?;
        require_non_negative(self.propellant_mass_kg, "engine propellant mass")?;
        require_non_negative(self.exhaust_velocity_mps, "engine exhaust velocity")?;
        require_non_negative(self.exit_mach, "engine exit mach")?;
        require_non_negative(self.dry_mass_kg, "engine dry mass")?;
        require_non_negative(self.gimbal_range_rad, "engine gimbal range")?;
        if !self.gamma.is_finite() || self.gamma <= whole(1) {
            return Err(invalid_spec("engine gamma must be finite and > 1"));
        }
        if !self.expansion_ratio.is_finite() || self.expansion_ratio < whole(1) {
            return Err(invalid_spec("engine expansion ratio must be finite and >= 1"));
        }
        if !active_fraction(self.divergence_factor) {
            return Err(invalid_spec("engine divergence factor must be finite in (0, 1]"));
        }
        if !all_finite(
            &vec![
                self.total_impulse_ns,
                self.avg_isp_s,
                self.peak_pressure_pa,
                self.peak_thrust_sl_n,
                self.c_star_mps,
                self.exit_temp_k,
                self.aerospike_base_area_m2,
                self.throat_radius_m,
                self.exit_radius_m,
                self.grain_outer_radius_m,
                self.grain_length_m,
                self.throat_area_m2,
                self.gas_constant_j_kg_k,
                self.chamber_temp_k,
                self.burn_time_s,
                self.propellant_mass_kg,
                self.exhaust_velocity_mps,
                self.exit_mach,
                self.dry_mass_kg,
                self.gimbal_range_rad,
            ],
        ) {
            return Err(invalid_spec("compiled solid engine values must be finite"));
        }
        let n: usize = self.burn_curve.len();
        if n == 0 {
            return Err(invalid_spec("solid engine burn curve must not be empty"));
        }
        let first: BurnPoint = self.burn_curve[0];
        if first.chamber_pa <= zero() || first.mass_flow_kg_s <= zero() {
            return Err(invalid_spec("solid engine must be burning at ignition"));
        }
        check_curve(&self.burn_curve)?;
        let last: BurnPoint = self.burn_curve[n - 1];
        if (last.chamber_pa <= zero() || last.mass_flow_kg_s <= zero()) && last.time_s < self.burn_time_s {
            return Err(invalid_spec("solid burn-through sample must reach the burn clock"));
        }
        Ok(())
    }

    /// [`Self::point_at_station`] in contracts.
    pub open spec fn point_at_station_spec<M: Numerics>(
        &self,
        math: &M,
        station: BurnPoint,
        ambient_pa: F64,
    ) -> EngineOperatingPoint {
        match self.contour {
            NozzleContour::Aerospike => {
                let thrust_n = (station.thrust_vac_n - ambient_pa * self.aerospike_base_area_m2).max(zero());
                EngineOperatingPoint {
                    thrust_n,
                    mass_flow_kg_s: station.mass_flow_kg_s,
                    isp_s: thrust_n / (station.mass_flow_kg_s * standard_gravity_mps2()),
                    exhaust_velocity_mps: self.exhaust_velocity_mps,
                    exit_pressure_pa: ambient_pa,
                    exit_temp_k: self.exit_temp_k,
                    exit_mach: self.exit_mach,
                    separation_risk: false,
                }
            },
            _ => {
                let cf = thrust_coefficient(
                    math,
                    &self.thermo_ref(),
                    station.chamber_pa,
                    &self.exit_state(math),
                    self.expansion_ratio,
                    ambient_pa,
                    self.divergence_factor,
                );
                let thrust_n = cf * station.chamber_pa * self.throat_area_m2;
                let exit_pressure_pa = station.chamber_pa * self.exit_pressure_ratio(math);
                EngineOperatingPoint {
                    thrust_n,
                    mass_flow_kg_s: station.mass_flow_kg_s,
                    isp_s: thrust_n / (station.mass_flow_kg_s * standard_gravity_mps2()),
                    exhaust_velocity_mps: self.exhaust_velocity_mps,
                    exit_pressure_pa,
                    exit_temp_k: self.exit_temp_k,
                    exit_mach: self.exit_mach,
                    separation_risk: exit_pressure_pa < separation_pressure_ratio() * ambient_pa,
                }
            },
        }
    }

    /// The operating point at a station of the trace.
    #[verifier::when_used_as_spec(point_at_station_spec)]
    pub fn point_at_station<M: Numerics>(
        &self,
        math: &M,
        station: BurnPoint,
        ambient_pa: F64,
    ) -> (r: EngineOperatingPoint)
        ensures
            repeatable(math) ==> r == self.point_at_station(math, station, ambient_pa),
    {
        match self.contour {
            NozzleContour::Aerospike => {
                let thrust_n = (station.thrust_vac_n - ambient_pa * self.aerospike_base_area_m2).max(zero());
                EngineOperatingPoint {
                    thrust_n,
                    mass_flow_kg_s: station.mass_flow_kg_s,
                    isp_s: thrust_n / (station.mass_flow_kg_s * standard_gravity_mps2()),
                    exhaust_velocity_mps: self.exhaust_velocity_mps,
                    exit_pressure_pa: ambient_pa,
                    exit_temp_k: self.exit_temp_k,
                    exit_mach: self.exit_mach,
                    separation_risk: false,
                }
            },
            _ => {
                let cf = thrust_coefficient(
                    math,
                    &self.thermo_ref(),
                    station.chamber_pa,
                    &self.exit_state(math),
                    self.expansion_ratio,
                    ambient_pa,
                    self.divergence_factor,
                );
                let thrust_n = cf * station.chamber_pa * self.throat_area_m2;
                let exit_pressure_pa = station.chamber_pa * self.exit_pressure_ratio(math);
                EngineOperatingPoint {
                    thrust_n,
                    mass_flow_kg_s: station.mass_flow_kg_s,
                    isp_s: thrust_n / (station.mass_flow_kg_s * standard_gravity_mps2()),
                    exhaust_velocity_mps: self.exhaust_velocity_mps,
                    exit_pressure_pa,
                    exit_temp_k: self.exit_temp_k,
                    exit_mach: self.exit_mach,
                    separation_risk: exit_pressure_pa < separation_pressure_ratio() * ambient_pa,
                }
            },
        }
    }

    /// [`Self::average_flow_kg_s`] in contracts.
    pub open spec fn average_flow_kg_s_spec(&self) -> F64 {
        if self.burn_time_s > zero() {
            self.propellant_mass_kg / self.burn_time_s
        } else {
            zero()
        }
    }

    /// Time-averaged flow (kg/s); a motor with no burn duration has none.
    #[verifier::when_used_as_spec(average_flow_kg_s_spec)]
    pub fn average_flow_kg_s(&self) -> (r: F64)
        ensures
            r == self.average_flow_kg_s(),
    {
        if self.burn_time_s > zero() {
            self.propellant_mass_kg / self.burn_time_s
        } else {
            zero()
        }
    }
}

impl CompiledEngine {
    /// Engine display name.
    pub fn name(&self) -> (r: &str)
        ensures
            r@ == match *self {
                CompiledEngine::Liquid(engine) => engine.name@,
                CompiledEngine::Solid(engine) => engine.name@,
            },
    {
        match self {
            CompiledEngine::Liquid(engine) => engine.name.as_str(),
            CompiledEngine::Solid(engine) => engine.name.as_str(),
        }
    }

    /// [`Self::dry_mass_kg`] in contracts.
    pub open spec fn dry_mass_kg_spec(&self) -> F64 {
        match self {
            CompiledEngine::Liquid(engine) => engine.dry_mass_kg,
            CompiledEngine::Solid(engine) => engine.dry_mass_kg,
        }
    }

    /// Dry (no propellant) mass in kg.
    #[verifier::when_used_as_spec(dry_mass_kg_spec)]
    pub fn dry_mass_kg(&self) -> (r: F64)
        ensures
            r == self.dry_mass_kg(),
    {
        match self {
            CompiledEngine::Liquid(engine) => engine.dry_mass_kg,
            CompiledEngine::Solid(engine) => engine.dry_mass_kg,
        }
    }

    /// [`Self::bake_mass_kg`] in contracts.
    pub open spec fn bake_mass_kg_spec(&self) -> F64 {
        match self {
            CompiledEngine::Liquid(engine) => engine.dry_mass_kg,
            CompiledEngine::Solid(engine) => engine.dry_mass_kg + engine.propellant_mass_kg,
        }
    }

    /// Mass to aggregate into the vehicle budget: dry mass plus full solid
    /// propellant. Liquid propellant lives in tank parts.
    #[verifier::when_used_as_spec(bake_mass_kg_spec)]
    pub fn bake_mass_kg(&self) -> (r: F64)
        ensures
            r == self.bake_mass_kg(),
    {
        match self {
            CompiledEngine::Liquid(engine) => engine.dry_mass_kg,
            CompiledEngine::Solid(engine) => engine.dry_mass_kg + engine.propellant_mass_kg,
        }
    }

    /// Full-throttle mass flow at the design point (kg/s); the peak for solids.
    pub fn full_flow_kg_s(&self) -> (r: F64)
        ensures
            r == match *self {
                CompiledEngine::Liquid(engine) => engine.full_flow_kg_s,
                CompiledEngine::Solid(engine) => peak_flow(engine.burn_curve@),
            },
    {
        match self {
            CompiledEngine::Liquid(engine) => engine.full_flow_kg_s,
            CompiledEngine::Solid(engine) => peak_flow_of(&engine.burn_curve),
        }
    }

    /// [`Self::throttle_range`] in contracts.
    pub open spec fn throttle_range_spec(&self) -> (F64, F64) {
        match self {
            CompiledEngine::Liquid(engine) => (engine.min_throttle, whole(1)),
            CompiledEngine::Solid(_) => (whole(1), whole(1)),
        }
    }

    /// Allowed throttle interval (solids are fixed at full by physics).
    #[verifier::when_used_as_spec(throttle_range_spec)]
    pub fn throttle_range(&self) -> (r: (F64, F64))
        ensures
            r == self.throttle_range(),
    {
        match self {
            CompiledEngine::Liquid(engine) => (engine.min_throttle, whole(1)),
            CompiledEngine::Solid(_) => (whole(1), whole(1)),
        }
    }

    /// [`Self::spool_tau_s`] in contracts.
    pub open spec fn spool_tau_s_spec(&self) -> F64 {
        match self {
            CompiledEngine::Liquid(engine) => engine.spool_tau_s,
            CompiledEngine::Solid(_) => zero(),
        }
    }

    /// Spool or valve time constant (s). Solids ignite ballistically: 0.
    #[verifier::when_used_as_spec(spool_tau_s_spec)]
    pub fn spool_tau_s(&self) -> (r: F64)
        ensures
            r == self.spool_tau_s(),
    {
        match self {
            CompiledEngine::Liquid(engine) => engine.spool_tau_s,
            CompiledEngine::Solid(_) => zero(),
        }
    }

    /// What is wrong with the compiled data, if anything.
    pub open spec fn fault(&self) -> Option<Fault> {
        match self {
            CompiledEngine::Liquid(engine) => engine.fault(),
            CompiledEngine::Solid(engine) => engine.fault(),
        }
    }

    /// Fail-closed validation of a compiled engine: tampered or hand-edited
    /// data must be rejected before the formulas can turn it into NaN thrust.
    pub fn validate(&self) -> (r: Result<(), PropulsionError>)
        ensures
            seen(r) == outcome(self.fault()),
    {
        match self {
            CompiledEngine::Liquid(engine) => engine.validate(),
            CompiledEngine::Solid(engine) => engine.validate(),
        }
    }

    /// Steady-state operating point at effective throttle and ambient pressure.
    pub open spec fn point<M: Numerics>(
        &self,
        math: &M,
        throttle: F64,
        ambient_pa: F64,
        burn_time_s: F64,
    ) -> Result<EngineOperatingPoint, Fault> {
        if !ambient_pa.is_finite() || ambient_pa < zero() {
            Err(bad_command("ambient pressure must be finite and >= 0"))
        } else {
            match self {
                CompiledEngine::Liquid(engine) => if !throttle.is_finite() || throttle < zero() || throttle > whole(1) {
                    Err(bad_command("throttle must be finite in [0, 1]"))
                } else if throttle.same(zero()) {
                    Ok(EngineOperatingPoint::idle(engine.exhaust_velocity_mps, engine.exit_temp_k, engine.exit_mach))
                } else {
                    Ok(engine.burning_point(math, throttle, ambient_pa))
                },
                CompiledEngine::Solid(engine) => if !throttle.same(whole(1)) {
                    Err(bad_command("solid motors run at full thrust or off; partial throttle is not physical"))
                } else if !burn_time_s.is_finite() || burn_time_s < zero() {
                    Err(bad_command("burn time must be finite and >= 0"))
                } else if burn_time_s >= engine.burn_time_s {
                    Ok(EngineOperatingPoint::idle(engine.exhaust_velocity_mps, engine.exit_temp_k, engine.exit_mach))
                } else {
                    Ok(engine.point_at_station(math, engine.read_at(burn_time_s), ambient_pa))
                },
            }
        }
    }

    /// Steady-state operating point at effective throttle and ambient pressure.
    /// Liquids scale chamber pressure linearly with throttle. Solids ignore
    /// throttle (which must be 1) and read the burn trace at `burn_time_s`.
    pub fn operating_point<M: Numerics>(
        &self,
        math: &M,
        throttle: F64,
        ambient_pa: F64,
        burn_time_s: F64,
    ) -> (r: Result<
        EngineOperatingPoint,
        PropulsionError,
    >)
        ensures
            repeatable(math) ==> seen(r) == self.point(math, throttle, ambient_pa, burn_time_s),
            r is Err ==> seen(r) == self.point(math, throttle, ambient_pa, burn_time_s),
            r is Err <==> self.point(math, throttle, ambient_pa, burn_time_s) is Err,
    {
        if !ambient_pa.is_finite() || ambient_pa < zero() {
            return Err(invalid_command("ambient pressure must be finite and >= 0"));
        }
        match self {
            CompiledEngine::Liquid(engine) => engine.operating_point(math, throttle, ambient_pa),
            CompiledEngine::Solid(engine) => {
                if !throttle.same(whole(1)) {
                    return Err(
                        invalid_command("solid motors run at full thrust or off; partial throttle is not physical"),
                    );
                }
                if !burn_time_s.is_finite() || burn_time_s < zero() {
                    return Err(invalid_command("burn time must be finite and >= 0"));
                }
                if burn_time_s >= engine.burn_time_s {
                    return Ok(EngineOperatingPoint::idle(engine.exhaust_velocity_mps, engine.exit_temp_k, engine.exit_mach));
                }
                Ok(engine.point_at_station(math, engine.interpolate(burn_time_s), ambient_pa))
            },
        }
    }

    /// [`Self::chamber_power_w`] in contracts.
    pub open spec fn chamber_power_w_spec(&self) -> F64 {
        match self {
            CompiledEngine::Liquid(engine) => {
                let cp = engine.gamma * engine.gas_constant_j_kg_k / (engine.gamma - whole(1));
                engine.full_flow_kg_s * cp * engine.chamber_temp_k
            },
            CompiledEngine::Solid(engine) => {
                let cp = engine.gamma * engine.gas_constant_j_kg_k / (engine.gamma - whole(1));
                engine.average_flow_kg_s() * cp * engine.chamber_temp_k
            },
        }
    }

    /// Stagnation thermal power released at full throttle (W): mass flow times
    /// cp times chamber temperature. Liquids use design flow; solids the burn
    /// average.
    #[verifier::when_used_as_spec(chamber_power_w_spec)]
    pub fn chamber_power_w(&self) -> (r: F64)
        ensures
            r == self.chamber_power_w(),
    {
        match self {
            CompiledEngine::Liquid(engine) => {
                let cp = engine.gamma * engine.gas_constant_j_kg_k / (engine.gamma - whole(1));
                engine.full_flow_kg_s * cp * engine.chamber_temp_k
            },
            CompiledEngine::Solid(engine) => {
                let cp = engine.gamma * engine.gas_constant_j_kg_k / (engine.gamma - whole(1));
                engine.average_flow_kg_s() * cp * engine.chamber_temp_k
            },
        }
    }

    /// [`Self::exhaust_kinetic_power_w`] in contracts.
    pub open spec fn exhaust_kinetic_power_w_spec(&self) -> F64 {
        match self {
            CompiledEngine::Liquid(engine) => dec(5, 1) * engine.full_flow_kg_s * engine.exhaust_velocity_mps
                * engine.exhaust_velocity_mps,
            CompiledEngine::Solid(engine) => dec(5, 1) * engine.average_flow_kg_s() * engine.exhaust_velocity_mps
                * engine.exhaust_velocity_mps,
        }
    }

    /// Exhaust kinetic power at full throttle in vacuum (W).
    #[verifier::when_used_as_spec(exhaust_kinetic_power_w_spec)]
    pub fn exhaust_kinetic_power_w(&self) -> (r: F64)
        ensures
            r == self.exhaust_kinetic_power_w(),
    {
        match self {
            CompiledEngine::Liquid(engine) => dec(5, 1) * engine.full_flow_kg_s * engine.exhaust_velocity_mps
                * engine.exhaust_velocity_mps,
            CompiledEngine::Solid(engine) => dec(5, 1) * engine.average_flow_kg_s() * engine.exhaust_velocity_mps
                * engine.exhaust_velocity_mps,
        }
    }

    /// Solid propellant remaining at a burn clock (kg). Liquids have `None`:
    /// their propellant lives in tank parts.
    pub open spec fn remaining(&self, burn_time_s: F64) -> Option<F64> {
        match self {
            CompiledEngine::Liquid(_) => None,
            CompiledEngine::Solid(engine) => if !burn_time_s.is_finite() || burn_time_s <= zero() {
                Some(engine.propellant_mass_kg)
            } else if burn_time_s >= engine.burn_time_s {
                Some(zero())
            } else if engine.burn_curve@.len() == 0 {
                Some(engine.propellant_mass_kg)
            } else {
                Some((engine.propellant_mass_kg - consumed_from(engine.burn_curve@, burn_time_s, 1, zero())).max(zero()))
            },
        }
    }

    /// Solid propellant remaining at a burn clock (kg).
    pub fn propellant_remaining_kg(&self, burn_time_s: F64) -> (r: Option<F64>)
        ensures
            r == self.remaining(burn_time_s),
    {
        match self {
            CompiledEngine::Liquid(_) => None,
            CompiledEngine::Solid(engine) => {
                if !burn_time_s.is_finite() || burn_time_s <= zero() {
                    return Some(engine.propellant_mass_kg);
                }
                if burn_time_s >= engine.burn_time_s {
                    return Some(zero());
                }
                if engine.burn_curve.len() == 0 {
                    return Some(engine.propellant_mass_kg);
                }
                let consumed_kg: F64 = consumed(&engine.burn_curve, burn_time_s);
                Some((engine.propellant_mass_kg - consumed_kg).max(zero()))
            },
        }
    }

    /// [`Self::plume_state`] in contracts.
    pub open spec fn plume_state_spec(&self, point: &EngineOperatingPoint) -> EnginePlumeState {
        let (exit_radius_m, propellant) = match self {
            CompiledEngine::Liquid(engine) => (engine.exit_radius_m, engine.propellant),
            CompiledEngine::Solid(engine) => (engine.exit_radius_m, engine.propellant),
        };
        EnginePlumeState {
            exit_radius_m,
            mass_flow_kg_s: point.mass_flow_kg_s,
            exhaust_velocity_mps: point.exhaust_velocity_mps,
            exit_pressure_pa: point.exit_pressure_pa,
            exit_temp_k: point.exit_temp_k,
            exit_mach: point.exit_mach,
            propellant,
        }
    }

    /// Plume-renderer input state for an operating point plus geometry.
    #[verifier::when_used_as_spec(plume_state_spec)]
    pub fn plume_state(&self, point: &EngineOperatingPoint) -> (r: EnginePlumeState)
        ensures
            r == self.plume_state(point),
    {
        let (exit_radius_m, propellant) = match self {
            CompiledEngine::Liquid(engine) => (engine.exit_radius_m, engine.propellant),
            CompiledEngine::Solid(engine) => (engine.exit_radius_m, engine.propellant),
        };
        EnginePlumeState {
            exit_radius_m,
            mass_flow_kg_s: point.mass_flow_kg_s,
            exhaust_velocity_mps: point.exhaust_velocity_mps,
            exit_pressure_pa: point.exit_pressure_pa,
            exit_temp_k: point.exit_temp_k,
            exit_mach: point.exit_mach,
            propellant,
        }
    }

    /// [`Self::gimbal_range_rad`] in contracts.
    pub open spec fn gimbal_range_rad_spec(&self) -> F64 {
        match self {
            CompiledEngine::Liquid(engine) => engine.gimbal_range_rad,
            CompiledEngine::Solid(engine) => engine.gimbal_range_rad,
        }
    }

    /// Gimbal half-range (rad, 0 = fixed).
    #[verifier::when_used_as_spec(gimbal_range_rad_spec)]
    pub fn gimbal_range_rad(&self) -> (r: F64)
        ensures
            r == self.gimbal_range_rad(),
    {
        match self {
            CompiledEngine::Liquid(engine) => engine.gimbal_range_rad,
            CompiledEngine::Solid(engine) => engine.gimbal_range_rad,
        }
    }
}

fn consumed(curve: &Vec<BurnPoint>, burn_time_s: F64) -> (r: F64)
    ensures
        r == consumed_from(curve@, burn_time_s, 1, zero()),
{
    let n: usize = curve.len();
    let mut used: F64 = zero();
    let mut i: usize = 1;
    while i < n
        invariant
            n == curve@.len(),
            1 <= i,
            consumed_from(curve@, burn_time_s, 1, zero()) == consumed_from(curve@, burn_time_s, i as int, used),
        decreases n - i,
    {
        if curve[i].time_s >= burn_time_s {
            return used + partial_use(curve[i - 1], curve[i], burn_time_s);
        }
        used = used + whole_use(curve[i - 1], curve[i]);
        i = i + 1;
    }
    used
}

} // verus!
