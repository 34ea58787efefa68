use propulsion::cycle::EngineCycle;
use propulsion::float::F64;
use propulsion::liquid::LiquidEngineSpec;
use propulsion::material::{ChamberMaterial, CoolingMode};
use propulsion::nozzle::NozzleContour;
use propulsion::numerics::Numerics;
use propulsion::propellant::{FluidThermo, Propellant, PropellantThermo};
use propulsion::rcs::{
    deliver_pulse, rcs_default_min_on_time_s, rcs_default_rise_time_s, ColdGasThrusterSpec, CompiledColdGas,
    CompiledMonoprop, MonopropThrusterSpec, RcsCluster, RcsMount, RcsThruster,
};
use propulsion::vector::Vector;

/// The elementary functions of the machine that runs the tests.
struct Native;

impl Numerics for Native {
    fn powf(&self, x: F64, y: F64) -> F64 {
        f(n(x).powf(n(y)))
    }

    fn powi(&self, x: F64, k: i32) -> F64 {
        f(n(x).powi(k))
    }

    fn exp(&self, x: F64) -> F64 {
        f(n(x).exp())
    }

    fn ln(&self, x: F64) -> F64 {
        f(n(x).ln())
    }

    fn atan(&self, x: F64) -> F64 {
        f(n(x).atan())
    }

    fn cos(&self, x: F64) -> F64 {
        f(n(x).cos())
    }

    fn fixed(&self, x: F64, places: u32) -> String {
        format!("{:.*}", places as usize, n(x))
    }

    fn shortest(&self, x: F64) -> String {
        format!("{}", n(x))
    }
}

fn f(x: f64) -> F64 {
    F64::from_bits(x.to_bits())
}

fn n(x: F64) -> f64 {
    f64::from_bits(x.to_bits())
}

fn v(x: f64, y: f64, z: f64) -> Vector {
    Vector::new(f(x), f(y), f(z))
}

/// Decomposed hydrazine.
fn hydrazine() -> PropellantThermo {
    PropellantThermo {
        gamma: f(1.27),
        chamber_temp_k: f(1200.0),
        gas_constant_j_kg_k: f(640.0),
        bulk_density_kg_m3: f(1004.0),
        characteristic_length_m: f(0.8),
        reference_c_star_mps: f(1320.0),
    }
}

/// Nitrogen as an ideal diatomic gas.
fn nitrogen() -> PropellantThermo {
    PropellantThermo {
        gamma: f(1.4),
        chamber_temp_k: f(300.0),
        gas_constant_j_kg_k: f(296.8),
        bulk_density_kg_m3: f(280.0),
        characteristic_length_m: f(0.0),
        reference_c_star_mps: f(434.0),
    }
}

/// Thermo of the reaction-control fluids.
fn fluids() -> FluidThermo {
    let helium = PropellantThermo { gamma: f(1.667), gas_constant_j_kg_k: f(2077.0), ..nitrogen() };
    FluidThermo { hydrazine: hydrazine(), nitrogen: nitrogen(), helium }
}

fn hydrazine_spec() -> MonopropThrusterSpec {
    MonopropThrusterSpec {
        name: "R-10".into(),
        chamber_pressure_pa: f(1.0e6),
        throat_radius_m: f(0.002),
        expansion_ratio: f(60.0),
        nozzle_length_m: f(0.06),
        contour: NozzleContour::Conical,
        material: ChamberMaterial::regen_alloy(),
        valve_rise_time_s: rcs_default_rise_time_s(),
        min_on_time_s: rcs_default_min_on_time_s(),
    }
}

fn hydrazine_10n() -> CompiledMonoprop {
    hydrazine_spec().compile(&Native, &fluids()).expect("hydrazine compiles")
}

fn nitrogen_spec() -> ColdGasThrusterSpec {
    ColdGasThrusterSpec {
        name: "N2-11N".into(),
        gas: Propellant::ColdGasNitrogen,
        storage_temp_k: f(300.0),
        rated_pressure_pa: f(2.0e6),
        throat_radius_m: f(0.001),
        expansion_ratio: f(10.0),
        nozzle_length_m: f(0.02),
        contour: NozzleContour::Conical,
        material: ChamberMaterial::regen_alloy(),
        valve_rise_time_s: rcs_default_rise_time_s(),
        min_on_time_s: rcs_default_min_on_time_s(),
    }
}

fn nitrogen_coldgas() -> CompiledColdGas {
    nitrogen_spec().compile(&Native, &fluids()).expect("cold gas compiles")
}

#[test]
fn hydrazine_isp_band_and_mib() {
    let thruster = hydrazine_10n();
    let steady = thruster.steady_point(&Native, f(0.0)).expect("steady");
    assert!((210.0..=235.0).contains(&n(steady.isp_s)), "hydrazine Isp {} s outside the band", n(steady.isp_s));
    let mib = n(thruster.min_impulse_bit_ns(&Native));
    assert!(mib > 0.0);
    let full = n(thruster.pulse(&Native, f(1.0), f(0.0)).expect("1 s pulse").impulse_ns);
    assert!(mib < 0.05 * full, "MIB must be a small fraction of a 1 s burn");
}

#[test]
fn cold_gas_nitrogen_band_and_pressure_scaling() {
    let thruster = nitrogen_coldgas();
    assert!(
        (65.0..=85.0).contains(&n(thruster.rated_isp_vac_s)),
        "N2 Isp {} s outside the band",
        n(thruster.rated_isp_vac_s)
    );
    let full = thruster.steady_point(&Native, f(2.0e6), f(0.0)).expect("rated point");
    let half = thruster.steady_point(&Native, f(1.0e6), f(0.0)).expect("half pressure");
    assert!((n(half.thrust_n) * 2.0 - n(full.thrust_n)).abs() / n(full.thrust_n) < 1e-12);
    assert!((n(half.mass_flow_kg_s) * 2.0 - n(full.mass_flow_kg_s)).abs() / n(full.mass_flow_kg_s) < 1e-12);
    assert!((n(half.isp_s) - n(full.isp_s)).abs() / n(full.isp_s) < 1e-12);
    // Less tank pressure, less thrust.
    let low = thruster.steady_point(&Native, f(0.5e6), f(0.0)).expect("low");
    assert!(low.thrust_n < half.thrust_n);
}

#[test]
fn pulse_rise_shape_and_long_pulse_efficiency() {
    let thruster = hydrazine_10n();
    let tiny = thruster.pulse(&Native, f(0.0025), f(0.0)).expect("tiny");
    let half_tiny = thruster.pulse(&Native, f(0.00125), f(0.0)).expect("half tiny");
    assert!(
        (n(half_tiny.impulse_ns) * 4.0 - n(tiny.impulse_ns)).abs() / n(tiny.impulse_ns) < 1e-9,
        "sub-rise pulses must scale quadratically"
    );
    let steady_isp = n(thruster.steady_point(&Native, f(0.0)).expect("steady").isp_s);
    let long = thruster.pulse(&Native, f(1.0), f(0.0)).expect("long");
    assert!((n(long.effective_isp_s) - steady_isp).abs() / steady_isp < 0.005);
    assert!(n(thruster.pulse(&Native, f(0.0), f(0.0)).expect("zero").impulse_ns) == 0.0);
    let bad = MonopropThrusterSpec {
        name: "bad".into(),
        chamber_pressure_pa: f(1.0e6),
        throat_radius_m: f(0.002),
        expansion_ratio: f(40.0),
        nozzle_length_m: f(0.03),
        contour: NozzleContour::Conical,
        material: ChamberMaterial::regen_alloy(),
        valve_rise_time_s: rcs_default_rise_time_s(),
        min_on_time_s: f(0.001),
    };
    assert!(bad.compile(&Native, &fluids()).is_err());
}

fn opposed_pair() -> RcsCluster {
    let mono = RcsThruster::Monoprop(hydrazine_10n());
    RcsCluster {
        mounts: vec![
            RcsMount {
                name: "a".into(),
                thruster: mono.clone(),
                position_body_m: v(0.0, 0.0, 1.0),
                direction_body: v(1.0, 0.0, 0.0),
            },
            RcsMount {
                name: "b".into(),
                thruster: mono,
                position_body_m: v(0.0, 0.0, -1.0),
                direction_body: v(-1.0, 0.0, 0.0),
            },
        ],
    }
}

#[test]
fn opposed_pair_delivers_pure_couple() {
    // Two opposed thrusters on a 2 m arm: force cancels, moment doubles.
    let cluster = opposed_pair();
    let (force, moment) = cluster.impulse(&Native, &vec![f(0.1), f(0.1)], f(1.0e6), f(0.0)).expect("fire");
    assert!(n(force.length()) < 1e-9, "opposed pair must cancel force");
    let single = n(hydrazine_10n().pulse(&Native, f(0.1), f(0.0)).expect("single").impulse_ns);
    assert!((n(moment.y) - 2.0 * single).abs() / (2.0 * single) < 1e-9);
    assert!(n(moment.x).abs() < 1e-9 && n(moment.z).abs() < 1e-9);
    // Steady wrench at half duty is half the full wrench.
    let (half_f, _) = cluster.steady_wrench(&Native, &vec![f(0.5), f(0.0)], f(1.0e6), f(0.0)).expect("half");
    let (full_f, _) = cluster.steady_wrench(&Native, &vec![f(1.0), f(0.0)], f(1.0e6), f(0.0)).expect("full");
    assert!((n(half_f.length()) * 2.0 - n(full_f.length())).abs() / n(full_f.length()) < 1e-12);
}

#[test]
fn cold_gas_rejected_from_liquid_path() {
    // Cold gas has no chamber to size: the liquid spec must refuse it.
    let spec = LiquidEngineSpec {
        name: "cold".into(),
        propellant: Propellant::ColdGasNitrogen,
        cycle: EngineCycle::PressureFed,
        chamber_pressure_pa: f(1.0e6),
        throat_radius_m: f(0.001),
        expansion_ratio: f(5.0),
        nozzle_length_m: f(0.02),
        contour: NozzleContour::Conical,
        chamber_material: ChamberMaterial::regen_alloy(),
        cooling: CoolingMode::Regenerative,
        mixture_ratio: None,
        characteristic_length_m: None,
        gimbal_range_rad: f(0.0),
        min_throttle: None,
        restartable: true,
    };
    assert!(spec.compile(&Native, &fluids()).is_err());
}

#[test]
fn pulse_delivery_follows_the_native_formulas() {
    let short = deliver_pulse(f(10.0), f(0.005), f(0.004), f(0.005));
    assert_eq!(n(short.impulse_ns), 10.0 * 0.004 * 0.004 / (2.0 * 0.005));
    assert_eq!(n(short.propellant_kg), 0.005 * 0.004);
    assert_eq!(n(short.effective_isp_s), n(short.impulse_ns) / (0.005 * 0.004 * 9.80665));
    let long = deliver_pulse(f(10.0), f(0.005), f(0.1), f(0.005));
    assert_eq!(n(long.impulse_ns), 10.0 * (0.1 - 0.005 / 2.0));
    let none = deliver_pulse(f(10.0), f(0.0), f(0.1), f(0.005));
    assert_eq!(n(none.effective_isp_s), 0.0);
}

#[test]
fn rcs_refusals_name_their_reason() {
    let cluster = opposed_pair();
    let text = |result: Result<(Vector, Vector), propulsion::error::PropulsionError>| match result {
        Ok(_) => panic!("must be refused"),
        Err(error) => error.message(),
    };
    assert_eq!(
        text(cluster.impulse(&Native, &vec![f(0.1); 12], f(1.0e6), f(0.0))),
        "invalid engine command: expected 2 on-times, got 12"
    );
    assert_eq!(
        text(cluster.steady_wrench(&Native, &Vec::new(), f(1.0e6), f(0.0))),
        "invalid engine command: expected 2 duties, got 0"
    );
    assert_eq!(
        text(cluster.steady_wrench(&Native, &vec![f(0.5), f(1.5)], f(1.0e6), f(0.0))),
        "invalid engine command: duty must be finite in [0, 1]"
    );
    assert_eq!(
        text(cluster.steady_wrench(&Native, &vec![f(-0.5), f(0.5)], f(1.0e6), f(0.0))),
        "invalid engine spec: duty must be finite and >= 0"
    );
    assert_eq!(
        text(cluster.impulse(&Native, &vec![f(0.1), f(f64::NAN)], f(1.0e6), f(0.0))),
        "invalid engine command: pulse on-time must be finite and >= 0"
    );
    assert_eq!(
        text(RcsCluster { mounts: Vec::new() }.impulse(&Native, &Vec::new(), f(1.0e6), f(0.0))),
        "invalid engine spec: RCS cluster needs at least one mount"
    );
    let mut crooked = opposed_pair();
    crooked.mounts[1].direction_body = v(1.0, 1.0, 0.0);
    assert_eq!(
        text(crooked.impulse(&Native, &vec![f(0.1), f(0.1)], f(1.0e6), f(0.0))),
        "invalid engine spec: RCS direction must be unit length"
    );
    let wrong = ColdGasThrusterSpec { gas: Propellant::LoxRp1, ..nitrogen_spec() };
    match wrong.compile(&Native, &fluids()) {
        Err(error) => {
            assert_eq!(error.message(), "invalid engine spec: cold-gas thruster needs a cold-gas propellant")
        }
        Ok(_) => panic!("must be refused"),
    }
    let thruster = nitrogen_coldgas();
    let error = thruster.steady_point(&Native, f(f64::NAN), f(0.0)).expect_err("inlet");
    assert_eq!(error.message(), "invalid engine command: inlet pressure must be finite and >= 0");
    let error = thruster.steady_point(&Native, f(1.0e6), f(-1.0)).expect_err("ambient");
    assert_eq!(error.message(), "invalid engine command: ambient pressure must be finite and >= 0");
    let empty = thruster.steady_point(&Native, f(0.0), f(0.0)).expect("empty tank");
    assert_eq!(n(empty.thrust_n), 0.0);
}

#[test]
fn mixed_cluster_uses_inlet_pressure_and_bakes_monopropellant_only() {
    let mut cluster = opposed_pair();
    let baked = cluster.baked_monoprop_mounts().expect("bakes");
    assert_eq!(baked.len(), 2);
    assert_eq!(baked[1].name, "b");
    assert_eq!(baked[1].thrust_axis_body, v(-1.0, 0.0, 0.0));
    baked[0].validate().expect("baked mount validates");
    cluster.mounts[1].thruster = RcsThruster::ColdGas(nitrogen_coldgas());
    let error = cluster.baked_monoprop_mounts().expect_err("cold gas");
    assert_eq!(error.message(), "unsupported engine combination: cold-gas member b has no baked chamber model");
    let (force, _) = cluster.impulse(&Native, &vec![f(0.0), f(0.1)], f(1.0e6), f(0.0)).expect("fire");
    let cold = n(nitrogen_coldgas().pulse(&Native, f(0.1), f(1.0e6), f(0.0)).expect("pulse").impulse_ns);
    assert_eq!(n(force.x), -cold);
    assert_eq!(cluster.mounts[1].thruster.name(), "N2-11N");
    assert_eq!(cluster.mounts[0].thruster.name(), "R-10");
    let bit = n(cluster.mounts[1].thruster.min_impulse_bit_ns(&Native, f(2.0e6)));
    assert_eq!(bit, n(nitrogen_coldgas().min_impulse_bit_ns(&Native)));
    assert_eq!(
        n(cluster.mounts[0].thruster.min_impulse_bit_ns(&Native, f(5.0))),
        n(hydrazine_10n().min_impulse_bit_ns(&Native))
    );
}

#[test]
fn hydrazine_chambers_read_the_thermo_they_are_given() {
    let spec = LiquidEngineSpec {
        name: "catalyst bed".into(),
        propellant: Propellant::MonopropHydrazine,
        cycle: EngineCycle::PressureFed,
        chamber_pressure_pa: f(1.0e6),
        throat_radius_m: f(0.002),
        expansion_ratio: f(60.0),
        nozzle_length_m: f(0.06),
        contour: NozzleContour::Conical,
        chamber_material: ChamberMaterial::regen_alloy(),
        cooling: CoolingMode::Regenerative,
        mixture_ratio: None,
        characteristic_length_m: None,
        gimbal_range_rad: f(0.0),
        min_throttle: Some(f(1.0)),
        restartable: true,
    };
    assert!(spec.validate(&Native).is_ok());
    let engine = spec.compile(&Native, &fluids()).expect("hydrazine compiles");
    assert_eq!((n(engine.gamma), n(engine.chamber_temp_k), n(engine.gas_constant_j_kg_k)), (1.27, 1200.0, 640.0));
    assert_eq!(engine.thrust_vac_n, hydrazine_10n().engine.thrust_vac_n);
    let hotter = FluidThermo { hydrazine: PropellantThermo { chamber_temp_k: f(1300.0), ..hydrazine() }, ..fluids() };
    assert!(n(spec.compile(&Native, &hotter).expect("hotter").isp_vac_s) > n(engine.isp_vac_s));
    let helium = ColdGasThrusterSpec { gas: Propellant::ColdGasHelium, ..nitrogen_spec() };
    let helium = helium.compile(&Native, &fluids()).expect("helium compiles");
    assert_eq!((n(helium.gamma), n(helium.gas_constant_j_kg_k)), (1.667, 2077.0));
    assert_eq!(
        Propellant::MonopropHydrazine.thermo_at_mixture(&Native, &fluids(), None).expect("fixed"),
        hydrazine()
    );
    assert!(Propellant::MonopropHydrazine.thermo_at_mixture(&Native, &fluids(), Some(f(1.0))).is_err());
}
