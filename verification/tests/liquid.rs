use propulsion::cycle::EngineCycle;
use propulsion::engine::CompiledEngine;
use propulsion::error::PropulsionError;
use propulsion::float::F64;
use propulsion::liquid::LiquidEngineSpec;
use propulsion::material::{ChamberMaterial, CoolingMode};
use propulsion::nozzle::{characteristic_velocity, NozzleContour};
use propulsion::numerics::Numerics;
use propulsion::propellant::{FluidThermo, Propellant, PropellantThermo};

/// The elementary functions of the machine that runs the tests.
struct Native;

impl Numerics for Native {
    fn powf(&self, x: F64, y: F64) -> F64 {
        f(n(x).powf(n(y)))
    }

    fn powi(&self, x: F64, k: i32) -> F64 {
        f(n(x).powi(k))
    }

    fn exp(&self, x: F64) -> F64 {
        f(n(x).exp())
    }

    fn ln(&self, x: F64) -> F64 {
        f(n(x).ln())
    }

    fn atan(&self, x: F64) -> F64 {
        f(n(x).atan())
    }

    fn cos(&self, x: F64) -> F64 {
        f(n(x).cos())
    }

    fn fixed(&self, x: F64, places: u32) -> String {
        format!("{:.*}", places as usize, n(x))
    }

    fn shortest(&self, x: F64) -> String {
        format!("{}", n(x))
    }
}

fn f(x: f64) -> F64 {
    F64::from_bits(x.to_bits())
}

fn n(x: F64) -> f64 {
    f64::from_bits(x.to_bits())
}

/// Thermo of the reaction-control fluids.
fn fluids() -> FluidThermo {
    let row = |gamma: f64, temp: f64, gas: f64, density: f64, length: f64, c_star: f64| PropellantThermo {
        gamma: f(gamma),
        chamber_temp_k: f(temp),
        gas_constant_j_kg_k: f(gas),
        bulk_density_kg_m3: f(density),
        characteristic_length_m: f(length),
        reference_c_star_mps: f(c_star),
    };
    FluidThermo {
        hydrazine: row(1.27, 1150.0, 640.0, 1010.0, 0.6, 1300.0),
        nitrogen: row(1.4, 300.0, 296.8, 280.0, 0.0, 434.0),
        helium: row(1.667, 300.0, 2077.0, 40.0, 0.0, 1090.0),
    }
}

fn merlin_like() -> LiquidEngineSpec {
    LiquidEngineSpec {
        name: "Merlin-1D class".into(),
        propellant: Propellant::LoxRp1,
        cycle: EngineCycle::GasGenerator,
        chamber_pressure_pa: f(9.7e6),
        throat_radius_m: f(0.134),
        expansion_ratio: f(16.0),
        nozzle_length_m: f(1.5),
        contour: NozzleContour::Bell,
        chamber_material: ChamberMaterial::nickel_superalloy(),
        cooling: CoolingMode::Regenerative,
        mixture_ratio: None,
        characteristic_length_m: None,
        gimbal_range_rad: f(0.09),
        min_throttle: None,
        restartable: true,
    }
}

fn compiled(spec: LiquidEngineSpec) -> CompiledEngine {
    CompiledEngine::Liquid(spec.compile(&Native, &fluids()).expect("compile"))
}

fn merlin_golden() {
    // A Merlin-1D-class spec (Pc 9.7 MPa, eps 16, kerolox GG) must reproduce
    // published 845 kN SL / 914 kN vac and 282 s / 311 s within 5%, and land in the
    // published dry-mass band.
    let engine = compiled(merlin_like());
    let sl = engine.operating_point(&Native, f(1.0), f(101_325.0), f(0.0)).expect("sea-level point");
    let vac = engine.operating_point(&Native, f(1.0), f(0.0), f(0.0)).expect("vacuum point");
    for (actual, published, label) in [
        (n(sl.thrust_n), 845_000.0, "SL thrust"),
        (n(vac.thrust_n), 914_000.0, "vac thrust"),
        (n(sl.isp_s), 282.0, "SL Isp"),
        (n(vac.isp_s), 311.0, "vac Isp"),
    ] {
        let error: f64 = (actual - published).abs() / published;
        assert!(error < 0.05, "{label}: {actual:.0} vs {published:.0}");
    }
    let mass = n(engine.dry_mass_kg());
    assert!((200.0..=700.0).contains(&mass), "dry mass {mass:.0} kg outside the Merlin band");
    assert!(vac.thrust_n > sl.thrust_n);
    assert!(vac.isp_s > sl.isp_s);
    assert!(!sl.separation_risk);
}

#[test]
fn propulsion_merlin_class_golden_data() {
    merlin_golden();
}

#[test]
fn liquid_merlin_class_golden_data() {
    merlin_golden();
}

fn throttle_linearity() {
    let engine = compiled(merlin_like());
    let full = engine.operating_point(&Native, f(1.0), f(0.0), f(0.0)).expect("full");
    let half = engine.operating_point(&Native, f(0.5), f(0.0), f(0.0)).expect("half");
    assert!((n(half.thrust_n) * 2.0 - n(full.thrust_n)).abs() / n(full.thrust_n) < 1e-12);
    assert!((n(half.mass_flow_kg_s) * 2.0 - n(full.mass_flow_kg_s)).abs() / n(full.mass_flow_kg_s) < 1e-12);
    assert!((n(half.isp_s) - n(full.isp_s)).abs() / n(full.isp_s) < 1e-12);
}

#[test]
fn propulsion_vacuum_sea_level_ordering_and_throttle_linearity() {
    throttle_linearity();
}

#[test]
fn liquid_vacuum_sea_level_ordering_and_throttle_linearity() {
    throttle_linearity();
}

fn separation_flag() {
    // A big vacuum bell at sea level must trip Summerfield.
    let spec = LiquidEngineSpec { expansion_ratio: f(80.0), ..merlin_like() };
    let engine = compiled(spec);
    let sl = engine.operating_point(&Native, f(1.0), f(101_325.0), f(0.0)).expect("point");
    assert!(sl.separation_risk, "eps-80 bell at SL must flag");
    let vac = engine.operating_point(&Native, f(1.0), f(0.0), f(0.0)).expect("vac");
    assert!(!vac.separation_risk);
}

#[test]
fn propulsion_overexpanded_nozzle_flags_separation() {
    separation_flag();
}

#[test]
fn liquid_overexpanded_nozzle_flags_separation() {
    separation_flag();
}

fn aerospike_altitudes() {
    // An aerospike keeps sea-level thrust within 3% of vacuum and never flags
    // separation; base drag is the only altitude term.
    let spike = compiled(LiquidEngineSpec { contour: NozzleContour::Aerospike, ..merlin_like() });
    let bell = compiled(merlin_like());
    let spike_sl = spike.operating_point(&Native, f(1.0), f(101_325.0), f(0.0)).expect("spike SL");
    let spike_vac = spike.operating_point(&Native, f(1.0), f(0.0), f(0.0)).expect("spike vac");
    let bell_sl = bell.operating_point(&Native, f(1.0), f(101_325.0), f(0.0)).expect("bell SL");
    let bell_vac = bell.operating_point(&Native, f(1.0), f(0.0), f(0.0)).expect("bell vac");
    assert!(!spike_sl.separation_risk);
    let spike_drop = (n(spike_vac.thrust_n) - n(spike_sl.thrust_n)) / n(spike_vac.thrust_n);
    let bell_drop = (n(bell_vac.thrust_n) - n(bell_sl.thrust_n)) / n(bell_vac.thrust_n);
    assert!(spike_drop < 0.03, "aerospike drop {spike_drop:.3} too large");
    assert!(bell_drop > 0.05, "bell control must lose thrust at SL");
    // SL loss equals ambient times base area.
    let expected = 101_325.0
        * match &spike {
            CompiledEngine::Liquid(liquid) => n(liquid.aerospike_base_area_m2),
            CompiledEngine::Solid(_) => 0.0,
        };
    assert!(((n(spike_vac.thrust_n) - n(spike_sl.thrust_n)) - expected).abs() / expected < 1e-9);
}

#[test]
fn propulsion_aerospike_holds_thrust_across_altitudes() {
    aerospike_altitudes();
}

#[test]
fn liquid_aerospike_holds_thrust_across_altitudes() {
    aerospike_altitudes();
}

fn pressure_gates() {
    let fed = LiquidEngineSpec { cycle: EngineCycle::PressureFed, ..merlin_like() };
    assert!(fed.compile(&Native, &fluids()).is_err());
    let rad = LiquidEngineSpec { cooling: CoolingMode::Radiative, ..merlin_like() };
    assert!(rad.compile(&Native, &fluids()).is_err());
    // But the same geometry at 2 MPa pressure-fed compiles.
    let small = LiquidEngineSpec {
        cycle: EngineCycle::PressureFed,
        chamber_pressure_pa: f(2.0e6),
        ..merlin_like()
    };
    assert!(small.compile(&Native, &fluids()).is_ok());
}

#[test]
fn propulsion_cycle_pressure_caps_and_cooling_gates_fire() {
    pressure_gates();
}

#[test]
fn liquid_cycle_pressure_caps_and_cooling_gates_fire() {
    pressure_gates();
}

fn nan_closed() {
    let mut spec = merlin_like();
    spec.chamber_pressure_pa = f(f64::NAN);
    assert!(spec.compile(&Native, &fluids()).is_err());
    let engine = compiled(merlin_like());
    assert!(engine.operating_point(&Native, f(f64::NAN), f(0.0), f(0.0)).is_err());
    assert!(engine.operating_point(&Native, f(1.0), f(f64::NAN), f(0.0)).is_err());
}

#[test]
fn propulsion_nan_inputs_fail_closed() {
    nan_closed();
}

#[test]
fn liquid_nan_inputs_fail_closed() {
    nan_closed();
}

fn bell_and_cone() {
    // Bell recovers part of the divergence loss: strictly better, within 1%.
    let cone = compiled(LiquidEngineSpec { contour: NozzleContour::Conical, ..merlin_like() });
    let bell = compiled(merlin_like());
    let cone_vac = cone.operating_point(&Native, f(1.0), f(0.0), f(0.0)).expect("cone vac");
    let bell_vac = bell.operating_point(&Native, f(1.0), f(0.0), f(0.0)).expect("bell vac");
    assert!(bell_vac.thrust_n > cone_vac.thrust_n);
    let gain = (n(bell_vac.thrust_n) - n(cone_vac.thrust_n)) / n(cone_vac.thrust_n);
    assert!(gain < 0.01, "bell recovery {gain:.4} exceeds envelope");
}

#[test]
fn propulsion_bell_beats_cone_within_envelope() {
    bell_and_cone();
}

#[test]
fn liquid_bell_beats_cone_within_envelope() {
    bell_and_cone();
}

fn reference_mixture_design() {
    let plain = merlin_like().compile(&Native, &fluids()).expect("plain");
    let explicit = LiquidEngineSpec { mixture_ratio: Some(f(2.7)), ..merlin_like() }
        .compile(&Native, &fluids())
        .expect("explicit ref");
    assert!((n(explicit.thrust_vac_n) - n(plain.thrust_vac_n)).abs() / n(plain.thrust_vac_n) < 1e-12);
}

#[test]
fn propulsion_mixture_reference_reproduces_design_point() {
    // The middle table row is the reference point exactly: an explicit reference
    // ratio must compile to the same engine as `None`.
    for propellant in [Propellant::LoxRp1, Propellant::LoxMethane, Propellant::LoxHydrogen, Propellant::NtoMmh] {
        let reference = propellant.reference_mixture_ratio().expect("ref ratio");
        let at_ref = propellant
            .thermo_at_mixture(&Native, &fluids(), Some(reference))
            .expect("reference ratio compiles");
        assert_eq!(at_ref, propellant.thermo());
    }
    reference_mixture_design();
}

#[test]
fn liquid_mixture_reference_reproduces_design_point() {
    reference_mixture_design();
}

fn mixture_direction() {
    // Fuel-rich hydrolox carries more light H2 in the products: c* rises.
    let h2 = Propellant::LoxHydrogen;
    let rich = h2.thermo_at_mixture(&Native, &fluids(), Some(f(4.5))).expect("fuel-rich");
    let reference = h2.thermo();
    let rich_c_star = n(characteristic_velocity(&Native, &rich));
    let reference_c_star = n(characteristic_velocity(&Native, &reference));
    assert!(rich_c_star > reference_c_star);
    let gain = (rich_c_star - reference_c_star) / reference_c_star;
    assert!(gain < 0.08, "mixture c* gain {gain:.3} exceeds the table envelope");

    // Oxidizer-rich methane cools and heavies the flow: Isp must drop.
    let mk = |ratio: Option<f64>| {
        compiled(LiquidEngineSpec {
            name: "mixture probe".into(),
            propellant: Propellant::LoxMethane,
            cycle: EngineCycle::StagedCombustion,
            chamber_pressure_pa: f(20.0e6),
            throat_radius_m: f(0.15),
            expansion_ratio: f(35.0),
            nozzle_length_m: f(1.8),
            contour: NozzleContour::Bell,
            chamber_material: ChamberMaterial::nickel_superalloy(),
            cooling: CoolingMode::Regenerative,
            mixture_ratio: ratio.map(f),
            characteristic_length_m: None,
            gimbal_range_rad: f(0.0),
            min_throttle: None,
            restartable: true,
        })
    };
    let ref_isp = n(mk(None).operating_point(&Native, f(1.0), f(0.0), f(0.0)).expect("ref point").isp_s);
    let ox_isp = n(mk(Some(4.2)).operating_point(&Native, f(1.0), f(0.0), f(0.0)).expect("ox-rich point").isp_s);
    assert!(ox_isp < ref_isp, "oxidizer-rich methalox must lose Isp");
    assert!((ref_isp - ox_isp) / ref_isp < 0.08);
}

#[test]
fn propulsion_mixture_shifts_performance_in_documented_direction() {
    mixture_direction();
    // Outside the table and on solids: refusal, not extrapolation.
    assert!(Propellant::LoxHydrogen.thermo_at_mixture(&Native, &fluids(), Some(f(9.0))).is_err());
    assert!(Propellant::SolidApcp.thermo_at_mixture(&Native, &fluids(), Some(f(1.0))).is_err());
}

#[test]
fn liquid_mixture_shifts_performance_in_documented_direction() {
    mixture_direction();
}

#[test]
fn liquid_refusals_name_their_reason() {
    let message = |spec: LiquidEngineSpec| match spec.compile(&Native, &fluids()) {
        Ok(_) => panic!("must be refused"),
        Err(error) => error.message(),
    };
    assert_eq!(
        message(LiquidEngineSpec { name: " \t\u{3000}".into(), ..merlin_like() }),
        "invalid engine spec: engine name must not be empty"
    );
    assert_eq!(
        message(LiquidEngineSpec { propellant: Propellant::SolidApcp, ..merlin_like() }),
        "invalid engine spec: solid propellant needs a grain spec, not a liquid spec"
    );
    assert_eq!(
        message(LiquidEngineSpec { throat_radius_m: f(0.0), ..merlin_like() }),
        "invalid engine spec: throat radius must be finite and > 0"
    );
    assert_eq!(
        message(LiquidEngineSpec { expansion_ratio: f(0.5), ..merlin_like() }),
        "invalid engine spec: expansion ratio must be finite and >= 1"
    );
    assert_eq!(
        message(LiquidEngineSpec { gimbal_range_rad: f(-0.1), ..merlin_like() }),
        "invalid engine spec: gimbal range must be finite and >= 0"
    );
    assert_eq!(
        message(LiquidEngineSpec { gimbal_range_rad: f(0.4), ..merlin_like() }),
        "invalid engine spec: gimbal range above 0.35 rad needs an explicit actuator design"
    );
    assert_eq!(
        message(LiquidEngineSpec { min_throttle: Some(f(1.5)), ..merlin_like() }),
        "invalid engine spec: min throttle must be finite in [0, 1]"
    );
    assert_eq!(
        message(LiquidEngineSpec { min_throttle: Some(f(0.3)), ..merlin_like() }),
        "unsupported engine combination: GasGenerator cannot run stably below throttle 0.40"
    );
    assert_eq!(
        message(LiquidEngineSpec { characteristic_length_m: Some(f(0.0)), ..merlin_like() }),
        "invalid engine spec: characteristic length must be finite and > 0"
    );
    assert_eq!(
        message(LiquidEngineSpec { mixture_ratio: Some(f(5.25)), ..merlin_like() }),
        "invalid engine spec: mixture ratio 5.25 outside the modeled range [2, 3.4]"
    );
    assert_eq!(
        message(LiquidEngineSpec { mixture_ratio: Some(f(f64::INFINITY)), ..merlin_like() }),
        "invalid engine spec: mixture ratio must be finite"
    );
    assert_eq!(
        message(LiquidEngineSpec { chamber_pressure_pa: f(22.5e6), ..merlin_like() }),
        "unsupported engine combination: GasGenerator feed cannot sustain 22.50 MPa (cap 21.0 MPa)"
    );
    assert_eq!(
        message(LiquidEngineSpec { cooling: CoolingMode::Radiative, ..merlin_like() }),
        "unsupported engine combination: radiative cooling cannot reject the heat flux at 9.70 MPa (cap 8.0 MPa)"
    );
    assert_eq!(
        message(LiquidEngineSpec { propellant: Propellant::ColdGasHelium, ..merlin_like() }),
        "invalid engine spec: cold gas has no chamber to size"
    );
    assert!(matches!(
        LiquidEngineSpec { nozzle_length_m: f(f64::NAN), ..merlin_like() }.validate(&Native),
        Err(PropulsionError::InvalidSpec(_))
    ));
}

#[test]
fn liquid_design_follows_the_native_formulas() {
    let spec = LiquidEngineSpec { cycle: EngineCycle::ElectricPump, ..merlin_like() };
    let engine = spec.compile(&Native, &fluids()).expect("compile");
    let throat = std::f64::consts::PI * 0.134 * 0.134;
    assert_eq!(n(engine.throat_area_m2), throat);
    assert_eq!(n(engine.exit_radius_m), 0.134 * 16.0_f64.sqrt());
    assert_eq!(n(engine.exit_area_m2), throat * 16.0);
    let gamma = 1.24_f64;
    let gamma_fn = gamma.sqrt() * (2.0 / (gamma + 1.0)).powf((gamma + 1.0) / (2.0 * (gamma - 1.0)));
    let c_star = (378.0_f64 * 3670.0).sqrt() / gamma_fn;
    assert_eq!(n(engine.c_star_mps), c_star);
    let flow = 9.7e6 * throat / c_star;
    assert_eq!(n(engine.full_flow_kg_s), flow + 0.0 * flow);
    assert_eq!(n(engine.gg_thrust_vac_n), 0.0);
    let slope: f64 = (0.134 * 16.0_f64.sqrt() - 0.134) / 1.5;
    assert_eq!(n(engine.wall_angle_rad), slope.atan());
    let conical = 0.5 * (1.0 + slope.atan().cos());
    assert_eq!(n(engine.divergence_factor), conical + (1.0 - conical) * 0.5);
    let pump = n(engine.full_flow_kg_s) * (9.7e6 - 300_000.0) / (1030.0 * 0.6);
    assert_eq!(n(engine.pump_power_w), pump);
    assert_eq!(n(engine.feed_pressure_required_pa), 9.7e6 * 1.2);
    assert_eq!(n(engine.min_throttle), 0.35);
    assert_eq!(n(engine.spool_tau_s), 0.3);
    assert_eq!(n(engine.kinetic_efficiency), 1.0);
    let diameter = (4.0 * (1.1 * throat) / (std::f64::consts::PI * 1.2)).powf(1.0 / 3.0);
    assert_eq!(n(engine.chamber_diameter_m), diameter);
    assert_eq!(n(engine.wall_thickness_m), 9.7e6 * diameter / (2.0 * 1000.0e6) * 1.5);
}
