use propulsion::cycle::EngineCycle;
use propulsion::engine::CompiledEngine;
use propulsion::error::PropulsionError;
use propulsion::float::F64;
use propulsion::liquid::{CompiledLiquid, LiquidEngineSpec};
use propulsion::material::{ChamberMaterial, CoolingMode};
use propulsion::nozzle::NozzleContour;
use propulsion::numerics::Numerics;
use propulsion::propellant::{FluidThermo, Propellant, PropellantThermo};
use propulsion::solid::{CompiledSolid, SolidMotorSpec};
use propulsion::spool::{advance_spool, EngineSpool};

/// The elementary functions of the machine that runs the tests.
struct Native;

impl Numerics for Native {
    fn powf(&self, x: F64, y: F64) -> F64 {
        f(n(x).powf(n(y)))
    }

    fn powi(&self, x: F64, k: i32) -> F64 {
        f(n(x).powi(k))
    }

    fn exp(&self, x: F64) -> F64 {
        f(n(x).exp())
    }

    fn ln(&self, x: F64) -> F64 {
        f(n(x).ln())
    }

    fn atan(&self, x: F64) -> F64 {
        f(n(x).atan())
    }

    fn cos(&self, x: F64) -> F64 {
        f(n(x).cos())
    }

    fn fixed(&self, x: F64, places: u32) -> String {
        format!("{:.*}", places as usize, n(x))
    }

    fn shortest(&self, x: F64) -> String {
        format!("{}", n(x))
    }
}

fn f(x: f64) -> F64 {
    F64::from_bits(x.to_bits())
}

fn n(x: F64) -> f64 {
    f64::from_bits(x.to_bits())
}

/// Thermo of the reaction-control fluids.
fn fluids() -> FluidThermo {
    let row = |gamma: f64, temp: f64, gas: f64, density: f64, length: f64, c_star: f64| PropellantThermo {
        gamma: f(gamma),
        chamber_temp_k: f(temp),
        gas_constant_j_kg_k: f(gas),
        bulk_density_kg_m3: f(density),
        characteristic_length_m: f(length),
        reference_c_star_mps: f(c_star),
    };
    FluidThermo {
        hydrazine: row(1.27, 1150.0, 640.0, 1010.0, 0.6, 1300.0),
        nitrogen: row(1.4, 300.0, 296.8, 280.0, 0.0, 434.0),
        helium: row(1.667, 300.0, 2077.0, 40.0, 0.0, 1090.0),
    }
}

fn merlin_like() -> LiquidEngineSpec {
    LiquidEngineSpec {
        name: "Merlin-1D class".into(),
        propellant: Propellant::LoxRp1,
        cycle: EngineCycle::GasGenerator,
        chamber_pressure_pa: f(9.7e6),
        throat_radius_m: f(0.134),
        expansion_ratio: f(16.0),
        nozzle_length_m: f(1.5),
        contour: NozzleContour::Bell,
        chamber_material: ChamberMaterial::nickel_superalloy(),
        cooling: CoolingMode::Regenerative,
        mixture_ratio: None,
        characteristic_length_m: None,
        gimbal_range_rad: f(0.09),
        min_throttle: None,
        restartable: true,
    }
}

fn probe_solid() -> CompiledSolid {
    let (a, exponent) = SolidMotorSpec::apcp_ballistics();
    SolidMotorSpec {
        name: "validate probe".into(),
        propellant: Propellant::SolidApcp,
        outer_radius_m: f(0.5),
        core_radius_m: f(0.32),
        segment_length_m: f(1.5),
        segments: 2,
        burn_rate_coeff: a,
        burn_rate_exponent: exponent,
        throat_radius_m: f(0.12),
        expansion_ratio: f(8.0),
        nozzle_length_m: f(0.8),
        contour: NozzleContour::Conical,
        casing_material: ChamberMaterial::nickel_superalloy(),
        inhibited_ends: true,
        segment_core_radii_m: None,
        gimbal_range_rad: f(0.0),
        ignition_shots: 1,
    }
    .compile(&Native)
    .expect("solid")
}

fn liquid() -> CompiledEngine {
    CompiledEngine::Liquid(merlin_like().compile(&Native, &fluids()).expect("compile"))
}

fn power_and_depletion() {
    // Kinetic exhaust power stays below released chamber power; remaining grain
    // falls monotonically to exactly zero.
    let liquid = liquid();
    assert!(n(liquid.exhaust_kinetic_power_w()) > 0.0);
    assert!(liquid.exhaust_kinetic_power_w() < liquid.chamber_power_w());
    assert!(liquid.propellant_remaining_kg(f(10.0)).is_none());

    let solid = CompiledEngine::Solid(probe_solid());
    assert!(solid.exhaust_kinetic_power_w() < solid.chamber_power_w());
    let burn_time = match &solid {
        CompiledEngine::Solid(motor) => n(motor.burn_time_s),
        CompiledEngine::Liquid(_) => 0.0,
    };
    let total = n(solid.propellant_remaining_kg(f(0.0)).expect("grain"));
    assert!(total > 0.0);
    let mut last = total;
    for step in 1..=10 {
        let remaining = n(solid
            .propellant_remaining_kg(f(burn_time * step as f64 / 10.0))
            .expect("grain"));
        assert!(remaining <= last + total * 1e-9);
        last = remaining;
    }
    assert_eq!(solid.propellant_remaining_kg(f(burn_time)).map(n), Some(0.0));
    assert_eq!(solid.propellant_remaining_kg(f(burn_time + 100.0)).map(n), Some(0.0));
}

#[test]
fn propulsion_thermal_power_ordering_and_depletion() {
    power_and_depletion();
}

#[test]
fn engine_thermal_power_ordering_and_depletion() {
    power_and_depletion();
}

fn refused(engine: CompiledEngine) {
    assert!(matches!(engine.validate(), Err(PropulsionError::InvalidSpec(_))));
}

#[test]
fn infinite_engine_data_fail_closed() {
    let infinite = f(f64::INFINITY);
    let CompiledEngine::Liquid(clean) = liquid() else {
        panic!("liquid variant");
    };
    let edits: [fn(&mut CompiledLiquid, F64); 7] = [
        |engine, value| engine.chamber_pressure_pa = value,
        |engine, value| engine.throat_area_m2 = value,
        |engine, value| engine.full_flow_kg_s = value,
        |engine, value| engine.chamber_temp_k = value,
        |engine, value| engine.dry_mass_kg = value,
        |engine, value| engine.spool_tau_s = value,
        |engine, value| engine.gimbal_range_rad = value,
    ];
    for edit in edits {
        let mut edited = clean.clone();
        edit(&mut edited, infinite);
        let refusal = edited.validate().expect_err("an infinite value");
        assert_eq!(refusal.message(), "invalid engine spec: compiled liquid engine values must be finite");
        refused(CompiledEngine::Liquid(edited));
    }
    let edits: [fn(&mut CompiledSolid, F64); 3] = [
        |motor, value| motor.burn_time_s = value,
        |motor, value| motor.propellant_mass_kg = value,
        |motor, value| motor.gimbal_range_rad = value,
    ];
    for edit in edits {
        let mut edited = probe_solid();
        edit(&mut edited, infinite);
        let refusal = edited.validate().expect_err("an infinite value");
        assert_eq!(refusal.message(), "invalid engine spec: compiled solid engine values must be finite");
    }
}

#[test]
fn compiled_liquid_validate_rejects_tampered_fields() {
    let clean = liquid();
    clean.validate().expect("clean bake validates");

    let CompiledEngine::Liquid(mut tampered) = clean.clone() else {
        panic!("liquid variant");
    };
    let chamber_pa = tampered.chamber_pressure_pa;
    tampered.chamber_pressure_pa = f(0.0);
    refused(CompiledEngine::Liquid(tampered.clone()));
    tampered.chamber_pressure_pa = f(f64::NAN);
    refused(CompiledEngine::Liquid(tampered.clone()));
    tampered.chamber_pressure_pa = chamber_pa;
    // Full flow divides thrust into Isp.
    tampered.full_flow_kg_s = f(0.0);
    refused(CompiledEngine::Liquid(tampered.clone()));
    tampered.full_flow_kg_s = f(100.0);
    // gamma - 1 divides in the thrust coefficient and thermal power.
    tampered.gamma = f(1.0);
    refused(CompiledEngine::Liquid(tampered.clone()));
    tampered.gamma = f(1.4);
    // Exit above chamber inverts the momentum root.
    tampered.exit_pressure_pa = f(n(tampered.chamber_pressure_pa) * 1.5);
    refused(CompiledEngine::Liquid(tampered.clone()));
    tampered.exit_pressure_pa = f(n(tampered.chamber_pressure_pa) * 0.1);
    tampered.min_throttle = f(1.5);
    refused(CompiledEngine::Liquid(tampered.clone()));
    tampered.min_throttle = f(0.5);
    tampered.gg_bypass_fraction = f(f64::NAN);
    refused(CompiledEngine::Liquid(tampered));
}

#[test]
fn compiled_solid_validate_rejects_tampered_trace() {
    let clean = CompiledEngine::Solid(probe_solid());
    clean.validate().expect("clean bake validates");

    let CompiledEngine::Solid(mut tampered) = clean.clone() else {
        panic!("solid variant");
    };
    let burn_time_s = tampered.burn_time_s;
    let curve = tampered.burn_curve.clone();
    // The burn clock divides propellant into average flow.
    tampered.burn_time_s = f(0.0);
    refused(CompiledEngine::Solid(tampered.clone()));
    tampered.burn_time_s = burn_time_s;
    // An empty trace reads as zero chamber pressure.
    tampered.burn_curve.clear();
    refused(CompiledEngine::Solid(tampered.clone()));
    tampered.burn_curve = curve.clone();
    // A dark sample in the middle is reachable by an exact-time query.
    tampered.burn_curve[1].chamber_pa = f(0.0);
    refused(CompiledEngine::Solid(tampered.clone()));
    tampered.burn_curve[1].chamber_pa = curve[1].chamber_pa;
    tampered.burn_curve[0].mass_flow_kg_s = f(f64::NAN);
    refused(CompiledEngine::Solid(tampered.clone()));
    tampered.burn_curve = curve;
    CompiledEngine::Solid(tampered).validate().expect("untampered bake still validates");
}

#[test]
fn tampered_traces_name_their_reason() {
    let message = |motor: CompiledSolid| match CompiledEngine::Solid(motor).validate() {
        Ok(()) => panic!("must be refused"),
        Err(error) => error.message(),
    };
    let mut motor = probe_solid();
    motor.burn_curve[0].chamber_pa = f(0.0);
    assert_eq!(message(motor), "invalid engine spec: solid engine must be burning at ignition");
    let mut motor = probe_solid();
    motor.burn_curve[5].thrust_sl_n = f(f64::INFINITY);
    assert_eq!(message(motor), "invalid engine spec: solid burn curve points must be finite");
    let mut motor = probe_solid();
    motor.burn_curve[5].mass_flow_kg_s = f(-1.0);
    assert_eq!(message(motor), "invalid engine spec: solid burn curve points must be non-negative");
    let mut motor = probe_solid();
    motor.burn_curve[5].time_s = f(0.0);
    assert_eq!(message(motor), "invalid engine spec: solid burn curve time must be non-decreasing");
    let mut motor = probe_solid();
    motor.burn_curve[5].mass_flow_kg_s = f(0.0);
    assert_eq!(
        message(motor),
        "invalid engine spec: solid burn curve must stay lit between ignition and burn-through"
    );
    let mut motor = probe_solid();
    motor.burn_time_s = f(n(motor.burn_time_s) + 1.0);
    assert_eq!(message(motor), "invalid engine spec: solid burn-through sample must reach the burn clock");
    let mut motor = probe_solid();
    motor.grain_length_m = f(f64::NAN);
    assert_eq!(message(motor), "invalid engine spec: compiled solid engine values must be finite");
}

#[test]
fn spool_ignition_shutdown_and_solid_single_shot() {
    let liquid = liquid();
    let mut state = EngineSpool::new(&liquid);
    assert!(state.shots_remaining.is_none());
    state = advance_spool(&Native, &liquid, state, f(1.0), f(10.0)).expect("ignite");
    assert!(state.running);
    assert!((n(state.throttle_actual) - 1.0).abs() < 1e-6);
    // Below the stability floor clamps up, zero shuts down.
    state = advance_spool(&Native, &liquid, state, f(0.05), f(10.0)).expect("clamp");
    assert!(state.running);
    assert!(n(state.throttle_actual) >= 0.40 - 1e-9);
    state = advance_spool(&Native, &liquid, state, f(0.0), f(10.0)).expect("shutdown");
    assert!(!state.running);

    let (a, exponent) = SolidMotorSpec::apcp_ballistics();
    let solid_spec = SolidMotorSpec {
        name: "single shot".into(),
        propellant: Propellant::SolidApcp,
        outer_radius_m: f(0.3),
        core_radius_m: f(0.1),
        segment_length_m: f(1.0),
        segments: 2,
        burn_rate_coeff: a,
        burn_rate_exponent: exponent,
        throat_radius_m: f(0.09),
        expansion_ratio: f(8.0),
        nozzle_length_m: f(0.6),
        contour: NozzleContour::Conical,
        casing_material: ChamberMaterial::nickel_superalloy(),
        inhibited_ends: true,
        segment_core_radii_m: None,
        gimbal_range_rad: f(0.0),
        ignition_shots: 1,
    };
    let solid = CompiledEngine::Solid(solid_spec.compile(&Native).expect("solid"));
    let mut state = EngineSpool::new(&solid);
    assert!(advance_spool(&Native, &solid, state, f(0.5), f(0.1)).is_err());
    state = advance_spool(&Native, &solid, state, f(1.0), f(0.1)).expect("ignite");
    assert!(state.running && n(state.throttle_actual) == 1.0);
    state = advance_spool(&Native, &solid, state, f(1.0), f(1.0e6)).expect("burnout");
    assert!(!state.running && n(state.throttle_actual) == 0.0);
    assert!(advance_spool(&Native, &solid, state, f(1.0), f(0.1)).is_ok());
}

#[test]
fn spool_counts_ignitions_and_refuses_bad_commands() {
    let single = CompiledEngine::Liquid(
        LiquidEngineSpec { restartable: false, ..merlin_like() }.compile(&Native, &fluids()).expect("compile"),
    );
    let fresh = EngineSpool::new(&single);
    assert_eq!(fresh.shots_remaining, Some(1));
    let burning = advance_spool(&Native, &single, fresh, f(1.0), f(5.0)).expect("ignite");
    assert_eq!(burning.shots_remaining, Some(0));
    let expected = 0.0 + (1.0 - 0.0) * (1.0 - (-5.0_f64 / 0.6).exp());
    assert_eq!(n(burning.throttle_actual), expected);
    let stopped = advance_spool(&Native, &single, burning, f(0.0), f(60.0)).expect("stop");
    assert!(!stopped.running && n(stopped.throttle_actual) == 0.0);
    let error = advance_spool(&Native, &single, stopped, f(1.0), f(1.0)).expect_err("spent");
    assert_eq!(error.message(), "invalid engine command: no ignition shots remaining");
    let error = advance_spool(&Native, &single, fresh, f(1.5), f(1.0)).expect_err("throttle");
    assert_eq!(error.message(), "invalid engine command: throttle command must be finite in [0, 1]");
    let error = advance_spool(&Native, &single, fresh, f(1.0), f(-1.0)).expect_err("dt");
    assert_eq!(error.message(), "invalid engine command: spool dt must be finite and >= 0");
    let solid = CompiledEngine::Solid(probe_solid());
    let spent = EngineSpool { shots_remaining: Some(0), ..EngineSpool::new(&solid) };
    let error = advance_spool(&Native, &solid, spent, f(1.0), f(0.1)).expect_err("burned");
    assert_eq!(error.message(), "invalid engine command: motor already burned");
}

#[test]
fn engine_reports_its_family_data() {
    let liquid = liquid();
    assert_eq!(liquid.name(), "Merlin-1D class");
    assert_eq!(n(liquid.throttle_range().0), 0.40);
    assert_eq!(n(liquid.throttle_range().1), 1.0);
    assert_eq!(n(liquid.spool_tau_s()), 0.6);
    assert_eq!(liquid.bake_mass_kg(), liquid.dry_mass_kg());
    assert_eq!(n(liquid.gimbal_range_rad()), 0.09);
    let motor = probe_solid();
    let peak = motor.burn_curve.iter().map(|point| n(point.mass_flow_kg_s)).fold(0.0_f64, f64::max);
    let baked = n(motor.dry_mass_kg) + n(motor.propellant_mass_kg);
    let solid = CompiledEngine::Solid(motor);
    assert_eq!(n(solid.full_flow_kg_s()), peak);
    assert_eq!(n(solid.bake_mass_kg()), baked);
    assert_eq!(n(solid.throttle_range().0), 1.0);
    assert_eq!(n(solid.spool_tau_s()), 0.0);
    let point = liquid.operating_point(&Native, f(1.0), f(0.0), f(0.0)).expect("point");
    let plume = liquid.plume_state(&point);
    assert_eq!(plume.mass_flow_kg_s, point.mass_flow_kg_s);
    assert_eq!(plume.propellant, Propellant::LoxRp1);
    let off = liquid.operating_point(&Native, f(0.0), f(101_325.0), f(0.0)).expect("off");
    assert_eq!(n(off.thrust_n), 0.0);
    assert_eq!(n(off.mass_flow_kg_s), 0.0);
    for (throttle, ambient, clock, text) in [
        (1.0, -1.0, 0.0, "ambient pressure must be finite and >= 0"),
        (1.1, 0.0, 0.0, "throttle must be finite in [0, 1]"),
    ] {
        let error = liquid.operating_point(&Native, f(throttle), f(ambient), f(clock)).expect_err("refused");
        assert_eq!(error, PropulsionError::InvalidCommand(text.into()));
    }
    let error = solid.operating_point(&Native, f(1.0), f(0.0), f(-1.0)).expect_err("clock");
    assert_eq!(error, PropulsionError::InvalidCommand("burn time must be finite and >= 0".into()));
}
