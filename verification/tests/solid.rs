use propulsion::constants::standard_gravity_mps2;
use propulsion::engine::CompiledEngine;
use propulsion::float::F64;
use propulsion::material::ChamberMaterial;
use propulsion::nozzle::NozzleContour;
use propulsion::numerics::Numerics;
use propulsion::propellant::Propellant;
use propulsion::solid::{CompiledSolid, SolidMotorSpec};

/// The elementary functions of the machine that runs the tests.
struct Native;

impl Numerics for Native {
    fn powf(&self, x: F64, y: F64) -> F64 {
        f(n(x).powf(n(y)))
    }

    fn powi(&self, x: F64, k: i32) -> F64 {
        f(n(x).powi(k))
    }

    fn exp(&self, x: F64) -> F64 {
        f(n(x).exp())
    }

    fn ln(&self, x: F64) -> F64 {
        f(n(x).ln())
    }

    fn atan(&self, x: F64) -> F64 {
        f(n(x).atan())
    }

    fn cos(&self, x: F64) -> F64 {
        f(n(x).cos())
    }

    fn fixed(&self, x: F64, places: u32) -> String {
        format!("{:.*}", places as usize, n(x))
    }

    fn shortest(&self, x: F64) -> String {
        format!("{}", n(x))
    }
}

fn f(x: f64) -> F64 {
    F64::from_bits(x.to_bits())
}

fn n(x: F64) -> f64 {
    f64::from_bits(x.to_bits())
}

fn booster() -> SolidMotorSpec {
    let (a, exponent) = SolidMotorSpec::apcp_ballistics();
    SolidMotorSpec {
        name: "APCP booster".into(),
        propellant: Propellant::SolidApcp,
        outer_radius_m: f(0.5),
        core_radius_m: f(0.32),
        segment_length_m: f(1.5),
        segments: 4,
        burn_rate_coeff: a,
        burn_rate_exponent: exponent,
        throat_radius_m: f(0.12),
        expansion_ratio: f(10.0),
        nozzle_length_m: f(0.9),
        contour: NozzleContour::Conical,
        casing_material: ChamberMaterial::nickel_superalloy(),
        inhibited_ends: true,
        segment_core_radii_m: None,
        gimbal_range_rad: f(0.0),
        ignition_shots: 1,
    }
}

fn peak_vacuum(motor: &CompiledSolid) -> f64 {
    motor.burn_curve.iter().map(|point| n(point.thrust_vac_n)).fold(0.0_f64, f64::max)
}

#[test]
fn solid_burn_trace_is_physical() {
    // A cylindrical port opens as it burns, so the trace is progressive. Impulse,
    // mass and Isp agree, and altitude replay changes only the pressure term.
    let motor = booster().compile(&Native).expect("solid compiles");
    assert!(n(motor.burn_time_s) > 1.0 && n(motor.burn_time_s) < 60.0);
    assert!(motor.burn_curve.len() >= 100);
    for window in motor.burn_curve.windows(2) {
        assert!(window[1].time_s > window[0].time_s);
    }
    let live = &motor.burn_curve[..motor.burn_curve.len() - 1];
    for window in live.windows(2) {
        assert!(
            window[1].thrust_vac_n >= window[0].thrust_vac_n,
            "cylindrical-port trace must be progressive"
        );
    }
    let mean_vac = n(motor.total_impulse_ns) / n(motor.burn_time_s);
    assert!(peak_vacuum(&motor) / mean_vac < 1.8, "chunky-port progressivity must stay bounded");
    let check = n(motor.avg_isp_s) * n(motor.propellant_mass_kg) * n(standard_gravity_mps2());
    assert!((check - n(motor.total_impulse_ns)).abs() / n(motor.total_impulse_ns) < 1e-9);
    let engine = CompiledEngine::Solid(motor);
    let mid = engine.operating_point(&Native, f(1.0), f(101_325.0), f(1.0)).expect("mid-burn SL");
    let mid_vac = engine.operating_point(&Native, f(1.0), f(0.0), f(1.0)).expect("mid-burn vac");
    assert!((n(mid.mass_flow_kg_s) - n(mid_vac.mass_flow_kg_s)).abs() / n(mid.mass_flow_kg_s) < 1e-12);
    assert!(engine.operating_point(&Native, f(0.5), f(0.0), f(1.0)).is_err());
    // Past burnout: zero thrust, no error.
    let done = engine.operating_point(&Native, f(1.0), f(0.0), f(1.0e6)).expect("burned out");
    assert_eq!(n(done.thrust_n), 0.0);
}

#[test]
fn stepped_ports_shape_boost_sustain() {
    // A thin-web segment burns out early (boost) and the thick-web segment sustains.
    let (a, exponent) = SolidMotorSpec::apcp_ballistics();
    let spec = SolidMotorSpec {
        name: "boost-sustain".into(),
        propellant: Propellant::SolidApcp,
        outer_radius_m: f(0.5),
        core_radius_m: f(0.15),
        segment_length_m: f(1.5),
        segments: 2,
        burn_rate_coeff: a,
        burn_rate_exponent: exponent,
        throat_radius_m: f(0.12),
        expansion_ratio: f(10.0),
        nozzle_length_m: f(0.9),
        contour: NozzleContour::Conical,
        casing_material: ChamberMaterial::nickel_superalloy(),
        inhibited_ends: true,
        segment_core_radii_m: Some(vec![f(0.15), f(0.35)]),
        gimbal_range_rad: f(0.0),
        ignition_shots: 1,
    };
    let motor = spec.compile(&Native).expect("stepped grain compiles");
    let engine = CompiledEngine::Solid(motor.clone());
    let peak = peak_vacuum(&motor);
    let peak_time = n(motor
        .burn_curve
        .iter()
        .find(|point| n(point.thrust_vac_n) >= peak * (1.0 - 1e-9))
        .expect("peak station")
        .time_s);
    let burn_time = n(motor.burn_time_s);
    assert!(peak_time < 0.4 * burn_time, "boost peak must sit in the first 40% of the burn");
    let late = n(engine
        .operating_point(&Native, f(1.0), f(0.0), f(0.85 * burn_time))
        .expect("late sustain")
        .thrust_n);
    assert!(late < 0.55 * peak, "sustain phase must drop below 55% of boost peak");
    // Integrated propellant agrees with the geometric grain mass.
    let geometric: f64 = [0.15, 0.35]
        .iter()
        .map(|core_m| std::f64::consts::PI * (0.5 * 0.5 - core_m * core_m) * 1.5 * 1770.0)
        .sum();
    let drift = (n(motor.propellant_mass_kg) - geometric).abs() / geometric;
    assert!(drift < 0.02, "propellant drift {drift:e} too large");
    // Port-count mismatch is refused, not silently broadcast.
    let bad = SolidMotorSpec { segment_core_radii_m: Some(vec![f(0.2)]), ..spec };
    assert!(bad.compile(&Native).is_err());
}

#[test]
fn unstable_burn_exponent_is_rejected() {
    let (a, _) = SolidMotorSpec::apcp_ballistics();
    let spec = SolidMotorSpec {
        name: "unstable".into(),
        propellant: Propellant::SolidApcp,
        outer_radius_m: f(0.5),
        core_radius_m: f(0.15),
        segment_length_m: f(1.5),
        segments: 2,
        burn_rate_coeff: a,
        burn_rate_exponent: f(1.2),
        throat_radius_m: f(0.12),
        expansion_ratio: f(8.0),
        nozzle_length_m: f(0.8),
        contour: NozzleContour::Conical,
        casing_material: ChamberMaterial::nickel_superalloy(),
        inhibited_ends: true,
        segment_core_radii_m: None,
        gimbal_range_rad: f(0.0),
        ignition_shots: 1,
    };
    assert!(spec.compile(&Native).is_err());
}

#[test]
fn solid_refusals_name_their_reason() {
    let message = |spec: SolidMotorSpec| match spec.compile(&Native) {
        Ok(_) => panic!("must be refused"),
        Err(error) => error.message(),
    };
    assert_eq!(
        message(SolidMotorSpec { name: String::new(), ..booster() }),
        "invalid engine spec: motor name must not be empty"
    );
    assert_eq!(
        message(SolidMotorSpec { propellant: Propellant::LoxRp1, ..booster() }),
        "invalid engine spec: grain ballistics need a solid propellant"
    );
    assert_eq!(
        message(SolidMotorSpec { core_radius_m: f(0.5), ..booster() }),
        "invalid engine spec: grain core must be smaller than the outer radius"
    );
    assert_eq!(
        message(SolidMotorSpec { segments: 17, ..booster() }),
        "invalid engine spec: segments must be in 1..=16"
    );
    assert_eq!(
        message(SolidMotorSpec { burn_rate_exponent: f(1.0), ..booster() }),
        "invalid engine spec: burn-rate exponent must be in (0, 1): n >= 1 has no stable pressure equilibrium"
    );
    assert_eq!(
        message(SolidMotorSpec { segment_core_radii_m: Some(vec![f(0.2)]), ..booster() }),
        "invalid engine spec: segment port radii must match the segment count"
    );
    assert_eq!(
        message(SolidMotorSpec {
            segment_core_radii_m: Some(vec![f(0.2), f(-1.0), f(0.2), f(0.2)]),
            ..booster()
        }),
        "invalid engine spec: segment port radius must be finite and > 0"
    );
    assert_eq!(
        message(SolidMotorSpec {
            segment_core_radii_m: Some(vec![f(0.2), f(0.2), f(0.2), f(0.5)]),
            ..booster()
        }),
        "invalid engine spec: segment port must be smaller than the outer radius"
    );
    assert_eq!(
        message(SolidMotorSpec { ignition_shots: 0, ..booster() }),
        "invalid engine spec: a solid motor with zero shots can never ignite"
    );
    assert_eq!(
        message(SolidMotorSpec { burn_rate_coeff: f(1.0e300), ..booster() }),
        "invalid engine spec: grain equilibrium pressure is non-physical"
    );
}

#[test]
fn exposed_ends_and_contours_change_the_motor() {
    let neutral = booster().compile(&Native).expect("inhibited");
    let exposed = SolidMotorSpec { inhibited_ends: false, ..booster() }.compile(&Native).expect("exposed");
    // Burning ends add surface: the first station burns harder.
    assert!(exposed.burn_curve[0].chamber_pa > neutral.burn_curve[0].chamber_pa);
    let (density, c_star) = (1770.0, n(neutral.c_star_mps));
    let area: f64 = (0..4).fold(0.0, |sum, _| sum + std::f64::consts::PI * 2.0 * 0.32 * 1.5);
    let pressure = (area * 4.0e-5 * density * c_star / n(neutral.throat_area_m2)).powf(1.0 / (1.0 - 0.35));
    assert_eq!(n(neutral.burn_curve[0].chamber_pa), pressure);
    assert_eq!(n(neutral.burn_curve[0].mass_flow_kg_s), density * area * (4.0e-5 * pressure.powf(0.35)));
    let last = neutral.burn_curve.last().expect("station");
    assert_eq!(n(last.thrust_vac_n), 0.0);
    assert_eq!(n(last.web_burned_m), 0.5 - 0.32);
    let spike = SolidMotorSpec { contour: NozzleContour::Aerospike, ..booster() }.compile(&Native).expect("spike");
    assert_eq!(n(spike.divergence_factor), 0.99);
    assert_eq!(n(spike.aerospike_base_area_m2), 0.05 * n(spike.throat_area_m2) * 10.0);
    let engine = CompiledEngine::Solid(spike);
    let point = engine.operating_point(&Native, f(1.0), f(101_325.0), f(0.0)).expect("spike point");
    assert_eq!(n(point.exit_pressure_pa), 101_325.0);
    assert!(!point.separation_risk);
}

#[test]
fn trace_reads_linearly_between_stations() {
    let motor = booster().compile(&Native).expect("solid compiles");
    let (a, b) = (motor.burn_curve[3], motor.burn_curve[4]);
    let clock = 0.5 * (n(a.time_s) + n(b.time_s));
    let read = motor.interpolate(f(clock));
    let fraction = (clock - n(a.time_s)) / (n(b.time_s) - n(a.time_s)).max(1e-12);
    assert_eq!(n(read.chamber_pa), n(a.chamber_pa) + (n(b.chamber_pa) - n(a.chamber_pa)) * fraction);
    assert_eq!(motor.interpolate(f(-1.0)), motor.burn_curve[0]);
    assert_eq!(motor.interpolate(f(1.0e9)), *motor.burn_curve.last().expect("station"));
    let mut empty = motor;
    empty.burn_curve.clear();
    assert_eq!(n(empty.interpolate(f(1.0)).chamber_pa), 0.0);
}
