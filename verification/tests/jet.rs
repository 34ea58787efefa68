use propulsion::air::{flight_condition, AirCycle, AirReference, AirbreathingSpec, FlightCondition, IntakeKind, JetFuel};
use propulsion::atmosphere::{AtmosphereComposition, AtmosphereSample};
use propulsion::error::PropulsionError;
use propulsion::estoc::EstocMode;
use propulsion::float::F64;
use propulsion::jet::{CompiledJet, JetCommand, JetMount};
use propulsion::material::ChamberMaterial;
use propulsion::numerics::Numerics;
use propulsion::propellant::Propellant;
use propulsion::shaft::{GeneratorSpec, JetShaftState, ShaftSpec, StarterSpec};
use propulsion::vector::Vector;

/// The elementary functions of the machine that runs the tests.
struct Native;

impl Numerics for Native {
    fn powf(&self, x: F64, y: F64) -> F64 {
        f(n(x).powf(n(y)))
    }

    fn powi(&self, x: F64, k: i32) -> F64 {
        f(n(x).powi(k))
    }

    fn exp(&self, x: F64) -> F64 {
        f(n(x).exp())
    }

    fn ln(&self, x: F64) -> F64 {
        f(n(x).ln())
    }

    fn atan(&self, x: F64) -> F64 {
        f(n(x).atan())
    }

    fn cos(&self, x: F64) -> F64 {
        f(n(x).cos())
    }

    fn fixed(&self, x: F64, places: u32) -> String {
        format!("{:.*}", places as usize, n(x))
    }

    fn shortest(&self, x: F64) -> String {
        format!("{}", n(x))
    }
}

fn f(x: f64) -> F64 {
    F64::from_bits(x.to_bits())
}

fn n(x: F64) -> f64 {
    f64::from_bits(x.to_bits())
}

fn v(x: f64, y: f64, z: f64) -> Vector {
    Vector::new(f(x), f(y), f(z))
}

/// A shaft that runs on at full spool.
fn steady(mount: &JetMount) -> Result<JetShaftState, PropulsionError> {
    Ok(JetShaftState::running(mount.engine.air_engine()))
}

fn plain_shaft() -> ShaftSpec {
    ShaftSpec {
        starter: StarterSpec { power_w: f(0.0), charge_j: f(0.0), mass_kg: f(0.0) },
        generator: GeneratorSpec { mass_kg: f(0.0) },
        light_off_n: f(0.15),
        power_turbine_heat_fraction: f(0.0),
        turbine_heat_fraction: f(0.5),
        friction_fraction: f(0.02),
    }
}

fn mixture(gas_constant: f64, oxygen_mass_fraction: f64) -> AtmosphereComposition {
    AtmosphereComposition {
        gas_constant_j_kg_k: f(gas_constant),
        mean_heat_capacity_ratio: f(1.4),
        oxygen_mass_fraction: f(oxygen_mass_fraction),
        sane: true,
    }
}

fn earth_air() -> AtmosphereComposition {
    mixture(287.05, 0.2314)
}

fn sample(altitude_m: f64) -> AtmosphereSample {
    // Rows of the 1976 standard atmosphere.
    let (pressure_pa, temperature_k, speed_of_sound_mps) = match altitude_m as u32 {
        0 => (101_325.0, 288.15, 340.294),
        11_000 => (22_632.1, 216.65, 295.069),
        _ => (5_474.89, 216.65, 295.069),
    };
    AtmosphereSample {
        pressure_pa: f(pressure_pa),
        temperature_k: f(temperature_k),
        speed_of_sound_mps: f(speed_of_sound_mps),
        composition: earth_air(),
    }
}

fn at_speed(sample: &AtmosphereSample, airspeed_mps: f64) -> Result<FlightCondition, PropulsionError> {
    let mach = airspeed_mps / n(sample.speed_of_sound_mps);
    flight_condition(sample, f(airspeed_mps), Some(f(mach)))
}

fn reference() -> AirReference {
    AirReference {
        earth_air: earth_air(),
        scramjet_sample: Ok(sample(20_000.0)),
        scramjet_mach: Some(f(6.0)),
        shaft_verdict: Ok(()),
    }
}

fn test_jet() -> JetMount {
    let engine = AirbreathingSpec {
        name: "test jet".into(),
        cycle: AirCycle::Turbojet,
        fuel: JetFuel::Kerosene,
        intake_area_m2: f(0.5),
        intake: IntakeKind::Pitot,
        compressor_ratio: f(8.0),
        bypass_ratio: f(0.0),
        fan_pressure_ratio: f(1.0),
        turbine_inlet_temp_k: f(1400.0),
        afterburner: false,
        reheat_temp_k: f(0.0),
        turbine_material: ChamberMaterial::nickel_superalloy(),
        spool_tau_s: f(5.0),
        shaft: plain_shaft(),
    }
    .compile(&Native, &reference())
    .expect("jet compiles");
    JetMount {
        name: "jet-a".into(),
        engine: CompiledJet::Air(Box::new(engine)),
        position_body_m: v(-2.0, 0.0, 0.5),
        thrust_axis_body: v(1.0, 0.0, 0.0),
        gimbal_range_rad: f(0.0),
    }
}

fn sl_static() -> FlightCondition {
    FlightCondition {
        mach: f(0.0),
        ambient_pa: f(101_325.0),
        ambient_temp_k: f(288.15),
        airspeed_mps: f(0.0),
        composition: earth_air(),
    }
}

#[test]
fn jet_mount_thrust_and_gimbal() {
    // Mounted jet fires along its axis at static sea level; fixed
    // mount returns zero gimbal authority with well-defined axes.
    let mount = test_jet();
    let thrust = mount
        .thrust_vector_body_n(&Native, f(1.0), &sl_static(), &JetCommand::fresh(), &steady(&mount))
        .expect("thrust");
    assert!(n(thrust.x) > 10_000.0);
    assert_eq!(n(thrust.y), 0.0);
    assert_eq!(n(thrust.z), 0.0);
    let authority = mount
        .gimbal_authority(&Native, f(1.0), &sl_static(), &JetCommand::fresh(), &steady(&mount))
        .expect("authority");
    for effector in [authority.0, authority.1] {
        assert_eq!(
            n(effector.moment_per_command_nm.length()),
            0.0
        );
    }
    // Off throttle is off; bad axis is refused.
    let off = mount
        .thrust_n(&Native, f(0.0), &sl_static(), &JetCommand::fresh(), &steady(&mount))
        .expect("off");
    assert_eq!(n(off), 0.0);
    let mut bad = mount;
    bad.thrust_axis_body = v(2.0, 0.0, 0.0);
    assert!(bad.validate().is_err());
}

#[test]
fn scramjet_mount_uses_passive_cycle_and_refuses_shaft_accessories() {
    let engine = AirbreathingSpec {
        name: "mounted-scramjet".into(),
        cycle: AirCycle::Scramjet,
        fuel: JetFuel::Hydrogen,
        intake_area_m2: f(0.5),
        intake: IntakeKind::Ramp,
        compressor_ratio: f(1.0),
        bypass_ratio: f(0.0),
        fan_pressure_ratio: f(1.0),
        turbine_inlet_temp_k: f(2_300.0),
        afterburner: false,
        reheat_temp_k: f(0.0),
        turbine_material: ChamberMaterial::nickel_superalloy(),
        spool_tau_s: f(5.0),
        shaft: plain_shaft(),
    }
    .compile(&Native, &reference())
    .expect("scramjet");
    let mount = JetMount {
        name: "scramjet-mount".into(),
        engine: CompiledJet::Air(Box::new(engine)),
        position_body_m: v(0.0, 0.0, 0.0),
        thrust_axis_body: v(1.0, 0.0, 0.0),
        gimbal_range_rad: f(0.0),
    };
    let sample = sample(20_000.0);
    let condition =
        at_speed(&sample, 6.0 * n(sample.speed_of_sound_mps)).expect("Mach 6");
    let command = JetCommand::fresh();
    let (point, _, shaft) = mount
        .estoc_point(&Native, f(1.0), &condition, &command, &steady(&mount))
        .expect("passive air path");
    assert!(n(point.thrust_n) > 0.0);
    assert_eq!(n(shaft.spool_n), 1.0);

    let mut invalid = command;
    invalid.starter_engaged = true;
    assert!(mount.estoc_point(&Native, f(1.0), &condition, &invalid, &steady(&mount)).is_err());
    invalid.starter_engaged = false;
    invalid.generator_load_w = f(10.0);
    assert!(mount.estoc_point(&Native, f(1.0), &condition, &invalid, &steady(&mount)).is_err());
}

#[test]
fn a_refused_shaft_step_stops_a_cold_start() {
    // A cold shaft is stopped and unlit; what refuses its step is handed on.
    let mount = test_jet();
    let mut cold = JetCommand::cold(&mount.engine);
    assert_eq!(n(cold.shaft.spool_n), 0.0);
    assert!(!cold.shaft.lit);
    cold.starter_engaged = true;
    let refusal = PropulsionError::InvalidCommand("no starter is fitted".into());
    let outcome = mount.estoc_point(&Native, f(1.0), &sl_static(), &cold, &Err(refusal.clone()));
    assert_eq!(outcome, Err(refusal));
    // Stopped and unlit, the engine gives no thrust.
    let (point, transient, shaft) =
        mount.estoc_point(&Native, f(1.0), &sl_static(), &cold, &Ok(cold.shaft)).expect("windmilling");
    assert_eq!(n(point.thrust_n), 0.0);
    let next = cold.with_state(&point, transient, shaft);
    assert_eq!(next.prev, Some(transient));
    assert_eq!(next.last_mode, EstocMode::Air);
    assert!(next.starter_engaged);
}

#[test]
fn jet_refusals_name_their_reason() {
    let message = |mount: JetMount| match mount.validate() {
        Ok(()) => panic!("must be refused"),
        Err(error) => error.message(),
    };
    assert_eq!(message(JetMount { name: "".into(), ..test_jet() }), "invalid engine spec: jet mount needs a name");
    assert_eq!(
        message(JetMount { gimbal_range_rad: f(0.36), ..test_jet() }),
        "invalid engine spec: jet gimbal range must be finite in [0, 0.35]"
    );
    assert_eq!(
        message(JetMount { thrust_axis_body: v(0.0, 0.0, 0.5), ..test_jet() }),
        "invalid engine spec: jet axis must be unit length"
    );
    let mount = test_jet();
    assert_eq!(mount.engine.name(), "test jet");
    assert_eq!(n(mount.engine.spool_tau_s()), 5.0);
    assert!(mount.engine.transition_tau_s().is_none());
    let plume = mount
        .plume_state(&Native, f(1.0), &sl_static(), &JetCommand::fresh(), &steady(&mount))
        .expect("plume");
    assert_eq!(plume.propellant, Propellant::LoxRp1);
}
