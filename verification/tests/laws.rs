use propulsion::air::{advance_jet_spool, AirCycle, AirReference, AirbreathingSpec, FlightCondition, IntakeKind, JetFuel};
use propulsion::atmosphere::{AtmosphereComposition, AtmosphereSample};
use propulsion::cycle::EngineCycle;
use propulsion::electric::{
    ElectricPropellant, ElectricThrusterCommand, ElectricThrusterDesign, ElectricThrusterSpec, MpdDischarge,
};
use propulsion::engine::CompiledEngine;
use propulsion::estoc::{EstocMode, EstocSpec, EstocTransient};
use propulsion::float::{dec, F64};
use propulsion::fusion::{
    FusionReaction, FusionTorchCommand, FusionTorchSpec, PulsedFusionCommand, PulsedFusionSpec, PulsedFusionState,
    MAX_PULSE_EVENTS,
};
use propulsion::jet::{CompiledJet, JetCommand, JetMount};
use propulsion::liquid::{divergence_of, LiquidEngineSpec};
use propulsion::material::{ChamberMaterial, CoolingMode};
use propulsion::mount::gimbal_pair;
use propulsion::nozzle::{area_ratio_from_mach, mach_from_area_ratio, NozzleContour};
use propulsion::nuclear::{ntr_inlet_temp_k, NtrFluid, NuclearThermalSpec};
use propulsion::numerics::Numerics;
use propulsion::propellant::{FluidThermo, Propellant, PropellantThermo};
use propulsion::rcs::{deliver_pulse, ColdGasThrusterSpec, CompiledColdGas, RcsCluster, RcsMount, RcsThruster};
use propulsion::shaft::{GeneratorSpec, JetShaftState, ShaftSpec, StarterSpec};
use propulsion::solid::{CompiledSolid, SolidMotorSpec};
use propulsion::spool::{advance_spool, EngineSpool};
use propulsion::vector::Vector;

/// The elementary functions of the machine that runs the tests.
struct Native;

impl Numerics for Native {
    fn powf(&self, x: F64, y: F64) -> F64 {
        f(n(x).powf(n(y)))
    }

    fn powi(&self, x: F64, k: i32) -> F64 {
        f(n(x).powi(k))
    }

    fn exp(&self, x: F64) -> F64 {
        f(n(x).exp())
    }

    fn ln(&self, x: F64) -> F64 {
        f(n(x).ln())
    }

    fn atan(&self, x: F64) -> F64 {
        f(n(x).atan())
    }

    fn cos(&self, x: F64) -> F64 {
        f(n(x).cos())
    }

    fn fixed(&self, x: F64, places: u32) -> String {
        format!("{:.*}", places as usize, n(x))
    }

    fn shortest(&self, x: F64) -> String {
        format!("{}", n(x))
    }
}

fn f(x: f64) -> F64 {
    F64::from_bits(x.to_bits())
}

fn n(x: F64) -> f64 {
    f64::from_bits(x.to_bits())
}

/// Thermo of the reaction-control fluids.
fn fluids() -> FluidThermo {
    let row = |gamma: f64, temp: f64, gas: f64, density: f64, length: f64, c_star: f64| PropellantThermo {
        gamma: f(gamma),
        chamber_temp_k: f(temp),
        gas_constant_j_kg_k: f(gas),
        bulk_density_kg_m3: f(density),
        characteristic_length_m: f(length),
        reference_c_star_mps: f(c_star),
    };
    FluidThermo {
        hydrazine: row(1.27, 1150.0, 640.0, 1010.0, 0.6, 1300.0),
        nitrogen: row(1.4, 300.0, 296.8, 280.0, 0.0, 434.0),
        helium: row(1.667, 300.0, 2077.0, 40.0, 0.0, 1090.0),
    }
}

fn v(x: f64, y: f64, z: f64) -> Vector {
    Vector::new(f(x), f(y), f(z))
}

fn booster_engine(contour: NozzleContour, cycle: EngineCycle) -> LiquidEngineSpec {
    LiquidEngineSpec {
        name: "probe".into(),
        propellant: Propellant::LoxMethane,
        cycle,
        chamber_pressure_pa: f(9.0e6),
        throat_radius_m: f(0.11),
        expansion_ratio: f(22.0),
        nozzle_length_m: f(1.4),
        contour,
        chamber_material: ChamberMaterial::nickel_superalloy(),
        cooling: CoolingMode::Regenerative,
        mixture_ratio: Some(f(3.1)),
        characteristic_length_m: None,
        gimbal_range_rad: f(0.0),
        min_throttle: None,
        restartable: false,
    }
}

fn grain(contour: NozzleContour) -> CompiledSolid {
    grain_spec(contour, None).compile(&Native).expect("grain compiles")
}

fn grain_spec(contour: NozzleContour, segment_core_radii_m: Option<Vec<F64>>) -> SolidMotorSpec {
    let (a, exponent) = SolidMotorSpec::apcp_ballistics();
    SolidMotorSpec {
        name: "grain".into(),
        propellant: Propellant::SolidApcp,
        outer_radius_m: f(0.4),
        core_radius_m: f(0.2),
        segment_length_m: f(1.2),
        segments: 3,
        burn_rate_coeff: a,
        burn_rate_exponent: exponent,
        throat_radius_m: f(0.1),
        expansion_ratio: f(9.0),
        nozzle_length_m: f(0.7),
        contour,
        casing_material: ChamberMaterial::nickel_superalloy(),
        inhibited_ends: false,
        segment_core_radii_m,
        gimbal_range_rad: f(0.0),
        ignition_shots: 2,
    }
}

fn nitrogen() -> CompiledColdGas {
    ColdGasThrusterSpec {
        name: "N2".into(),
        gas: Propellant::ColdGasNitrogen,
        storage_temp_k: f(290.0),
        rated_pressure_pa: f(2.0e6),
        throat_radius_m: f(0.001),
        expansion_ratio: f(12.0),
        nozzle_length_m: f(0.02),
        contour: NozzleContour::Conical,
        material: ChamberMaterial::regen_alloy(),
        valve_rise_time_s: f(0.005),
        min_on_time_s: f(0.02),
    }
    .compile(&Native, &fluids())
    .expect("cold gas compiles")
}

#[test]
fn thrust_and_impulse_never_rise_with_ambient_pressure() {
    let engines = [
        CompiledEngine::Liquid(booster_engine(NozzleContour::Bell, EngineCycle::GasGenerator).compile(&Native, &fluids()).expect("bell")),
        CompiledEngine::Liquid(booster_engine(NozzleContour::Aerospike, EngineCycle::ElectricPump).compile(&Native, &fluids()).expect("spike")),
        CompiledEngine::Solid(grain(NozzleContour::Conical)),
        CompiledEngine::Solid(grain(NozzleContour::Aerospike)),
    ];
    for engine in engines {
        engine.validate().expect("sound");
        for throttle in [1.0, 0.7] {
            let mut last: Option<(f64, f64, f64)> = None;
            for step in 0..40 {
                let ambient = step as f64 * 3_333.3;
                let Ok(point) = engine.operating_point(&Native, f(throttle), f(ambient), f(0.8)) else { continue };
                let now = (n(point.thrust_n), n(point.isp_s), n(point.mass_flow_kg_s));
                if let Some(before) = last {
                    assert!(now.0 <= before.0 && now.1 <= before.1 && now.2 == before.2);
                }
                last = Some(now);
            }
        }
    }
}

#[test]
fn vacuum_thrust_doubles_exactly_with_throttle_and_inlet_pressure() {
    for contour in [NozzleContour::Bell, NozzleContour::Conical, NozzleContour::Aerospike] {
        let engine = booster_engine(contour, EngineCycle::GasGenerator).compile(&Native, &fluids()).expect("compiles");
        for throttle in [0.13, 0.37, 0.5] {
            let once = engine.operating_point(&Native, f(throttle), f(0.0)).expect("point");
            let twice = engine.operating_point(&Native, f(2.0 * throttle), f(0.0)).expect("point");
            assert_eq!(n(twice.thrust_n), 2.0 * n(once.thrust_n));
            assert_eq!(n(twice.mass_flow_kg_s), 2.0 * n(once.mass_flow_kg_s));
            assert_eq!(twice.isp_s, once.isp_s);
        }
        let full = engine.operating_point(&Native, f(1.0), f(0.0)).expect("full");
        assert_eq!(full.mass_flow_kg_s, engine.full_flow_kg_s);
    }
    let thruster = nitrogen();
    for inlet in [0.77e6, 1.3e6] {
        let once = thruster.steady_point(&Native, f(inlet), f(0.0)).expect("point");
        let twice = thruster.steady_point(&Native, f(2.0 * inlet), f(0.0)).expect("point");
        assert_eq!(n(twice.thrust_n), 2.0 * n(once.thrust_n));
        assert_eq!(n(twice.mass_flow_kg_s), 2.0 * n(once.mass_flow_kg_s));
        assert_eq!(twice.isp_s, once.isp_s);
    }
}

#[test]
fn exhaust_power_stays_below_chamber_power() {
    for expansion in [1.5, 22.0, 400.0, 20_000.0] {
        let spec = LiquidEngineSpec {
            expansion_ratio: f(expansion),
            ..booster_engine(NozzleContour::Bell, EngineCycle::StagedCombustion)
        };
        let engine = CompiledEngine::Liquid(spec.compile(&Native, &fluids()).expect("compiles"));
        assert!(engine.exhaust_kinetic_power_w() < engine.chamber_power_w());
    }
    let reactor = NuclearThermalSpec {
        name: "reactor".into(),
        fluid: NtrFluid::Methane,
        core_temp_k: f(2400.0),
        core_power_mw: f(300.0),
        reactor_specific_mass_kg_per_mw: None,
        throat_radius_m: f(0.1),
        expansion_ratio: f(80.0),
        nozzle_length_m: f(1.5),
        contour: NozzleContour::Bell,
        material: ChamberMaterial::nickel_superalloy(),
        cooling: CoolingMode::Regenerative,
        gimbal_range_rad: f(0.0),
        startup_tau_s: Some(f(33.0)),
        min_throttle: None,
    };
    let (liquid, supplement) = reactor.compile(&Native).expect("reactor");
    assert_eq!(n(liquid.spool_tau_s), 33.0);
    assert_eq!(supplement.startup_tau_s, liquid.spool_tau_s);
    assert!(n(supplement.cooldown_impulse_ns(f(1.0e9))) >= 0.0);
    let engine = CompiledEngine::Liquid(liquid);
    assert!(engine.exhaust_kinetic_power_w() < engine.chamber_power_w());
}

#[test]
fn trace_runs_from_ignition_to_the_burn_time_under_its_peak() {
    let motor = grain(NozzleContour::Conical);
    assert_eq!(n(motor.burn_curve[0].time_s), 0.0);
    assert_eq!(motor.burn_curve.last().expect("station").time_s, motor.burn_time_s);
    for window in motor.burn_curve.windows(2) {
        assert!(window[0].time_s <= window[1].time_s);
    }
    for point in &motor.burn_curve {
        assert!(point.chamber_pa <= motor.peak_pressure_pa && n(point.chamber_pa) >= 0.0);
    }
    let total = n(motor.propellant_mass_kg);
    let burn_time = n(motor.burn_time_s);
    let engine = CompiledEngine::Solid(motor);
    for step in 0..50 {
        let left = n(engine.propellant_remaining_kg(f(burn_time * step as f64 / 40.0)).expect("grain"));
        assert!((0.0..=total).contains(&left));
    }
    assert_eq!(n(engine.propellant_remaining_kg(f(f64::NAN)).expect("grain")), total);
}

#[test]
fn shots_are_spent_once_and_a_burning_motor_burns_on() {
    let engine = CompiledEngine::Solid(grain(NozzleContour::Conical));
    let mut state = EngineSpool::new(&engine);
    assert_eq!(state.shots_remaining, Some(2));
    state = advance_spool(&Native, &engine, state, f(0.0), f(1.0)).expect("safe");
    assert_eq!((state.shots_remaining, n(state.burn_elapsed_s)), (Some(2), 0.0));
    state = advance_spool(&Native, &engine, state, f(1.0), f(0.5)).expect("fire");
    assert_eq!((state.shots_remaining, state.running), (Some(1), true));
    // Commanded off, it burns on.
    state = advance_spool(&Native, &engine, state, f(0.0), f(0.5)).expect("burn on");
    assert_eq!((state.shots_remaining, state.running, n(state.burn_elapsed_s)), (Some(1), true, 1.0));
    let burn_time = match &engine {
        CompiledEngine::Solid(motor) => n(motor.burn_time_s),
        CompiledEngine::Liquid(_) => 0.0,
    };
    state = advance_spool(&Native, &engine, state, f(0.0), f(1.0e3)).expect("burn out");
    assert_eq!((state.running, n(state.burn_elapsed_s)), (false, burn_time));
    let after = advance_spool(&Native, &engine, state, f(1.0), f(1.0)).expect("stays out");
    assert_eq!(after, state);
    let liquid = CompiledEngine::Liquid(
        booster_engine(NozzleContour::Bell, EngineCycle::StagedCombustion).compile(&Native, &fluids()).expect("compiles"),
    );
    let spent = EngineSpool { shots_remaining: Some(0), ..EngineSpool::new(&liquid) };
    assert!(advance_spool(&Native, &liquid, spent, f(0.8), f(1.0)).is_err());
    assert!(!advance_spool(&Native, &liquid, spent, f(0.0), f(1.0)).expect("rest").running);
}

#[test]
fn opposed_thrusters_leave_no_force_at_all() {
    let thruster = RcsThruster::ColdGas(nitrogen());
    let mount = |position: Vector, direction: Vector| RcsMount {
        name: "pair".into(),
        thruster: thruster.clone(),
        position_body_m: position,
        direction_body: direction,
    };
    let cluster = RcsCluster {
        mounts: vec![
            mount(v(0.3, -0.7, 1.1), v(0.6, 0.0, 0.8)),
            mount(v(-0.3, 0.7, -1.1), v(-0.6, 0.0, -0.8)),
        ],
    };
    let (force, moment) = cluster.impulse(&Native, &vec![f(0.137); 2], f(1.7e6), f(0.0)).expect("fire");
    assert_eq!((n(force.x), n(force.y), n(force.z)), (0.0, 0.0, 0.0));
    let pulse = thruster.pulse(&Native, f(0.137), f(1.7e6), f(0.0)).expect("pulse");
    let single = v(0.3, -0.7, 1.1).cross(v(0.6, 0.0, 0.8).scaled(pulse.impulse_ns));
    assert_eq!(n(moment.x), 2.0 * n(single.x));
    assert_eq!(n(moment.y), 2.0 * n(single.y));
    assert_eq!(n(moment.z), 2.0 * n(single.z));
    assert!(cluster.impulse(&Native, &vec![f(0.1); 3], f(1.0e6), f(0.0)).is_err());
    assert!(cluster.steady_wrench(&Native, &vec![f(0.1)], f(1.0e6), f(0.0)).is_err());
}

#[test]
fn pulses_deliver_no_more_than_steady_thrust_would() {
    for on_time in [1.0e-4, 2.5e-3, 5.0e-3, 0.02, 3.0] {
        let pulse = deliver_pulse(f(7.3), f(0.004), f(on_time), f(0.005));
        assert!(n(pulse.impulse_ns) <= 7.3 * on_time);
        assert_eq!(n(pulse.propellant_kg), 0.004 * on_time);
    }
    let shut = deliver_pulse(f(7.3), f(0.004), f(0.0), f(0.005));
    assert_eq!((n(shut.impulse_ns), n(shut.propellant_kg), n(shut.effective_isp_s)), (0.0, 0.0, 0.0));
}

#[test]
fn a_gimbal_without_range_has_no_authority() {
    let (first, second) = gimbal_pair(v(-4.0, 1.0, 2.0), v(0.0, 0.6, 0.8), v(0.0, 6.0e4, 8.0e4), f(0.0));
    for effector in [first, second] {
        for component in [effector.force_per_command_n, effector.moment_per_command_nm] {
            assert_eq!((n(component.x), n(component.y), n(component.z)), (0.0, 0.0, 0.0));
        }
    }
}

fn mpd() -> ElectricThrusterSpec {
    ElectricThrusterSpec {
        name: "arc".into(),
        propellant: ElectricPropellant::Argon,
        design: ElectricThrusterDesign::Magnetoplasmadynamic {
            arc_voltage_v: f(80.0),
            cathode_radius_m: f(0.01),
            anode_radius_m: f(0.06),
            electrode_length_m: f(0.1),
            max_current_a: f(40.0),
            jet_power_efficiency: f(0.5),
        },
        maximum_power_w: f(8_000.0),
        maximum_mass_flow_kg_s: f(1.0e-4),
        power_processor_specific_power_w_kg: f(2_000.0),
        structure_density_kg_m3: f(2_700.0),
        structure_thickness_m: f(0.003),
        radiator_area_m2: f(0.02),
        radiator_temperature_k: f(700.0),
        radiator_emissivity: f(0.9),
        radiator_areal_density_kg_m2: f(8.0),
        ionization_efficiency: f(0.75),
        inlet_temperature_k: f(300.0),
    }
}

#[test]
fn electric_ledgers_close_and_limits_hold() {
    let arc = mpd().compile(&Native).expect("arc");
    let resistojet = ElectricThrusterSpec {
        design: ElectricThrusterDesign::Resistojet {
            chamber_radius_m: f(0.02),
            chamber_length_m: f(0.1),
            max_exhaust_temp_k: f(1_200.0),
            heater_efficiency: f(0.85),
            nozzle_efficiency: f(0.8),
        },
        ..mpd()
    }
    .compile(&Native)
    .expect("resistojet");
    for engine in [arc, resistojet] {
        for power in [10.0, 900.0, 5_000.0, 50_000.0] {
            for flow in [1.0e-7, 1.0e-5, 1.0e-3] {
                let command = ElectricThrusterCommand {
                    available_power_w: f(power),
                    requested_mass_flow_kg_s: f(flow),
                };
                let point = engine.operating_point(&Native, command).expect("point");
                let input = n(point.electrical_power_w);
                let output = n(point.jet_kinetic_power_w) + n(point.exhaust_internal_power_w) + n(point.waste_heat_w);
                assert!((input - output).abs() <= 1e-12 * input.max(1.0));
                assert!(n(point.waste_heat_w) >= 0.0);
                assert!(n(point.mass_flow_kg_s) <= flow.min(1.0e-4));
                assert_eq!(point.flow_limited, flow > 1.0e-4);
                if matches!(engine.design, ElectricThrusterDesign::Magnetoplasmadynamic { .. }) {
                    assert!(input <= power.min(8_000.0));
                    assert!(n(point.discharge_current_a) <= 40.0);
                    assert!(point.waste_heat_w <= point.radiator_capacity_w);
                }
            }
        }
    }
}

fn torch() -> FusionTorchSpec {
    FusionTorchSpec {
        name: "torch".into(),
        reaction: FusionReaction::DeuteriumTritium,
        working_fluid: ElectricPropellant::Hydrogen,
        maximum_fusion_power_w: f(80.0e6),
        fusion_gain: f(12.0),
        maximum_working_flow_kg_s: f(2.0e-3),
        reactor_specific_power_w_kg: f(10_000.0),
        plasma_coupling_efficiency: f(0.9),
        magnetic_nozzle_efficiency: f(1.0),
        nozzle_radius_m: f(0.5),
        nozzle_length_m: f(2.0),
        magnetic_field_t: f(1.0),
        coil_current_density_a_m2: f(4.0e7),
        structure_density_kg_m3: f(2_700.0),
        structure_thickness_m: f(0.01),
        radiator_area_m2: f(900.0),
        radiator_temperature_k: f(1_000.0),
        radiator_emissivity: f(0.9),
        radiator_areal_density_kg_m2: f(8.0),
    }
}

#[test]
fn torch_energy_closes_and_limits_hold() {
    let engine = torch().compile(&Native).expect("torch");
    for driver in [1.0e3, 2.0e6, 9.0e7] {
        let command = FusionTorchCommand {
            available_driver_power_w: f(driver),
            requested_working_flow_kg_s: f(3.0e-3),
        };
        let point = engine.operating_point(command).expect("point");
        let input = n(point.fusion_power_w) + n(point.driver_power_w);
        let output = n(point.jet_kinetic_power_w) + n(point.exhaust_internal_power_w) + n(point.waste_heat_w);
        assert!((input - output).abs() <= 1e-14 * input);
        assert!(n(point.fusion_power_w) <= 80.0e6);
        assert_eq!(n(point.working_flow_kg_s), 2.0e-3);
    }
}

fn pellets() -> PulsedFusionSpec {
    PulsedFusionSpec {
        name: "pellets".into(),
        reaction: FusionReaction::DeuteriumTritium,
        working_fluid: ElectricPropellant::Hydrogen,
        fuel_mass_per_pulse_kg: f(1.0e-9),
        working_fluid_mass_per_pulse_kg: f(1.0e-7),
        fusion_gain: f(10.0),
        plasma_coupling_efficiency: f(0.9),
        magnetic_nozzle_efficiency: f(0.8),
        maximum_pulse_frequency_hz: f(3.0),
        pulse_duration_s: f(0.01),
        maximum_charge_power_w: f(200_000.0),
        energy_buffer_capacity_pulses: 3,
        energy_buffer_specific_energy_j_kg: f(1.0e6),
        pulse_system_specific_power_w_kg: f(1.0e6),
        chamber_radius_m: f(0.1),
        chamber_length_m: f(0.5),
        magnetic_field_t: f(1.0),
        coil_current_density_a_m2: f(4.0e7),
        structure_density_kg_m3: f(2_700.0),
        structure_thickness_m: f(0.01),
        radiator_area_m2: f(50.0),
        radiator_temperature_k: f(1_000.0),
        radiator_emissivity: f(0.9),
        radiator_areal_density_kg_m2: f(8.0),
    }
}

#[test]
fn pulsed_state_stays_within_bounds_and_counts_every_shot() {
    let engine = pellets().compile(&Native).expect("pellets");
    let released = n(engine.fusion_energy_per_pulse_j) + n(engine.driver_energy_per_pulse_j);
    let booked = n(engine.jet_energy_per_pulse_j)
        + n(engine.exhaust_internal_energy_per_pulse_j)
        + n(engine.waste_heat_per_pulse_j);
    assert!((released - booked).abs() <= 1e-14 * released);
    assert!(engine.thermal_pulse_interval_s <= engine.pulse_interval_s);
    assert!(engine.rated_pulse_interval_s <= engine.pulse_interval_s);
    let mut state = PulsedFusionState::default();
    for step in 0..60 {
        let command = PulsedFusionCommand {
            available_charge_power_w: f(3_000.0 * step as f64),
            armed: step % 5 != 4,
        };
        let (next, point) = engine.advance(state, command, f(0.1 + 0.07 * step as f64)).expect("step");
        assert!(engine.admits(next));
        assert!(next.pulse_phase_s <= engine.pulse_interval_s);
        assert_eq!(next.cumulative_shots, state.cumulative_shots + u64::from(point.pulses_fired));
        assert!(point.pulses_fired <= MAX_PULSE_EVENTS);
        assert_eq!(point.stored_driver_energy_j, next.stored_driver_energy_j);
        assert!(n(point.bus_energy_input_j) >= 0.0);
        if point.pulses_fired == 0 {
            assert_eq!((n(point.impulse_ns), n(point.fusion_energy_j)), (0.0, 0.0));
        }
        if !command.armed {
            assert_eq!((point.pulses_fired, next.pulse_phase_s), (0, state.pulse_phase_s));
            assert!(state.stored_driver_energy_j <= next.stored_driver_energy_j);
        }
        state = next;
    }
    assert!(state.cumulative_shots > 0);
}

#[test]
fn solved_mach_numbers_are_never_subsonic() {
    for gamma in [1.05, 1.2, 1.4, 1.66] {
        assert_eq!(n(mach_from_area_ratio(&Native, f(gamma), f(1.0)).expect("throat")), 1.0);
        for eps in [1.0000001, 1.3, 7.0, 900.0, 1.0e6] {
            if let Ok(mach) = mach_from_area_ratio(&Native, f(gamma), f(eps)) {
                assert!(n(mach) >= 1.0);
            }
        }
    }
}

fn air() -> AtmosphereComposition {
    AtmosphereComposition {
        gas_constant_j_kg_k: f(287.05),
        mean_heat_capacity_ratio: f(1.4),
        oxygen_mass_fraction: f(0.2314),
        sane: true,
    }
}

fn design_air() -> AirReference {
    AirReference {
        earth_air: air(),
        scramjet_sample: Ok(AtmosphereSample {
            pressure_pa: f(5_474.9),
            temperature_k: f(216.65),
            speed_of_sound_mps: f(295.07),
            composition: air(),
        }),
        scramjet_mach: Some(f(6.0)),
        shaft_verdict: Ok(()),
    }
}

fn jet(cycle: AirCycle) -> AirbreathingSpec {
    let passive = matches!(cycle, AirCycle::Ramjet | AirCycle::Scramjet);
    AirbreathingSpec {
        name: "jet".into(),
        cycle,
        fuel: JetFuel::Methane,
        intake_area_m2: f(0.4),
        intake: IntakeKind::Ramp,
        compressor_ratio: f(if passive { 1.0 } else { 9.0 }),
        bypass_ratio: f(0.0),
        fan_pressure_ratio: f(1.0),
        turbine_inlet_temp_k: f(if passive { 2_200.0 } else { 1_450.0 }),
        afterburner: false,
        reheat_temp_k: f(0.0),
        turbine_material: ChamberMaterial::nickel_superalloy(),
        spool_tau_s: f(4.0),
        shaft: ShaftSpec {
            starter: StarterSpec { power_w: f(0.0), charge_j: f(0.0), mass_kg: f(0.0) },
            generator: GeneratorSpec { mass_kg: f(0.0) },
            light_off_n: f(0.15),
            power_turbine_heat_fraction: f(0.0),
            turbine_heat_fraction: f(0.5),
            friction_fraction: f(0.02),
        },
    }
}

fn flight(mach: f64, ambient_pa: f64, composition: AtmosphereComposition) -> FlightCondition {
    FlightCondition {
        mach: f(mach),
        ambient_pa: f(ambient_pa),
        ambient_temp_k: f(260.0),
        airspeed_mps: f(mach * 323.0),
        composition,
    }
}

#[test]
fn engines_without_air_oxygen_or_drive_are_dead() {
    let anoxic = AtmosphereComposition { oxygen_mass_fraction: f(0.0), ..air() };
    for cycle in [AirCycle::Turbojet, AirCycle::Ramjet, AirCycle::Scramjet] {
        let engine = jet(cycle).compile(&Native, &design_air()).expect("compiles");
        let mut conditions = vec![flight(2.0, 0.0, air()), flight(2.0, 20_000.0, anoxic)];
        if cycle.is_passive() {
            conditions.push(flight(0.0, 101_325.0, air()));
        }
        for condition in conditions {
            let point = engine.operating_point(&Native, &condition, f(1.0)).expect("point");
            assert!(!point.lit);
            assert_eq!((n(point.thrust_n), n(point.fuel_flow_kg_s)), (0.0, 0.0));
        }
        for mach in [0.5, 1.0, 3.0, 6.0, 12.0] {
            let point = engine.operating_point(&Native, &flight(mach, 20_000.0, air()), f(1.0)).expect("point");
            assert!(!point.lit || n(point.fuel_flow_kg_s) > 0.0);
            assert!(!(point.drive_limited && cycle.is_passive()));
            if point.drive_limited {
                assert_eq!((n(point.thrust_n), n(point.fuel_flow_kg_s)), (0.0, 0.0));
            }
        }
    }
    for mach in [0.0, 1.0, 2.0, 8.0, 30.0] {
        assert!(IntakeKind::Pitot.recovery(&Native, f(mach)) >= dec(3, 1));
    }
    for target in [0.0, 0.3, 1.0] {
        assert_eq!(n(advance_jet_spool(&Native, f(target), f(target), f(0.7), f(4.0)).expect("held")), target);
    }
}

fn combined() -> EstocSpec {
    EstocSpec {
        name: "combined".into(),
        air: AirbreathingSpec { fuel: JetFuel::Kerosene, intake: IntakeKind::Pitot, ..jet(AirCycle::Turbojet) },
        bulk_fuel: None,
        boost_coolant_fuel: None,
        precooler: None,
        ejector: None,
        rocket_chamber_pressure_pa: f(6.0e6),
        rocket_throat_radius_m: f(0.06),
        oxidizer_fuel_ratio: None,
        switch_mach_hi: None,
        switch_mach_lo: None,
        transition_tau_s: None,
    }
}

#[test]
fn combined_cycle_keeps_its_mode_discipline_and_its_books() {
    let engine = combined().compile(&Native, &design_air()).expect("compiles");
    let running = JetShaftState::running(&engine.air);
    let mut prev: Option<EstocTransient> = None;
    for (mach, pressure, manual) in [
        (0.5, 101_325.0, None),
        (1.5, 60_000.0, Some(EstocMode::Rocket)),
        (2.0, 20_000.0, Some(EstocMode::Air)),
        (4.5, 1_000.0, None),
        (0.0, 0.0, None),
    ] {
        let condition = flight(mach, pressure, air());
        let (point, state) = engine
            .operating_point(&Native, &condition, f(0.9), manual, EstocMode::Air, prev, f(0.4), running)
            .expect("point");
        if let Some(mode) = manual {
            assert_eq!(point.mode, mode);
        }
        assert_eq!(point.thrust_n, state.thrust_n);
        let propellant = n(point.fuel_flow_kg_s) + n(point.oxidizer_flow_kg_s);
        let isp = if propellant > 0.0 { n(point.thrust_n) / (propellant * 9.80665) } else { 0.0 };
        assert_eq!(n(point.isp_total_s), isp);
        let (fresh, _) = engine
            .operating_point(&Native, &condition, f(0.9), manual, EstocMode::Air, None, f(0.0), running)
            .expect("fresh");
        match fresh.mode {
            EstocMode::Rocket => assert_eq!(n(fresh.air_flow_kg_s), 0.0),
            EstocMode::Air => assert_eq!(n(fresh.oxidizer_flow_kg_s), 0.0),
            EstocMode::Ejector => panic!("no ejector is fitted"),
        }
        prev = Some(state);
    }
    let (rest, _) = engine
        .operating_point(&Native, &flight(1.0, 50_000.0, air()), f(0.0), None, EstocMode::Rocket, prev, f(1.0), running)
        .expect("rest");
    assert_eq!((rest.mode, n(rest.thrust_n), n(rest.fuel_flow_kg_s)), (EstocMode::Rocket, 0.0, 0.0));
    let anoxic = AtmosphereComposition { oxygen_mass_fraction: f(0.0), ..air() };
    let (airless, _) = engine
        .operating_point(&Native, &flight(1.0, 50_000.0, anoxic), f(1.0), None, EstocMode::Air, None, f(0.0), running)
        .expect("anoxic");
    assert_eq!(airless.mode, EstocMode::Rocket);
}

#[test]
fn mounted_jets_thread_the_shaft_they_were_given() {
    let engine = combined().compile(&Native, &design_air()).expect("compiles");
    let mount = JetMount {
        name: "mount".into(),
        engine: CompiledJet::Estoc(Box::new(engine)),
        position_body_m: v(0.0, 0.0, 0.0),
        thrust_axis_body: v(1.0, 0.0, 0.0),
        gimbal_range_rad: f(0.1),
    };
    let shaft = JetShaftState { spool_n: f(0.83), ..JetShaftState::running(mount.engine.air_engine()) };
    let command = JetCommand::fresh();
    let (point, transient, next) = mount
        .estoc_point(&Native, f(0.8), &flight(0.4, 90_000.0, air()), &command, &Ok(shaft))
        .expect("point");
    assert_eq!(next, shaft);
    assert_eq!(point.thrust_n, transient.thrust_n);
    let threaded = command.with_state(&point, transient, next);
    assert_eq!((threaded.last_mode, threaded.prev, threaded.shaft), (point.mode, Some(transient), shaft));
    let thrust = mount
        .thrust_vector_body_n(&Native, f(0.8), &flight(0.4, 90_000.0, air()), &command, &Ok(shaft))
        .expect("vector");
    assert_eq!(thrust.x, point.thrust_n);
}

#[test]
fn no_authored_nan_compiles() {
    let nan = f(f64::NAN);
    let liquid = || booster_engine(NozzleContour::Bell, EngineCycle::GasGenerator);
    for spec in [
        LiquidEngineSpec { throat_radius_m: nan, ..liquid() },
        LiquidEngineSpec { expansion_ratio: nan, ..liquid() },
        LiquidEngineSpec { mixture_ratio: Some(nan), ..liquid() },
        LiquidEngineSpec { min_throttle: Some(nan), ..liquid() },
        LiquidEngineSpec { characteristic_length_m: Some(nan), ..liquid() },
        LiquidEngineSpec { gimbal_range_rad: nan, ..liquid() },
        LiquidEngineSpec {
            chamber_material: ChamberMaterial { max_wall_temp_k: nan, ..ChamberMaterial::regen_alloy() },
            ..liquid()
        },
    ] {
        assert!(spec.compile(&Native, &fluids()).is_err());
    }
    assert!(ElectricThrusterSpec { inlet_temperature_k: nan, ..mpd() }.compile(&Native).is_err());
    assert!(FusionTorchSpec { magnetic_field_t: nan, ..torch() }.compile(&Native).is_err());
    assert!(PulsedFusionSpec { fusion_gain: nan, ..pellets() }.compile(&Native).is_err());
    assert!(AirbreathingSpec { spool_tau_s: nan, ..jet(AirCycle::Turbojet) }.compile(&Native, &design_air()).is_err());
    assert!(EstocSpec { switch_mach_lo: Some(nan), ..combined() }.compile(&Native, &design_air()).is_err());
    assert!(EstocSpec { transition_tau_s: Some(nan), ..combined() }.compile(&Native, &design_air()).is_err());
}

/// Whether two numbers agree to within so many roundings.
fn agree(a: f64, b: f64, roundings: u32) -> bool {
    let slack = (1.0 + f64::EPSILON).powi(roundings as i32);
    a <= b * slack && b <= a * slack
}

#[test]
fn thrust_follows_throttle_and_pressure_by_any_factor() {
    for (contour, cycle) in [
        (NozzleContour::Bell, EngineCycle::GasGenerator),
        (NozzleContour::Conical, EngineCycle::StagedCombustion),
        (NozzleContour::Aerospike, EngineCycle::ElectricPump),
    ] {
        let engine = CompiledEngine::Liquid(booster_engine(contour, cycle).compile(&Native, &fluids()).expect("compiles"));
        let full = engine.operating_point(&Native, f(1.0), f(0.0), f(0.0)).expect("full");
        for throttle in [0.1, 0.37, 0.55, 0.8321, 0.999] {
            let part = engine.operating_point(&Native, f(throttle), f(0.0), f(0.0)).expect("part");
            assert!(agree(n(part.thrust_n), n(full.thrust_n) * throttle, 19));
            assert!(agree(n(part.mass_flow_kg_s), n(full.mass_flow_kg_s) * throttle, 3));
            assert!(agree(n(part.isp_s), n(full.isp_s), 24));
        }
    }
    let thruster = nitrogen();
    let rated = thruster.steady_point(&Native, f(2.0e6), f(0.0)).expect("rated");
    for share in [0.03, 0.3, 0.71, 1.9] {
        let point = thruster.steady_point(&Native, f(2.0e6 * share), f(0.0)).expect("blown down");
        assert!(agree(n(point.thrust_n), n(rated.thrust_n) * share, 15));
        assert!(agree(n(point.mass_flow_kg_s), n(rated.mass_flow_kg_s) * share, 7));
        assert!(agree(n(point.isp_s), n(rated.isp_s), 20));
    }
}

#[test]
fn short_pulses_deliver_by_the_square_of_their_time() {
    let whole = n(deliver_pulse(f(10.0), f(0.005), f(0.02), f(0.02)).impulse_ns);
    assert_eq!(whole, 0.1);
    for share in [0.1, 0.35, 0.5, 0.77] {
        let pulse = n(deliver_pulse(f(10.0), f(0.005), f(0.02 * share), f(0.02)).impulse_ns);
        assert!(agree(pulse, whole * share * share, 10));
    }
}

#[test]
fn a_grain_only_depletes() {
    for contour in [NozzleContour::Conical, NozzleContour::Aerospike] {
        let motor = grain(contour);
        for pair in motor.burn_curve.windows(2) {
            assert!(n(pair[1].time_s) - n(pair[0].time_s) > 1e-12);
        }
        let (mass, burn) = (n(motor.propellant_mass_kg), n(motor.burn_time_s));
        let engine = CompiledEngine::Solid(motor);
        let mut last = mass;
        for step in 0..=1_000 {
            let left = n(engine.propellant_remaining_kg(f(burn * step as f64 / 1_000.0)).expect("a grain"));
            let (used, before) = (mass - left, mass - last);
            assert!(left <= last || agree(used, before, 40));
            last = left;
        }
        assert_eq!(last, 0.0);
    }
}

#[test]
fn a_clean_bake_validates() {
    for contour in [NozzleContour::Conical, NozzleContour::Bell, NozzleContour::Aerospike] {
        let liquid = booster_engine(contour, EngineCycle::GasGenerator).compile(&Native, &fluids()).expect("compiles");
        assert!(liquid.validate().is_ok());
        assert!(grain(contour).validate().is_ok());
    }
    assert!(mpd().compile(&Native).expect("arc").validate().is_ok());
}

#[test]
fn reactor_power_heats_the_whole_flow() {
    let (engine, _) = NuclearThermalSpec {
        name: "reactor".into(),
        fluid: NtrFluid::Hydrogen,
        core_temp_k: f(2_650.0),
        core_power_mw: f(900.0),
        reactor_specific_mass_kg_per_mw: None,
        throat_radius_m: f(0.1),
        expansion_ratio: f(80.0),
        nozzle_length_m: f(1.8),
        contour: NozzleContour::Bell,
        material: ChamberMaterial::nickel_superalloy(),
        cooling: CoolingMode::Regenerative,
        gimbal_range_rad: f(0.0),
        startup_tau_s: None,
        min_throttle: None,
    }
    .compile(&Native)
    .expect("compiles");
    assert!(engine.validate().is_ok());
    let cp = 1.30 * 4157.0 / (1.30 - 1.0);
    let rise = 2_650.0 - n(ntr_inlet_temp_k());
    assert!(agree(n(engine.full_flow_kg_s) * cp * rise, 9.0e8, 4));
}

#[test]
fn a_bell_recovers_part_of_the_divergence_loss() {
    for angle in [0.0, 0.1, 0.26, 0.7, 1.2] {
        let cone = n(divergence_of(&Native, NozzleContour::Conical, f(angle)));
        let bell = n(divergence_of(&Native, NozzleContour::Bell, f(angle)));
        assert!(0.5 <= cone && cone <= bell && bell <= 1.0);
        assert_eq!(bell, cone + (1.0 - cone) * 0.5);
    }
}

#[test]
fn the_shaft_balances_at_the_design_point() {
    let spec = jet(AirCycle::Turbojet);
    let engine = spec.compile(&Native, &design_air()).expect("compiles");
    let design = FlightCondition {
        mach: f(0.0),
        ambient_pa: f(101_325.0),
        ambient_temp_k: f(288.15),
        airspeed_mps: f(0.0),
        composition: air(),
    };
    let (_, balance) = engine.operating_point_at_spool(&Native, &design, f(1.0), f(1.0), true).expect("design");
    let taken = n(balance.demand_w) + n(balance.friction_w);
    assert!(taken > 0.0 && agree(n(balance.capacity_w), taken, 8));
    assert!(n(engine.shaft_turbine_frac) <= 2.0 && n(engine.shaft_reference_power_w) > 0.0);
    let passive = jet(AirCycle::Ramjet).compile(&Native, &design_air()).expect("ramjet");
    assert_eq!((n(passive.shaft_turbine_frac), n(passive.shaft_reference_power_w)), (0.0, 0.0));
}

#[test]
fn the_steady_spool_lies_where_net_power_changes_sign() {
    let engine = jet(AirCycle::Turbojet).compile(&Native, &design_air()).expect("compiles");
    let net = |condition: &FlightCondition, throttle: f64, spool: f64| {
        let (_, balance) = engine
            .operating_point_at_spool(&Native, condition, f(throttle), f(spool), true)
            .expect("balance");
        n(balance.net_w())
    };
    let mut inside = 0;
    for mach in [0.0, 0.4, 0.8, 1.5] {
        for throttle in [0.2, 0.4, 0.6, 0.8, 1.0] {
            let condition = flight(mach, 70_000.0, air());
            let spool = n(engine.operating_point(&Native, &condition, f(throttle)).expect("steady").spool_n);
            if spool == 0.0 {
                assert!(!(net(&condition, throttle, 0.15) > 0.0));
            } else if spool == 1.0 {
                assert!(!(net(&condition, throttle, 1.0) < 0.0));
            } else {
                assert!(0.15 < spool && spool < 1.0);
                assert!(net(&condition, throttle, spool - 2e-12) > 0.0 || net(&condition, throttle, spool + 2e-12) <= 0.0);
                inside += 1;
            }
        }
    }
    assert!(inside > 0);
    let thin = flight(0.0, 0.0, air());
    assert_eq!(n(engine.operating_point(&Native, &thin, f(1.0)).expect("vacuum").spool_n), 0.0);
}

#[test]
fn a_transition_never_turns_a_flow_around() {
    let engine = combined().compile(&Native, &design_air()).expect("compiles");
    let running = JetShaftState::running(&engine.air);
    let at = |mode: EstocMode| {
        engine
            .operating_point(&Native, &flight(0.8, 80_000.0, air()), f(1.0), Some(mode), mode, None, f(0.0), running)
            .expect("fresh")
            .1
    };
    let (breathing, rocket) = (at(EstocMode::Air), at(EstocMode::Rocket));
    for (from, to) in [(breathing, rocket), (rocket, breathing)] {
        assert_eq!(engine.smoothed(&Native, to, Some(from), f(0.0)).thrust_n, from.thrust_n);
        for step in 1..60 {
            let state = engine.smoothed(&Native, to, Some(from), f(0.05 * step as f64));
            for flow in [state.thrust_n, state.fuel_flow_kg_s, state.oxidizer_flow_kg_s, state.air_flow_kg_s] {
                assert!(n(flow) >= 0.0);
            }
        }
    }
}

#[test]
fn an_arc_settles_from_above_within_its_jet_budget() {
    let discharge = MpdDischarge {
        requested_flow: f(1.0e-5),
        arc_voltage_v: f(80.0),
        max_current_a: f(4_000.0),
        jet_power_efficiency: f(0.5),
        maecker_n_a2: f(1.8e-7),
        ionization_specific_j_kg: f(5.0e7),
        ion_current_per_feed_a: f(2.4e6),
        flow_limited: false,
    };
    let flow = f(1.0e-5);
    let mut current = f(4_000.0);
    for _ in 0..24 {
        let bound = discharge.energy_limited_current_a(flow, current);
        let next = f(n(current).min(n(bound)));
        assert!(0.0 < n(next) && n(next) <= n(current));
        current = next;
    }
    assert_eq!(discharge.settle_current(flow, f(4_000.0)), current);
    assert!(n(current) < 4_000.0);
    let thrust = 1.8e-7 * n(current) * n(current);
    let budget = (80.0 * n(current) - 1.0e-5 * 5.0e7) * 0.5;
    assert!(thrust * thrust / 2.0e-5 <= budget * (1.0 + 1e-6));
}

#[test]
fn full_throttle_gives_the_compiled_vacuum_thrust() {
    for (contour, cycle) in [
        (NozzleContour::Bell, EngineCycle::GasGenerator),
        (NozzleContour::Conical, EngineCycle::FullFlowStaged),
        (NozzleContour::Aerospike, EngineCycle::PressureFed),
    ] {
        let spec = LiquidEngineSpec { chamber_pressure_pa: f(2.5e6), ..booster_engine(contour, cycle) };
        let engine = spec.compile(&Native, &fluids()).expect("compiles");
        let point = engine.operating_point(&Native, f(1.0), f(0.0)).expect("full throttle");
        assert!((n(point.thrust_n) / n(engine.thrust_vac_n) - 1.0).abs() < 1e-12);
        assert_eq!(point.mass_flow_kg_s, engine.full_flow_kg_s);
    }
}

#[test]
fn ambient_pressure_pushes_on_the_exit_area_of_a_motor() {
    for contour in [NozzleContour::Conical, NozzleContour::Bell] {
        let motor = grain(contour);
        let area = n(motor.throat_area_m2) * n(motor.expansion_ratio);
        let engine = CompiledEngine::Solid(motor);
        for time in [0.1, 0.9, 1.7] {
            let vacuum = engine.operating_point(&Native, f(1.0), f(0.0), f(time)).expect("vacuum");
            for ambient in [12.5, 40_000.0, 101_325.0] {
                let point = engine.operating_point(&Native, f(1.0), f(ambient), f(time)).expect("point");
                let taken = n(vacuum.thrust_n) - n(point.thrust_n) - ambient * area;
                assert!(taken.abs() <= 96.0 * f64::EPSILON * (n(vacuum.thrust_n) + ambient * area));
                assert_eq!(point.mass_flow_kg_s, vacuum.mass_flow_kg_s);
            }
        }
    }
}

#[test]
fn a_trace_ends_in_the_dark_with_a_rising_clock() {
    for contour in [NozzleContour::Conical, NozzleContour::Bell, NozzleContour::Aerospike] {
        let motor = grain(contour);
        let last = motor.burn_curve.last().expect("a station");
        assert_eq!(
            (n(last.chamber_pa), n(last.mass_flow_kg_s), n(last.thrust_sl_n), n(last.thrust_vac_n)),
            (0.0, 0.0, 0.0, 0.0)
        );
        assert!(motor.burn_curve.windows(2).all(|pair| n(pair[0].time_s) < n(pair[1].time_s)));
    }
}

#[test]
fn an_afterburner_adds_its_duct_and_nothing_to_the_design() {
    let bare = jet(AirCycle::Turbojet);
    let fitted = AirbreathingSpec { afterburner: true, reheat_temp_k: f(1_900.0), ..jet(AirCycle::Turbojet) };
    let bare = AirbreathingSpec { reheat_temp_k: f(1_900.0), ..bare }.compile(&Native, &design_air()).expect("bare");
    let fitted = fitted.compile(&Native, &design_air()).expect("fitted");
    assert_eq!(fitted.exit_area_core_m2, bare.exit_area_core_m2);
    assert_eq!(fitted.design_static_thrust_n, bare.design_static_thrust_n);
    assert_eq!(fitted.design_fuel_flow_kg_s, bare.design_fuel_flow_kg_s);
    assert_eq!(fitted.design_isp_s, bare.design_isp_s);
    assert_eq!(fitted.shaft_turbine_frac, bare.shaft_turbine_frac);
    let duct = n(fitted.dry_mass_kg) - n(bare.dry_mass_kg);
    assert!((duct - 80.0 * n(fitted.exit_area_core_m2)).abs() <= 64.0 * f64::EPSILON * n(fitted.dry_mass_kg));
}

#[test]
fn feeds_stay_within_bus_power_and_radiator() {
    let ion = ElectricThrusterDesign::GriddedIon {
        accelerator_voltage_v: f(900.0),
        grid_diameter_m: f(0.3),
        grid_gap_m: f(0.002),
        max_beam_current_density_a_m2: f(80.0),
        propellant_utilization: f(0.9),
        accelerator_efficiency: f(0.8),
    };
    let heater = ElectricThrusterDesign::Resistojet {
        chamber_radius_m: f(0.01),
        chamber_length_m: f(0.05),
        max_exhaust_temp_k: f(1_500.0),
        heater_efficiency: f(0.7),
        nozzle_efficiency: f(0.8),
    };
    let arc = ElectricThrusterDesign::Arcjet {
        chamber_radius_m: f(0.01),
        chamber_length_m: f(0.05),
        max_exhaust_temp_k: f(2_500.0),
        arc_voltage_v: f(100.0),
        max_arc_current_a: f(50.0),
        heater_efficiency: f(0.6),
        nozzle_efficiency: f(0.7),
    };
    for design in [ion, heater, arc] {
        let engine = ElectricThrusterSpec { design, ..mpd() }.compile(&Native).expect("compiles");
        for power in [0.0, 37.0, 900.0, 7_777.0] {
            for flow in [0.0, 1.0e-6, 3.3e-5, 1.0e-4] {
                let command = ElectricThrusterCommand { available_power_w: f(power), requested_mass_flow_kg_s: f(flow) };
                let point = engine.operating_point(&Native, command).expect("point");
                assert!(n(point.electrical_power_w) <= power * (1.0 + 3.0 * f64::EPSILON));
                let rejected = n(engine.radiator_heat_rejection_w);
                let turned = n(point.electrical_power_w) + n(point.jet_kinetic_power_w) + n(point.exhaust_internal_power_w);
                assert!(n(point.waste_heat_w) <= rejected + 60.0 * f64::EPSILON * (rejected + turned));
            }
        }
    }
}

#[test]
fn a_pulsed_step_closes_its_ledgers() {
    let engine = pellets().compile(&Native).expect("compiles");
    let (fusion, driver) = (n(engine.fusion_energy_per_pulse_j), n(engine.driver_energy_per_pulse_j));
    let mut state = PulsedFusionState {
        pulse_phase_s: f(0.0),
        stored_driver_energy_j: f(0.25 * n(engine.buffer_capacity_j)),
        cumulative_shots: 0,
    };
    let mut fired = 0;
    for (armed, share, dt) in [(true, 1.0, 7.3), (true, 0.4, 61.0), (false, 0.9, 3.0), (true, 1.0, 0.2), (true, 0.8, 40.0)] {
        let command = PulsedFusionCommand {
            armed,
            available_charge_power_w: f(share * n(engine.maximum_charge_power_w)),
        };
        let (next, point) = engine.advance(state, command, f(dt)).expect("step");
        let bus = n(point.bus_energy_input_j);
        let shots = point.pulses_fired as f64;
        let taken = n(next.stored_driver_energy_j) - n(state.stored_driver_energy_j);
        let scale = n(engine.buffer_capacity_j) + driver + bus + shots * (fusion + driver);
        assert!((taken - (bus - shots * driver)).abs() <= 1e-12 * scale);
        let made = n(point.jet_kinetic_energy_j) + n(point.exhaust_internal_energy_j) + n(point.waste_heat_j);
        assert!((bus + n(point.fusion_energy_j) - (taken + made)).abs() <= 1e-12 * scale);
        fired += point.pulses_fired;
        state = next;
    }
    assert!(fired > 0);
}

#[test]
fn splitting_a_pulsed_step_changes_nothing_but_roundings() {
    let engine = pellets().compile(&Native).expect("compiles");
    let interval = n(engine.pulse_interval_s);
    let command = PulsedFusionCommand { armed: true, available_charge_power_w: engine.maximum_charge_power_w };
    let state = PulsedFusionState {
        pulse_phase_s: f(0.3 * interval),
        stored_driver_energy_j: engine.buffer_capacity_j,
        cumulative_shots: 7,
    };
    for intervals in [0.4, 1.3, 2.55, 6.81] {
        for shares in [vec![0.11, 0.89], vec![0.2; 5], vec![0.5, 0.25, 0.125, 0.125], vec![0.01; 100]] {
            let (whole, all) = engine.advance(state, command, f(intervals * interval)).expect("whole");
            let mut end = state;
            let (mut shots, mut impulse) = (0, 0.0);
            for share in shares {
                let (next, point) = engine.advance(end, command, f(share * intervals * interval)).expect("part");
                shots += point.pulses_fired;
                impulse += n(point.impulse_ns);
                end = next;
            }
            assert_eq!(shots, all.pulses_fired);
            assert_eq!(end.cumulative_shots, whole.cumulative_shots);
            assert!((n(end.pulse_phase_s) - n(whole.pulse_phase_s)).abs() <= 1e-12 * interval);
            let stray = n(end.stored_driver_energy_j) - n(whole.stored_driver_energy_j);
            assert!(stray.abs() <= 1e-12 * n(engine.buffer_capacity_j));
            assert!((impulse - n(all.impulse_ns)).abs() <= 1e-13 * n(all.impulse_ns));
        }
    }
}

#[test]
fn splitting_a_step_whose_shots_wait_for_charge_changes_nothing_but_roundings() {
    let engine = pellets().compile(&Native).expect("compiles");
    let (interval, driver) = (n(engine.pulse_interval_s), n(engine.driver_energy_per_pulse_j));
    // Each shot takes four intervals to pay for.
    let wait = 4.0 * interval;
    let command = PulsedFusionCommand { armed: true, available_charge_power_w: f(driver / wait) };
    assert!(driver / wait < n(engine.maximum_charge_power_w));
    let state = PulsedFusionState {
        pulse_phase_s: f(0.3 * interval),
        stored_driver_energy_j: f(0.2 * driver),
        cumulative_shots: 7,
    };
    // The first shot falls after 0.8 waits, and each next one a wait later.
    for (waits, fired) in [(0.5, 0), (1.33, 1), (2.45, 2), (6.1, 6)] {
        for shares in [vec![0.11, 0.89], vec![0.2; 5], vec![0.5, 0.25, 0.125, 0.125], vec![0.01; 100]] {
            let (whole, all) = engine.advance(state, command, f(waits * wait)).expect("whole");
            assert_eq!(all.pulses_fired, fired);
            let mut end = state;
            let (mut shots, mut impulse) = (0, 0.0);
            for share in shares {
                let (next, point) = engine.advance(end, command, f(share * waits * wait)).expect("part");
                shots += point.pulses_fired;
                impulse += n(point.impulse_ns);
                end = next;
            }
            assert_eq!(shots, all.pulses_fired);
            assert_eq!(end.cumulative_shots, whole.cumulative_shots);
            assert!((n(end.pulse_phase_s) - n(whole.pulse_phase_s)).abs() <= 1e-11 * interval);
            let stray = n(end.stored_driver_energy_j) - n(whole.stored_driver_energy_j);
            assert!(stray.abs() <= 1e-11 * driver);
            assert!((impulse - n(all.impulse_ns)).abs() <= 1e-13 * n(all.impulse_ns));
        }
    }
}

#[test]
fn solved_mach_numbers_give_their_area_ratio_back() {
    for (gamma, ratio) in [(1.2, 3.0), (1.22, 16.0), (1.24, 35.0), (1.25, 80.0), (1.4, 1.01), (1.1, 400.0)] {
        let mach = mach_from_area_ratio(&Native, f(gamma), f(ratio)).expect("solves");
        assert!(n(mach) > 1.0);
        let area = n(area_ratio_from_mach(&Native, f(gamma), mach));
        assert!((area - ratio).abs() / ratio < 1e-9);
    }
}

#[test]
fn a_grain_burns_at_every_station_and_its_web_never_shrinks() {
    for contour in [NozzleContour::Conical, NozzleContour::Bell, NozzleContour::Aerospike] {
        let curve = grain(contour).burn_curve;
        for point in &curve[..curve.len() - 1] {
            assert!(n(point.chamber_pa) > 0.0 && n(point.mass_flow_kg_s) > 0.0);
        }
        assert!(curve.windows(2).all(|pair| n(pair[0].web_burned_m) <= n(pair[1].web_burned_m)));
    }
}

#[test]
fn equal_port_radii_are_a_uniform_port() {
    let uniform = grain_spec(NozzleContour::Bell, None);
    let listed = grain_spec(NozzleContour::Bell, Some(vec![uniform.core_radius_m; 3]));
    assert_eq!(
        uniform.compile(&Native).expect("uniform").burn_curve,
        listed.compile(&Native).expect("listed").burn_curve
    );
    let wide = |radii: Option<Vec<F64>>| SolidMotorSpec {
        core_radius_m: f(0.5),
        ..grain_spec(NozzleContour::Bell, radii)
    };
    assert_eq!(wide(None).compile(&Native), wide(Some(vec![f(0.5); 3])).compile(&Native));
}
