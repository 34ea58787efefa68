use propulsion::electric::ElectricPropellant;
use propulsion::float::F64;
use propulsion::fusion::{
    FusionReaction, FusionTorchCommand, FusionTorchSpec, PulsedFusionCommand, PulsedFusionSpec, PulsedFusionState,
};
use propulsion::numerics::Numerics;

/// The elementary functions of the machine that runs the tests.
struct Native;

impl Numerics for Native {
    fn powf(&self, x: F64, y: F64) -> F64 {
        f(n(x).powf(n(y)))
    }

    fn powi(&self, x: F64, k: i32) -> F64 {
        f(n(x).powi(k))
    }

    fn exp(&self, x: F64) -> F64 {
        f(n(x).exp())
    }

    fn ln(&self, x: F64) -> F64 {
        f(n(x).ln())
    }

    fn atan(&self, x: F64) -> F64 {
        f(n(x).atan())
    }

    fn cos(&self, x: F64) -> F64 {
        f(n(x).cos())
    }

    fn fixed(&self, x: F64, places: u32) -> String {
        format!("{:.*}", places as usize, n(x))
    }

    fn shortest(&self, x: F64) -> String {
        format!("{}", n(x))
    }
}

fn f(x: f64) -> F64 {
    F64::from_bits(x.to_bits())
}

fn n(x: F64) -> f64 {
    f64::from_bits(x.to_bits())
}

fn torch_spec() -> FusionTorchSpec {
    FusionTorchSpec {
        name: "dt-torch-test".into(),
        reaction: FusionReaction::DeuteriumTritium,
        working_fluid: ElectricPropellant::Hydrogen,
        maximum_fusion_power_w: f(100.0e6),
        fusion_gain: f(10.0),
        maximum_working_flow_kg_s: f(1.0e-3),
        reactor_specific_power_w_kg: f(10_000.0),
        plasma_coupling_efficiency: f(0.9),
        magnetic_nozzle_efficiency: f(0.8),
        nozzle_radius_m: f(0.5),
        nozzle_length_m: f(2.0),
        magnetic_field_t: f(1.0),
        coil_current_density_a_m2: f(4.0e7),
        structure_density_kg_m3: f(2_700.0),
        structure_thickness_m: f(0.01),
        radiator_area_m2: f(3_000.0),
        radiator_temperature_k: f(1_000.0),
        radiator_emissivity: f(0.9),
        radiator_areal_density_kg_m2: f(8.0),
    }
}

fn pulsed_spec() -> PulsedFusionSpec {
    PulsedFusionSpec {
        name: "pellet-drive-test".into(),
        reaction: FusionReaction::DeuteriumTritium,
        working_fluid: ElectricPropellant::Hydrogen,
        fuel_mass_per_pulse_kg: f(1.0e-9),
        working_fluid_mass_per_pulse_kg: f(1.0e-7),
        fusion_gain: f(10.0),
        plasma_coupling_efficiency: f(0.9),
        magnetic_nozzle_efficiency: f(0.8),
        maximum_pulse_frequency_hz: f(0.1),
        pulse_duration_s: f(0.01),
        maximum_charge_power_w: f(100_000.0),
        energy_buffer_capacity_pulses: 2,
        energy_buffer_specific_energy_j_kg: f(1.0e6),
        pulse_system_specific_power_w_kg: f(1.0e6),
        chamber_radius_m: f(0.1),
        chamber_length_m: f(0.5),
        magnetic_field_t: f(1.0),
        coil_current_density_a_m2: f(4.0e7),
        structure_density_kg_m3: f(2_700.0),
        structure_thickness_m: f(0.01),
        radiator_area_m2: f(10.0),
        radiator_temperature_k: f(1_000.0),
        radiator_emissivity: f(0.9),
        radiator_areal_density_kg_m2: f(8.0),
    }
}

fn assert_close(actual: f64, expected: f64, relative_tolerance: f64) {
    assert!(
        (actual - expected).abs() <= relative_tolerance * expected.abs().max(1.0),
        "{actual} != {expected}"
    );
}

#[test]
fn dt_reaction_energy_and_torch_first_law_match_reference_values() {
    let dt_specific_energy = n(FusionReaction::DeuteriumTritium.energy_release_j_kg());
    assert!((3.3e14..=3.5e14).contains(&dt_specific_energy));
    assert_close(
        n(FusionReaction::DeuteriumTritium.charged_energy_fraction()),
        3.5 / 17.6,
        1e-14,
    );

    let engine = torch_spec().compile(&Native).expect("torch compiles");
    let point = engine
        .operating_point(FusionTorchCommand {
            available_driver_power_w: f(20.0e6),
            requested_working_flow_kg_s: f(2.0e-3),
        })
        .expect("torch point");
    assert_close(n(point.fusion_power_w), 100.0e6, 1e-14);
    assert!(point.power_limited);
    assert!(point.flow_limited);
    assert!(n(point.waste_heat_w) <= n(point.radiator_capacity_w));
    let energy_out_w =
        n(point.jet_kinetic_power_w) + n(point.exhaust_internal_power_w) + n(point.waste_heat_w);
    assert_close(
        energy_out_w,
        n(point.fusion_power_w) + n(point.driver_power_w),
        1e-12,
    );
    assert!(n(point.thrust_n) > 0.0);
    assert_close(
        n(point.thrust_n),
        n(point.total_exhaust_flow_kg_s) * n(point.exhaust_velocity_mps),
        1e-12,
    );

    let mut small_radiator = torch_spec();
    small_radiator.radiator_area_m2 = f(0.01);
    let thermal_engine = small_radiator.compile(&Native).expect("small radiator");
    let thermal_point = thermal_engine
        .operating_point(FusionTorchCommand {
            available_driver_power_w: f(100.0e6),
            requested_working_flow_kg_s: f(1.0e-4),
        })
        .expect("thermally limited torch point");
    assert!(thermal_point.thermal_limited);
    assert!(n(thermal_point.waste_heat_w) <= n(thermal_point.radiator_capacity_w) + 1e-8);
}

#[test]
fn pulsed_fusion_respects_pulse_events_and_buffer_energy_balance() {
    let engine = pulsed_spec().compile(&Native).expect("pulsed system compiles");
    assert_close(n(engine.pulse_interval_s), 10.0, 1e-14);
    assert!(n(engine.peak_fusion_power_w) > n(engine.fusion_energy_per_pulse_j));
    let initial = PulsedFusionState {
        pulse_phase_s: f(0.0),
        stored_driver_energy_j: engine.buffer_capacity_j,
        cumulative_shots: 7,
    };
    let command = PulsedFusionCommand {
        available_charge_power_w: f(100_000.0),
        armed: true,
    };
    let (next, point) = engine.advance(initial, command, f(25.0)).expect("advance");
    assert_eq!(point.pulses_fired, 2);
    assert_eq!(next.cumulative_shots, 9);
    assert_close(n(next.pulse_phase_s), 5.0, 1e-12);
    assert!(n(point.impulse_ns) > 0.0);
    assert_close(
        n(point.bus_energy_input_j) - n(point.driver_energy_consumed_j),
        n(point.buffer_energy_delta_j),
        1e-10,
    );
    assert_close(
        n(point.bus_energy_input_j) + n(point.fusion_energy_j),
        n(point.buffer_energy_delta_j)
            + n(point.jet_kinetic_energy_j)
            + n(point.exhaust_internal_energy_j)
            + n(point.waste_heat_j),
        1e-10,
    );

    // Five smaller steps must preserve the two scheduled shots and the
    // energy-buffer state of one 25-second step.
    let mut partitioned_state = initial;
    let mut partitioned_shots = 0;
    let mut partitioned_impulse = 0.0;
    for _ in 0..5 {
        let (state, step) = engine
            .advance(partitioned_state, command, f(5.0))
            .expect("partitioned advance");
        partitioned_state = state;
        partitioned_shots += step.pulses_fired;
        partitioned_impulse += n(step.impulse_ns);
    }
    assert_eq!(partitioned_shots, point.pulses_fired);
    assert_close(n(partitioned_state.pulse_phase_s), n(next.pulse_phase_s), 1e-12);
    assert_close(
        n(partitioned_state.stored_driver_energy_j),
        n(next.stored_driver_energy_j),
        1e-12,
    );
    assert_close(partitioned_impulse, n(point.impulse_ns), 1e-12);
}

#[test]
fn pulse_driver_and_radiator_reduce_cadence_and_disarm_only_charges() {
    let mut spec = pulsed_spec();
    spec.radiator_area_m2 = f(1.0e-4);
    let engine = spec.compile(&Native).expect("thermally throttled pulses");
    assert!(n(engine.thermal_pulse_interval_s) > n(engine.rated_pulse_interval_s));
    let ready = PulsedFusionState {
        pulse_phase_s: f(n(engine.pulse_interval_s) - 1.0),
        stored_driver_energy_j: engine.driver_energy_per_pulse_j,
        cumulative_shots: 0,
    };
    let (after_shot, point) = engine
        .advance(
            ready,
            PulsedFusionCommand {
                available_charge_power_w: engine.maximum_charge_power_w,
                armed: true,
            },
            f(1.0),
        )
        .expect("thermal boundary shot");
    assert_eq!(point.pulses_fired, 1);
    assert!(point.thermal_limited);
    assert!(
        n(engine.waste_heat_per_pulse_j) / n(engine.pulse_interval_s)
            <= n(point.radiator_capacity_w) + 1e-8
    );
    assert!(n(after_shot.pulse_phase_s) < 1e-9);

    let cold_start = PulsedFusionState::default();
    let (charged, no_fire) = engine
        .advance(
            cold_start,
            PulsedFusionCommand {
                available_charge_power_w: engine.maximum_charge_power_w,
                armed: false,
            },
            f(1.0),
        )
        .expect("disarmed charge");
    assert_eq!(no_fire.pulses_fired, 0);
    assert_eq!(n(charged.pulse_phase_s), 0.0);
    assert!(n(charged.stored_driver_energy_j) > 0.0);
    assert_eq!(charged.cumulative_shots, 0);

    let mut limited_spec = pulsed_spec();
    limited_spec.maximum_charge_power_w = f(1_000.0);
    let limited = limited_spec.compile(&Native).expect("low-power charger");
    let (_, limited_point) = limited
        .advance(
            PulsedFusionState::default(),
            PulsedFusionCommand {
                available_charge_power_w: f(1_000.0),
                armed: true,
            },
            f(10.0),
        )
        .expect("power-limited pulse advance");
    assert_eq!(limited_point.pulses_fired, 0);
    assert!(limited_point.power_limited);
}

#[test]
fn invalid_fusion_designs_commands_and_state_fail_closed() {
    let mut bad_torch = torch_spec();
    bad_torch.fusion_gain = f(f64::NAN);
    assert!(bad_torch.compile(&Native).is_err());
    let torch = torch_spec().compile(&Native).expect("torch");
    assert!(
        torch
            .operating_point(FusionTorchCommand {
                available_driver_power_w: f(f64::INFINITY),
                requested_working_flow_kg_s: f(0.0),
            })
            .is_err()
    );

    let pulsed = pulsed_spec().compile(&Native).expect("pulsed system");
    assert!(
        pulsed
            .advance(
                PulsedFusionState {
                    stored_driver_energy_j: f(n(pulsed.buffer_capacity_j) + 1.0),
                    ..PulsedFusionState::default()
                },
                PulsedFusionCommand {
                    available_charge_power_w: f(1.0),
                    armed: true,
                },
                f(1.0),
            )
            .is_err()
    );
    assert!(
        pulsed
            .advance(
                PulsedFusionState::default(),
                PulsedFusionCommand {
                    available_charge_power_w: f(1.0),
                    armed: true,
                },
                f(0.0),
            )
            .is_err()
    );
}

#[test]
fn fusion_refusals_name_their_reason() {
    let torch = |spec: FusionTorchSpec| match spec.compile(&Native) {
        Ok(_) => panic!("must be refused"),
        Err(error) => error.message(),
    };
    assert_eq!(
        torch(FusionTorchSpec { name: " ".into(), ..torch_spec() }),
        "invalid engine spec: fusion torch name must not be empty"
    );
    assert_eq!(
        torch(FusionTorchSpec { fusion_gain: f(1.0), ..torch_spec() }),
        "invalid engine spec: continuous fusion gain must exceed one"
    );
    assert_eq!(
        torch(FusionTorchSpec { magnetic_nozzle_efficiency: f(0.0), ..torch_spec() }),
        "invalid engine spec: fusion coupling and nozzle efficiencies must be in (0, 1]"
    );
    let pulsed = |spec: PulsedFusionSpec| match spec.compile(&Native) {
        Ok(_) => panic!("must be refused"),
        Err(error) => error.message(),
    };
    assert_eq!(
        pulsed(PulsedFusionSpec { pulse_duration_s: f(11.0), ..pulsed_spec() }),
        "invalid engine spec: pulse duration must fit within the rated pulse interval"
    );
    assert_eq!(
        pulsed(PulsedFusionSpec { energy_buffer_capacity_pulses: 17, ..pulsed_spec() }),
        "invalid engine spec: fusion buffer capacity must be in 1..=16 pulse energies"
    );
    let engine = pulsed_spec().compile(&Native).expect("pulsed system");
    let armed = PulsedFusionCommand { available_charge_power_w: f(1.0), armed: true };
    let rest = PulsedFusionState::default();
    let error = engine.advance(rest, armed, f(f64::INFINITY)).expect_err("dt");
    assert_eq!(error.message(), "invalid engine command: pulsed fusion step must be finite and > 0 seconds");
    let drained = PulsedFusionCommand { available_charge_power_w: f(-1.0), armed: true };
    let error = engine.advance(rest, drained, f(1.0)).expect_err("power");
    assert_eq!(error.message(), "invalid engine command: fusion buffer charge power must be finite and >= 0");
    let full = PulsedFusionState {
        pulse_phase_s: f(0.0),
        stored_driver_energy_j: engine.buffer_capacity_j,
        cumulative_shots: u64::MAX,
    };
    let error = engine.advance(full, armed, f(10.5)).expect_err("shots");
    assert_eq!(error.message(), "invalid engine command: pulsed fusion shot counter overflowed");
    assert!(engine.advance(full, armed, f(1.0)).is_ok());
}

#[test]
fn a_step_of_too_many_pulses_is_refused() {
    let engine = PulsedFusionSpec {
        maximum_pulse_frequency_hz: f(1.0e3),
        pulse_duration_s: f(1.0e-4),
        maximum_charge_power_w: f(1.0e12),
        radiator_area_m2: f(1.0e6),
        ..pulsed_spec()
    }
    .compile(&Native)
    .expect("fast pulses");
    let command = PulsedFusionCommand { available_charge_power_w: f(1.0e12), armed: true };
    let rest = PulsedFusionState::default();
    assert!(engine.advance(rest, command, f(1.0)).is_ok());
    let error = engine.advance(rest, command, f(1.0e6)).expect_err("too many");
    assert_eq!(
        error.message(),
        "invalid engine command: pulsed fusion cadence exceeded the bounded step event count"
    );
}
