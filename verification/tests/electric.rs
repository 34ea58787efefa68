use propulsion::electric::{
    avogadro_per_mol, elementary_charge_c, vacuum_permeability_h_m,     CompiledElectricThruster, ElectricPropellant, ElectricThrusterCommand, ElectricThrusterDesign,
    ElectricThrusterMount, ElectricThrusterPoint, ElectricThrusterSpec,
};
use propulsion::float::F64;
use propulsion::numerics::Numerics;
use propulsion::vector::Vector;

/// The elementary functions of the machine that runs the tests.
struct Native;

impl Numerics for Native {
    fn powf(&self, x: F64, y: F64) -> F64 {
        f(n(x).powf(n(y)))
    }

    fn powi(&self, x: F64, k: i32) -> F64 {
        f(n(x).powi(k))
    }

    fn exp(&self, x: F64) -> F64 {
        f(n(x).exp())
    }

    fn ln(&self, x: F64) -> F64 {
        f(n(x).ln())
    }

    fn atan(&self, x: F64) -> F64 {
        f(n(x).atan())
    }

    fn cos(&self, x: F64) -> F64 {
        f(n(x).cos())
    }

    fn fixed(&self, x: F64, places: u32) -> String {
        format!("{:.*}", places as usize, n(x))
    }

    fn shortest(&self, x: F64) -> String {
        format!("{}", n(x))
    }
}

fn f(x: f64) -> F64 {
    F64::from_bits(x.to_bits())
}

fn n(x: F64) -> f64 {
    f64::from_bits(x.to_bits())
}

fn v(x: f64, y: f64, z: f64) -> Vector {
    Vector::new(f(x), f(y), f(z))
}

fn base_spec(design: ElectricThrusterDesign) -> ElectricThrusterSpec {
    ElectricThrusterSpec {
        name: "electric-test".into(),
        propellant: ElectricPropellant::Xenon,
        design,
        maximum_power_w: f(10_000.0),
        maximum_mass_flow_kg_s: f(1.0e-4),
        power_processor_specific_power_w_kg: f(2_000.0),
        structure_density_kg_m3: f(2_700.0),
        structure_thickness_m: f(0.003),
        radiator_area_m2: f(10.0),
        radiator_temperature_k: f(700.0),
        radiator_emissivity: f(0.9),
        radiator_areal_density_kg_m2: f(8.0),
        ionization_efficiency: f(0.75),
        inlet_temperature_k: f(300.0),
    }
}

fn command(power_w: f64, flow_kg_s: f64) -> ElectricThrusterCommand {
    ElectricThrusterCommand {
        available_power_w: f(power_w),
        requested_mass_flow_kg_s: f(flow_kg_s),
    }
}

fn assert_energy_balance(point: ElectricThrusterPoint) {
    let accounted_w =
        n(point.jet_kinetic_power_w) + n(point.exhaust_internal_power_w) + n(point.waste_heat_w);
    assert!(
        (n(point.electrical_power_w) - accounted_w).abs()
            <= 1e-10 * n(point.electrical_power_w).max(1.0),
        "input {} W != accounted {} W",
        n(point.electrical_power_w),
        accounted_w
    );
}

#[test]
fn gridded_ion_velocity_matches_accelerator_energy_and_power_balance() {
    let engine = base_spec(ElectricThrusterDesign::GriddedIon {
        accelerator_voltage_v: f(1_000.0),
        grid_diameter_m: f(0.4),
        grid_gap_m: f(0.002),
        max_beam_current_density_a_m2: f(100.0),
        propellant_utilization: f(0.95),
        accelerator_efficiency: f(0.9),
    })
    .compile(&Native)
    .expect("ion thruster compiles");
    let point = engine
        .operating_point(&Native, command(5_000.0, 1.0e-5))
        .expect("ion point");
    let expected_velocity = 0.95
        * (2.0 * n(elementary_charge_c()) * 1_000.0
            / (n(engine.propellant.properties().molar_mass_kg_mol) / n(avogadro_per_mol())))
            .sqrt();
    assert!((n(point.exhaust_velocity_mps) - expected_velocity).abs() / expected_velocity < 1e-12);
    assert!(n(point.thrust_n) > 0.0);
    assert!(n(point.jet_kinetic_power_w) <= n(point.electrical_power_w));
    assert!(n(point.waste_heat_w) <= n(point.radiator_capacity_w));
    assert_energy_balance(point);
    assert!(n(point.discharge_current_a) > 0.0);
    assert!(point.power_limited);
    let momentum = n(point.mass_flow_kg_s) * n(point.exhaust_velocity_mps);
    assert!((n(point.thrust_n) - momentum).abs() < 1e-12);
}

#[test]
fn hall_current_grid_and_radiator_limits_are_reported() {
    let engine = base_spec(ElectricThrusterDesign::HallEffect {
        accelerator_voltage_v: f(300.0),
        channel_inner_radius_m: f(0.025),
        channel_outer_radius_m: f(0.05),
        channel_length_m: f(0.04),
        magnetic_field_t: f(0.02),
        coil_current_density_a_m2: f(4.0e7),
        max_discharge_current_a: f(0.2),
        propellant_utilization: f(0.9),
        accelerator_efficiency: f(0.8),
    })
    .compile(&Native)
    .expect("Hall thruster compiles");
    let point = engine
        .operating_point(&Native, command(10_000.0, 1.0e-4))
        .expect("Hall point");
    assert!(point.current_limited);
    assert!(!point.thermal_limited);
    assert!(n(point.discharge_current_a) <= 0.2 + 1e-12);
    assert!(n(point.waste_heat_w) <= n(point.radiator_capacity_w) + 1e-8);
    assert_energy_balance(point);

    let mut thermally_limited_spec = base_spec(ElectricThrusterDesign::HallEffect {
        accelerator_voltage_v: f(300.0),
        channel_inner_radius_m: f(0.025),
        channel_outer_radius_m: f(0.05),
        channel_length_m: f(0.04),
        magnetic_field_t: f(0.02),
        coil_current_density_a_m2: f(4.0e7),
        max_discharge_current_a: f(0.2),
        propellant_utilization: f(0.9),
        accelerator_efficiency: f(0.8),
    });
    thermally_limited_spec.radiator_area_m2 = f(1.0e-6);
    let thermally_limited = thermally_limited_spec
        .compile(&Native)
        .expect("small radiator compiles");
    let point = thermally_limited
        .operating_point(&Native, command(10_000.0, 1.0e-4))
        .expect("thermally limited Hall point");
    assert!(point.thermal_limited);
    assert!(!point.current_limited);
    assert!(n(point.waste_heat_w) <= n(point.radiator_capacity_w) + 1e-8);
    assert_energy_balance(point);
}

#[test]
fn mpd_thrust_follows_self_field_current_squared_relation() {
    let engine = base_spec(ElectricThrusterDesign::Magnetoplasmadynamic {
        arc_voltage_v: f(100.0),
        cathode_radius_m: f(0.01),
        anode_radius_m: f(0.05),
        electrode_length_m: f(0.1),
        max_current_a: f(20.0),
        jet_power_efficiency: f(0.55),
    })
    .compile(&Native)
    .expect("MPD compiles");
    let point = engine
        .operating_point(&Native, command(5_000.0, 1.0e-4))
        .expect("MPD point");
    let maecker = n(vacuum_permeability_h_m()) / (4.0 * std::f64::consts::PI) * (5.0_f64).ln();
    assert!((n(point.thrust_n) - maecker * n(point.discharge_current_a).powi(2)).abs() < 1e-9);
    assert!(n(point.jet_kinetic_power_w) <= n(point.electrical_power_w));
    assert!(n(point.waste_heat_w) <= n(point.radiator_capacity_w) + 1e-8);
    assert_energy_balance(point);
}

#[test]
fn electrothermal_nozzle_uses_enthalpy_and_efficiency() {
    let engine = base_spec(ElectricThrusterDesign::Resistojet {
        chamber_radius_m: f(0.02),
        chamber_length_m: f(0.1),
        max_exhaust_temp_k: f(1_000.0),
        heater_efficiency: f(0.9),
        nozzle_efficiency: f(0.8),
    })
    .compile(&Native)
    .expect("resistojet compiles");
    let point = engine
        .operating_point(&Native, command(5_000.0, 1.0e-4))
        .expect("resistojet point");
    let cp = n(engine.propellant.specific_heat_j_kg_k());
    let expected_velocity = (2.0 * 0.8 * cp * (1_000.0 - n(engine.inlet_temperature_k))).sqrt();
    assert!((n(point.exhaust_velocity_mps) - expected_velocity).abs() / expected_velocity < 1e-12);
    assert!(n(point.thrust_n) > 0.0);
    assert!(n(point.waste_heat_w) <= n(point.radiator_capacity_w) + 1e-8);
    assert_energy_balance(point);
}

#[test]
fn arcjet_current_limit_and_invalid_commands_fail_closed() {
    let engine = base_spec(ElectricThrusterDesign::Arcjet {
        chamber_radius_m: f(0.02),
        chamber_length_m: f(0.1),
        max_exhaust_temp_k: f(2_500.0),
        arc_voltage_v: f(80.0),
        max_arc_current_a: f(0.01),
        heater_efficiency: f(0.8),
        nozzle_efficiency: f(0.75),
    })
    .compile(&Native)
    .expect("arcjet compiles");
    let point = engine
        .operating_point(&Native, command(10_000.0, 1.0e-4))
        .expect("arcjet point");
    assert!(point.current_limited);
    assert!(n(point.discharge_current_a) <= 0.01 + 1e-12);
    assert_energy_balance(point);
    assert!(engine.operating_point(&Native, command(f64::NAN, 1.0e-6)).is_err());
    assert!(engine.operating_point(&Native, command(1.0, -1.0)).is_err());
}

#[test]
fn thermodynamic_species_and_radiator_sizing_are_finite() {
    for propellant in [
        ElectricPropellant::Xenon,
        ElectricPropellant::Krypton,
        ElectricPropellant::Argon,
        ElectricPropellant::Iodine,
        ElectricPropellant::Nitrogen,
        ElectricPropellant::Hydrogen,
        ElectricPropellant::Ammonia,
        ElectricPropellant::Water,
    ] {
        assert!(n(propellant.specific_heat_j_kg_k()).is_finite());
        assert!(n(propellant.ionization_energy_j_kg()).is_finite());
    }
    let mut invalid = base_spec(ElectricThrusterDesign::Resistojet {
        chamber_radius_m: f(0.02),
        chamber_length_m: f(0.1),
        max_exhaust_temp_k: f(250.0),
        heater_efficiency: f(0.9),
        nozzle_efficiency: f(0.8),
    });
    assert!(invalid.clone().compile(&Native).is_err());
    invalid.radiator_temperature_k = f(2.0);
    assert!(invalid.compile(&Native).is_err());
}

fn assert_all_finite(point: ElectricThrusterPoint) {
    assert!(n(point.thrust_n).is_finite());
    assert!(n(point.exhaust_velocity_mps).is_finite());
    assert!(n(point.isp_s).is_finite());
    assert!(n(point.mass_flow_kg_s).is_finite());
    assert!(n(point.electrical_power_w).is_finite());
    assert!(n(point.jet_kinetic_power_w).is_finite());
    assert!(n(point.exhaust_internal_power_w).is_finite());
    assert!(n(point.waste_heat_w).is_finite());
    assert!(n(point.radiator_capacity_w).is_finite());
    assert!(n(point.discharge_current_a).is_finite());
}

fn mpd_spec(jet_power_efficiency: f64) -> ElectricThrusterSpec {
    base_spec(ElectricThrusterDesign::Magnetoplasmadynamic {
        arc_voltage_v: f(100.0),
        cathode_radius_m: f(0.01),
        anode_radius_m: f(0.05),
        electrode_length_m: f(0.1),
        max_current_a: f(20.0),
        jet_power_efficiency: f(jet_power_efficiency),
    })
}

#[test]
fn zero_efficiencies_fail_closed_at_compile_and_validation() {
    let gridded = |propellant_utilization: f64, accelerator_efficiency: f64| {
        base_spec(ElectricThrusterDesign::GriddedIon {
            accelerator_voltage_v: f(1_000.0),
            grid_diameter_m: f(0.4),
            grid_gap_m: f(0.002),
            max_beam_current_density_a_m2: f(100.0),
            propellant_utilization: f(propellant_utilization),
            accelerator_efficiency: f(accelerator_efficiency),
        })
    };
    assert!(gridded(0.0, 0.9).compile(&Native).is_err());
    assert!(gridded(0.95, 0.0).compile(&Native).is_err());

    let hall = |propellant_utilization: f64, accelerator_efficiency: f64| {
        base_spec(ElectricThrusterDesign::HallEffect {
            accelerator_voltage_v: f(300.0),
            channel_inner_radius_m: f(0.025),
            channel_outer_radius_m: f(0.05),
            channel_length_m: f(0.04),
            magnetic_field_t: f(0.02),
            coil_current_density_a_m2: f(4.0e7),
            max_discharge_current_a: f(0.2),
            propellant_utilization: f(propellant_utilization),
            accelerator_efficiency: f(accelerator_efficiency),
        })
    };
    assert!(hall(0.0, 0.8).compile(&Native).is_err());
    assert!(hall(0.9, 0.0).compile(&Native).is_err());

    assert!(mpd_spec(0.0).compile(&Native).is_err());
    assert!(mpd_spec(1.0).compile(&Native).is_ok());
}

#[test]
fn forged_engine_data_is_rejected_before_the_formulas() {
    let engine = mpd_spec(0.55).compile(&Native).expect("MPD compiles");
    // Hand-edited data: zero jet-power efficiency and a
    // non-finite rating must not reach the operating-point formulas.
    let ElectricThrusterDesign::Magnetoplasmadynamic {
        arc_voltage_v,
        cathode_radius_m,
        anode_radius_m,
        electrode_length_m,
        max_current_a,
        ..
    } = engine.design
    else {
        panic!("expected an MPD design");
    };
    let zero_efficiency = CompiledElectricThruster {
        design: ElectricThrusterDesign::Magnetoplasmadynamic {
            arc_voltage_v,
            cathode_radius_m,
            anode_radius_m,
            electrode_length_m,
            max_current_a,
            jet_power_efficiency: f(0.0),
        },
        ..engine
    };
    assert!(zero_efficiency.validate().is_err());
    assert!(
        zero_efficiency
            .operating_point(&Native, command(1_000.0, 1.0e-4))
            .is_err()
    );
    let non_finite = CompiledElectricThruster {
        maximum_power_w: f(f64::NAN),
        ..engine
    };
    assert!(non_finite.validate().is_err());
    assert!(
        non_finite
            .operating_point(&Native, command(1_000.0, 1.0e-4))
            .is_err()
    );
}

#[test]
fn infinite_design_numbers_fail_closed() {
    let ion = base_spec(ElectricThrusterDesign::GriddedIon {
        accelerator_voltage_v: f(1_000.0),
        grid_diameter_m: f(0.4),
        grid_gap_m: f(0.002),
        max_beam_current_density_a_m2: f(100.0),
        propellant_utilization: f(0.9),
        accelerator_efficiency: f(0.9),
    })
    .compile(&Native)
    .expect("ion compiles");
    assert!(ion.validate().is_ok());
    let infinite = f(f64::INFINITY);
    let edited = CompiledElectricThruster {
        design: ElectricThrusterDesign::GriddedIon {
            accelerator_voltage_v: infinite,
            grid_diameter_m: f(0.4),
            grid_gap_m: f(0.002),
            max_beam_current_density_a_m2: f(100.0),
            propellant_utilization: f(0.9),
            accelerator_efficiency: f(0.9),
        },
        ..ion
    };
    let refusal = "invalid engine spec: compiled electric thruster values must be finite";
    assert_eq!(edited.validate().expect_err("infinite voltage").message(), refusal);
    assert_eq!(
        edited.operating_point(&Native, command(1_000.0, 1.0e-6)).expect_err("infinite voltage").message(),
        refusal
    );
    let arc = mpd_spec(0.55).compile(&Native).expect("MPD compiles");
    let edited = CompiledElectricThruster {
        design: ElectricThrusterDesign::Magnetoplasmadynamic {
            arc_voltage_v: f(100.0),
            cathode_radius_m: f(0.01),
            anode_radius_m: f(0.05),
            electrode_length_m: f(0.1),
            max_current_a: infinite,
            jet_power_efficiency: f(0.55),
        },
        ..arc
    };
    assert_eq!(edited.validate().expect_err("infinite current").message(), refusal);
}

#[test]
fn mount_operating_point_validates_engine_and_mount_first() {
    let engine = base_spec(ElectricThrusterDesign::GriddedIon {
        accelerator_voltage_v: f(1_000.0),
        grid_diameter_m: f(0.4),
        grid_gap_m: f(0.002),
        max_beam_current_density_a_m2: f(100.0),
        propellant_utilization: f(0.95),
        accelerator_efficiency: f(0.9),
    })
    .compile(&Native)
    .expect("ion thruster compiles");
    let valid = ElectricThrusterMount {
        name: "aft-ion".into(),
        engine,
        position_body_m: v(0.0, 1.0, 0.0),
        thrust_axis_body: v(1.0, 0.0, 0.0),
    };
    assert!(valid.operating_point(&Native, command(5_000.0, 1.0e-5)).is_ok());
    // A forged non-unit axis previously reached the formulas unchecked.
    let bad_axis = ElectricThrusterMount {
        thrust_axis_body: v(1.0, 1.0, 0.0),
        ..valid.clone()
    };
    assert!(bad_axis.operating_point(&Native, command(5_000.0, 1.0e-5)).is_err());
    // A forged engine (zero ionization efficiency) fails closed too.
    let bad_engine = ElectricThrusterMount {
        engine: CompiledElectricThruster {
            ionization_efficiency: f(0.0),
            ..engine
        },
        ..valid
    };
    assert!(bad_engine.validate().is_err());
    let bad_point = bad_engine.operating_point(&Native, command(5_000.0, 1.0e-5));
    assert!(bad_point.is_err());
}

#[test]
fn mpd_typical_point_draws_exactly_voltage_times_current() {
    let engine = mpd_spec(0.55).compile(&Native).expect("MPD compiles");
    // Requested flow exceeds both the rated flow and the ionization
    // budget P / E_ion; the point must stay self-consistent anyway.
    let point = engine
        .operating_point(&Native, command(10_000.0, 1.0e-3))
        .expect("MPD typical point");
    assert_all_finite(point);
    assert!(n(point.thrust_n) > 0.0);
    assert!(n(point.discharge_current_a) > 0.0);
    assert!(n(point.discharge_current_a) <= 20.0 + 1e-9);
    let draw_w = 100.0 * n(point.discharge_current_a);
    assert!((n(point.electrical_power_w) - draw_w).abs() <= 1e-9 * draw_w);
    assert!(n(point.electrical_power_w) <= 10_000.0 + 1e-9);
    assert!(n(point.waste_heat_w) >= 0.0);
    assert!(n(point.waste_heat_w) <= n(point.radiator_capacity_w) + 1e-8);
    assert!(point.flow_limited);
    assert!(point.current_limited);
    assert_energy_balance(point);

    // Energy-limited inequality: kinetic power never exceeds the jet
    // efficiency of the power left after ionization.
    let ionization_power_w = n(point.mass_flow_kg_s) * n(engine.propellant.ionization_energy_j_kg())
        / n(engine.ionization_efficiency);
    assert!(
        n(point.jet_kinetic_power_w)
            <= 0.55 * (n(point.electrical_power_w) - ionization_power_w) + 1e-9,
        "jet power {} W exceeds the {} W jet budget",
        n(point.jet_kinetic_power_w),
        0.55 * (n(point.electrical_power_w) - ionization_power_w)
    );

    // Bus-power-limited branch: current below the current rating.
    let low_power = engine
        .operating_point(&Native, command(1_000.0, 1.0e-4))
        .expect("MPD low-power point");
    assert_all_finite(low_power);
    assert!(n(low_power.thrust_n) > 0.0);
    assert!(
        (n(low_power.electrical_power_w) - 100.0 * n(low_power.discharge_current_a)).abs() <= 1e-9
    );
    assert!(low_power.power_limited);
    assert!(!low_power.current_limited);
    assert!(n(low_power.waste_heat_w) >= 0.0);
    assert_energy_balance(low_power);
}

#[test]
fn mpd_starved_feed_reports_finite_idle_instead_of_nan() {
    let engine = mpd_spec(0.55).compile(&Native).expect("MPD compiles");
    // P / E_ion = 8.4e-6 kg/s < requested: ionization alone would eat
    // the whole budget, so there is no self-consistent drawing point.
    // The engine must report a finite idle, not a power-burning zero
    // thrust or NaN telemetry.
    let point = engine
        .operating_point(&Native, command(100.0, 1.0e-3))
        .expect("starved MPD point");
    assert_all_finite(point);
    assert_eq!(n(point.thrust_n), 0.0);
    assert_eq!(n(point.electrical_power_w), 0.0);
    assert_eq!(n(point.discharge_current_a), 0.0);
    assert!(point.power_limited);
    assert_energy_balance(point);

    // The same bus power with a moderate feed request still works.
    let fed = engine
        .operating_point(&Native, command(100.0, 1.0e-6))
        .expect("low-power MPD point");
    assert_all_finite(fed);
    assert!(n(fed.thrust_n) > 0.0);
    assert!((n(fed.electrical_power_w) - 100.0 * n(fed.discharge_current_a)).abs() <= 1e-9);
    assert!(n(fed.waste_heat_w) >= 0.0);
    assert_energy_balance(fed);
}

#[test]
fn electric_refusals_name_their_reason() {
    let resistojet = || {
        base_spec(ElectricThrusterDesign::Resistojet {
            chamber_radius_m: f(0.02),
            chamber_length_m: f(0.1),
            max_exhaust_temp_k: f(1_000.0),
            heater_efficiency: f(0.9),
            nozzle_efficiency: f(0.8),
        })
    };
    let message = |spec: ElectricThrusterSpec| match spec.compile(&Native) {
        Ok(_) => panic!("must be refused"),
        Err(error) => error.message(),
    };
    assert_eq!(
        message(ElectricThrusterSpec { name: "".into(), ..resistojet() }),
        "invalid engine spec: electric thruster name must not be empty"
    );
    assert_eq!(
        message(ElectricThrusterSpec { maximum_power_w: f(f64::INFINITY), ..resistojet() }),
        "invalid engine spec: electric thruster authoring values must be finite"
    );
    assert_eq!(
        message(ElectricThrusterSpec { ionization_efficiency: f(0.0), ..resistojet() }),
        "invalid engine spec: ionization efficiency must be in (0, 1]"
    );
    assert_eq!(
        message(base_spec(ElectricThrusterDesign::Resistojet {
            chamber_radius_m: f(0.02),
            chamber_length_m: f(0.1),
            max_exhaust_temp_k: f(250.0),
            heater_efficiency: f(0.9),
            nozzle_efficiency: f(0.8),
        })),
        "invalid engine spec: electrothermal exhaust temperature must exceed propellant inlet temperature"
    );
    let engine = resistojet().compile(&Native).expect("compiles");
    let error = engine.operating_point(&Native, command(-1.0, 0.0)).expect_err("power");
    assert_eq!(error.message(), "invalid engine command: available electric power must be finite and >= 0");
    let error = engine.operating_point(&Native, command(1.0, f64::NAN)).expect_err("flow");
    assert_eq!(error.message(), "invalid engine command: requested propellant flow must be finite and >= 0");
    let off = engine.operating_point(&Native, command(0.0, 1.0e-5)).expect("off");
    assert_eq!((n(off.thrust_n), n(off.electrical_power_w)), (0.0, 0.0));
}

#[test]
fn electric_sizing_follows_the_native_formulas() {
    let xenon = ElectricPropellant::Xenon.properties();
    assert_eq!(n(xenon.molar_mass_kg_mol), 0.131_293);
    let energy = 12.1298 * 1.602_176_634e-19 * 6.022_140_76e23 / 0.131_293;
    assert!((n(ElectricPropellant::Xenon.ionization_energy_j_kg()) - energy).abs() / energy < 1e-3);
    let engine = mpd_spec(0.55).compile(&Native).expect("MPD compiles");
    let capacity = 0.9 * 5.670_374_419e-8 * 10.0 * (700.0_f64.powi(4) - 2.725_f64.powi(4));
    assert_eq!(n(engine.radiator_heat_rejection_w), capacity);
    assert!(engine.validate().is_ok());
}
