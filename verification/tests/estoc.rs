use propulsion::air::{
    air_cp_j_kg_k, combustor_efficiency, compressor_poly_efficiency, flight_condition, AirCycle, AirReference,
    AirbreathingSpec, FlightCondition, IntakeKind, JetFuel,
};
use propulsion::atmosphere::{AtmosphereComposition, AtmosphereSample, SampledAltitude};
use propulsion::estoc::{analyze_estoc, EstocEjectorSpec, EstocMode, EstocPrecoolerSpec, EstocSpec, EstocTransient};
use propulsion::float::F64;
use propulsion::jet::JetCommand;
use propulsion::material::ChamberMaterial;
use propulsion::numerics::Numerics;
use propulsion::shaft::{GeneratorSpec, JetShaftState, ShaftSpec, StarterSpec};

/// The elementary functions of the machine that runs the tests.
struct Native;

impl Numerics for Native {
    fn powf(&self, x: F64, y: F64) -> F64 {
        f(n(x).powf(n(y)))
    }

    fn powi(&self, x: F64, k: i32) -> F64 {
        f(n(x).powi(k))
    }

    fn exp(&self, x: F64) -> F64 {
        f(n(x).exp())
    }

    fn ln(&self, x: F64) -> F64 {
        f(n(x).ln())
    }

    fn atan(&self, x: F64) -> F64 {
        f(n(x).atan())
    }

    fn cos(&self, x: F64) -> F64 {
        f(n(x).cos())
    }

    fn fixed(&self, x: F64, places: u32) -> String {
        format!("{:.*}", places as usize, n(x))
    }

    fn shortest(&self, x: F64) -> String {
        format!("{}", n(x))
    }
}

fn f(x: f64) -> F64 {
    F64::from_bits(x.to_bits())
}

fn n(x: F64) -> f64 {
    f64::from_bits(x.to_bits())
}

fn plain_shaft() -> ShaftSpec {
    ShaftSpec {
        starter: StarterSpec { power_w: f(0.0), charge_j: f(0.0), mass_kg: f(0.0) },
        generator: GeneratorSpec { mass_kg: f(0.0) },
        light_off_n: f(0.15),
        power_turbine_heat_fraction: f(0.0),
        turbine_heat_fraction: f(0.5),
        friction_fraction: f(0.02),
    }
}

fn mixture(gas_constant: f64, oxygen_mass_fraction: f64) -> AtmosphereComposition {
    AtmosphereComposition {
        gas_constant_j_kg_k: f(gas_constant),
        mean_heat_capacity_ratio: f(1.4),
        oxygen_mass_fraction: f(oxygen_mass_fraction),
        sane: true,
    }
}

fn earth_air() -> AtmosphereComposition {
    mixture(287.05, 0.2314)
}

fn sample(altitude_m: f64) -> AtmosphereSample {
    // Rows of the 1976 standard atmosphere.
    let (pressure_pa, temperature_k, speed_of_sound_mps) = match altitude_m as u32 {
        0 => (101_325.0, 288.15, 340.294),
        11_000 => (22_632.1, 216.65, 295.069),
        _ => (5_474.89, 216.65, 295.069),
    };
    AtmosphereSample {
        pressure_pa: f(pressure_pa),
        temperature_k: f(temperature_k),
        speed_of_sound_mps: f(speed_of_sound_mps),
        composition: earth_air(),
    }
}

fn reference() -> AirReference {
    AirReference {
        earth_air: earth_air(),
        scramjet_sample: Ok(sample(20_000.0)),
        scramjet_mach: Some(f(6.0)),
        shaft_verdict: Ok(()),
    }
}

fn estoc_like() -> EstocSpec {
    EstocSpec {
        name: "ESTOC-1".into(),
        air: AirbreathingSpec {
            name: "estoc-air".into(),
            cycle: AirCycle::Turbojet,
            fuel: JetFuel::Kerosene,
            intake_area_m2: f(0.9),
            intake: IntakeKind::Pitot,
            compressor_ratio: f(12.0),
            bypass_ratio: f(0.0),
            fan_pressure_ratio: f(1.0),
            turbine_inlet_temp_k: f(1500.0),
            afterburner: false,
            reheat_temp_k: f(0.0),
            turbine_material: ChamberMaterial::nickel_superalloy(),
            spool_tau_s: f(5.0),
            shaft: plain_shaft(),
        },
        bulk_fuel: None,
        boost_coolant_fuel: None,
        precooler: None,
        ejector: None,
        rocket_chamber_pressure_pa: f(7.0e6),
        rocket_throat_radius_m: f(0.09),
        oxidizer_fuel_ratio: None,
        switch_mach_hi: None,
        switch_mach_lo: None,
        transition_tau_s: None,
    }
}

fn precooled_estoc() -> EstocSpec {
    let mut spec = estoc_like();
    spec.air.intake_area_m2 = f(0.05);
    spec.air.compressor_ratio = f(1.5);
    spec.bulk_fuel = Some(JetFuel::Methane);
    spec.boost_coolant_fuel = Some(JetFuel::Hydrogen);
    spec.precooler = Some(EstocPrecoolerSpec {
        maximum_heat_flow_w: f(20.0e6),
        effectiveness: f(0.85),
        maximum_compressor_inlet_temp_k: f(500.0),
        pressure_recovery: f(0.98),
        wall_mass_kg: f(500.0),
        wall_specific_heat_j_kg_k: f(1_000.0),
        wall_initial_temp_k: f(300.0),
        wall_max_temp_k: f(800.0),
        coolant_inlet_temp_k: f(20.0),
        coolant_max_outlet_temp_k: f(400.0),
        coolant_specific_heat_j_kg_k: f(14_000.0),
        maximum_coolant_flow_kg_s: f(0.1),
    });
    spec.ejector = Some(EstocEjectorSpec {
        capture_area_m2: f(0.06),
        mixing_length_m: f(2.0),
        mixing_efficiency: f(0.95),
        structure_density_kg_m3: f(2_700.0),
        wall_thickness_m: f(0.005),
    });
    spec
}

fn condition_at(mach: f64, ambient_pa: f64) -> FlightCondition {
    let temp = 288.15;
    let a = (1.4_f64 * 287.0 * temp).sqrt();
    FlightCondition {
        mach: f(mach),
        ambient_pa: f(ambient_pa),
        ambient_temp_k: f(temp),
        airspeed_mps: f(mach * a),
        composition: earth_air(),
    }
}

#[test]
fn shared_nozzle_and_mass_book_once() {
    // Rocket expansion follows from the shared exit (no independent
    // nozzle); dry mass is air plus a small rocket-side extra, never
    // two full engines.
    let engine = estoc_like().compile(&Native, &reference()).expect("estoc compiles");
    assert!(n(engine.rocket_expansion_ratio) >= 1.0);
    let extra_fraction = n(engine.rocket_extra_mass_kg) / n(engine.air.dry_mass_kg);
    assert!(
        (0.03..=0.20).contains(&extra_fraction),
        "rocket extra {extra_fraction:.3} outside the hardware band"
    );
    assert!(
        (n(engine.dry_mass_kg) - n(engine.air.dry_mass_kg) - n(engine.rocket_extra_mass_kg)).abs()
            < 1e-9
    );
    assert!(n(engine.feed_pressure_required_pa) > 0.0);
}

#[test]
fn mode_discipline_with_hysteresis() {
    // Solved inlet/drive envelope selects modes; Mach hysteresis only
    // delays a rocket-to-air return while the air path is viable.
    let engine = EstocSpec {
        air: AirbreathingSpec {
            compressor_ratio: f(1.5),
            ..estoc_like().air
        },
        ..estoc_like()
    }
    .compile(&Native, &reference())
    .expect("estoc compiles");
    let low_condition = condition_at(1.5, 101_325.0);
    let air_low = engine
        .air
        .operating_point(&Native, &low_condition, f(1.0))
        .expect("air point");
    assert_eq!(
        engine.select_mode(&low_condition, &air_low, EstocMode::Air, None),
        EstocMode::Air
    );
    let high_condition = condition_at(4.5, 1000.0);
    let air_high = engine
        .air
        .operating_point(&Native, &high_condition, f(1.0))
        .expect("high-Mach air point");
    assert_eq!(
        engine.select_mode(&high_condition, &air_high, EstocMode::Air, None),
        EstocMode::Rocket
    );
    assert_eq!(
        engine.select_mode(&condition_at(0.0, 0.0), &air_low, EstocMode::Air, None),
        EstocMode::Rocket
    );
    // Inside the band the last mode holds.
    let band_condition = condition_at(3.3, 5000.0);
    let air_band = engine
        .air
        .operating_point(&Native, &band_condition, f(1.0))
        .expect("band air point");
    assert!(air_band.lit && !air_band.drive_limited && n(air_band.thrust_n) > 0.0);
    assert_eq!(
        engine.select_mode(&band_condition, &air_band, EstocMode::Rocket, None),
        EstocMode::Rocket
    );
    assert_eq!(
        engine.select_mode(&band_condition, &air_band, EstocMode::Air, None),
        EstocMode::Air
    );
    assert_eq!(
        engine.select_mode(
            &high_condition,
            &air_high,
            EstocMode::Rocket,
            Some(EstocMode::Air)
        ),
        EstocMode::Air
    );

    let policy_engine = EstocSpec {
        air: AirbreathingSpec {
            compressor_ratio: f(1.5),
            ..estoc_like().air
        },
        switch_mach_hi: Some(f(2.4)),
        switch_mach_lo: Some(f(2.0)),
        ..estoc_like()
    }
    .compile(&Native, &reference())
    .expect("policy-band ESTOC");
    let policy_condition = condition_at(2.5, 101_325.0);
    let policy_air_point = policy_engine
        .air
        .operating_point(&Native, &policy_condition, f(1.0))
        .expect("viable point above policy threshold");
    assert!(policy_air_point.lit && !policy_air_point.drive_limited);
    assert_eq!(
        policy_engine.select_mode(&policy_condition, &policy_air_point, EstocMode::Air, None,),
        EstocMode::Rocket
    );
}

#[test]
fn precooler_separates_bulk_and_warmed_boost_fuel_and_advances_wall_state() {
    let engine = precooled_estoc().compile(&Native, &reference()).expect("precooled ESTOC compiles");
    assert_eq!(engine.bulk_fuel, JetFuel::Methane);
    assert_eq!(engine.boost_coolant_fuel, Some(JetFuel::Hydrogen));
    let mut condition = condition_at(2.0, 101_325.0);
    condition.composition = earth_air();
    let (point, state) = engine
        .operating_point(&Native, &condition,
            f(1.0),
            None,
            EstocMode::Air,
            None,
            f(1.0),
            JetShaftState::running(&engine.air),
        )
        .expect("precooled point");
    assert_eq!(point.mode, EstocMode::Air);
    assert!(n(point.thrust_n) > 0.0);
    assert!(n(point.precooler_heat_flow_w) > 0.0);
    assert!(n(point.boost_fuel_flow_kg_s) > 0.0);
    assert!(n(point.bulk_fuel_flow_kg_s) > 0.0);
    assert!(
        (n(point.fuel_flow_kg_s) - n(point.bulk_fuel_flow_kg_s) - n(point.boost_fuel_flow_kg_s)).abs()
            < 1e-12
    );
    assert!(n(point.compressor_inlet_total_temp_k) < 519.0);
    assert!(n(point.precooler_heat_flow_w) <= n(engine.precooler.unwrap().maximum_heat_flow_w));
    assert!(n(state.coolant_outlet_temp_k) <= 400.0 + 1e-9);
    let compressor_tau = 1.5f64.powf((1.4 - 1.0) / (1.4 * n(compressor_poly_efficiency())));
    let compressor_exit_k = n(point.compressor_inlet_total_temp_k) * compressor_tau;
    let recovered_coolant_heat_w =
        n(point.precooler_heat_flow_w) - n(point.precooler_wall_heat_flow_w);
    let fuel_heat_w = (n(point.bulk_fuel_flow_kg_s) * n(JetFuel::Methane.properties().0)
        + n(point.boost_fuel_flow_kg_s) * n(JetFuel::Hydrogen.properties().0))
        * n(combustor_efficiency());
    let expected_combustor_heat_w =
        n(point.air_flow_kg_s) * n(air_cp_j_kg_k()) * (1_500.0 - compressor_exit_k);
    assert!(
        ((fuel_heat_w + recovered_coolant_heat_w) - expected_combustor_heat_w).abs()
            <= 1e-8 * expected_combustor_heat_w.abs().max(1.0)
    );

    let mut wall_only = precooled_estoc();
    wall_only.boost_coolant_fuel = None;
    wall_only.air.compressor_ratio = f(1.2);
    let wall_engine = wall_only.compile(&Native, &reference()).expect("wall-store ESTOC");
    let hot_condition = condition_at(4.5, 10_000.0);
    let (hot_point, hot_state) = wall_engine
        .operating_point(&Native, &hot_condition,
            f(1.0),
            Some(EstocMode::Air),
            EstocMode::Air,
            None,
            f(100.0),
            JetShaftState::running(&wall_engine.air),
        )
        .expect("wall-limited hot point");
    assert!(hot_point.precooler_saturated);
    assert!(n(hot_state.precooler_wall_temp_k) <= n(wall_engine.precooler.unwrap().wall_max_temp_k));
    let wall_capacity_j_k = n(wall_engine.precooler.unwrap().wall_mass_kg)
        * n(wall_engine.precooler.unwrap().wall_specific_heat_j_kg_k);
    let expected_wall_temp_k = n(wall_engine.precooler.unwrap().wall_initial_temp_k)
        + n(hot_point.precooler_wall_heat_flow_w) * 100.0 / wall_capacity_j_k;
    assert!((n(hot_state.precooler_wall_temp_k) - expected_wall_temp_k).abs() < 1e-9);

    let (automatic, _) = wall_engine
        .operating_point(&Native, &hot_condition,
            f(1.0),
            None,
            EstocMode::Air,
            Some(hot_state),
            f(100.0),
            JetShaftState::running(&wall_engine.air),
        )
        .expect("automatic thermal fallback");
    assert_eq!(automatic.mode, EstocMode::Rocket);
}

#[test]
fn precooler_work_enters_the_conditioned_shaft_balance() {
    let mut cooled_spec = precooled_estoc();
    let cooled = cooled_spec.compile(&Native, &reference()).expect("cooled ESTOC");
    cooled_spec.precooler = None;
    cooled_spec.boost_coolant_fuel = None;
    let uncooled = cooled_spec.compile(&Native, &reference()).expect("uncooled ESTOC");
    let shaft = JetShaftState { spool_n: f(0.5), ..JetShaftState::running(&cooled.air) };
    let condition = condition_at(2.0, 101_325.0);
    let with = cooled
        .conditioned_air_point(&Native, &condition, f(1.0), shaft, None, f(0.1))
        .expect("cooled balance");
    let without = uncooled
        .conditioned_air_point(&Native, &condition, f(1.0), shaft, None, f(0.1))
        .expect("uncooled balance");
    assert!(n(with.balance.net_w()) > n(without.balance.net_w()));
}

#[test]
fn estoc_analyzer_reports_the_selected_steady_mode_and_thermal_point() {
    let engine = precooled_estoc().compile(&Native, &reference()).expect("precooled ESTOC");
    let air = sample(0.0);
    let condition = flight_condition(&air, f(0.0), Some(f(0.0))).expect("condition");
    let (expected, _) = engine
        .operating_point(&Native, &condition,
            f(1.0),
            None,
            EstocMode::Air,
            None,
            f(f64::INFINITY),
            JetShaftState::running(&engine.air),
        )
        .expect("steady ESTOC point");
    let altitudes = vec![SampledAltitude { altitude_m: f(0.0), sample: Ok(air), solved_machs: vec![Some(f(0.0))] }];
    let rows = analyze_estoc(&Native, &engine, &altitudes, &vec![f(0.0)], f(1.0)).expect("ESTOC analyzer");
    assert_eq!(rows.len(), 1);
    assert_eq!(rows[0].mode, expected.mode);
    assert_eq!(rows[0].thrust_n, expected.thrust_n);
    assert_eq!(rows[0].precooler_heat_flow_w, expected.precooler_heat_flow_w);
    assert!(analyze_estoc(&Native, &engine, &Vec::new(), &vec![f(0.0)], f(1.0)).is_err());
}

#[test]
fn anoxic_ejector_uses_captured_air_as_reaction_mass_with_rocket_propellant() {
    let engine = precooled_estoc().compile(&Native, &reference()).expect("precooled ESTOC compiles");
    let mut condition = condition_at(2.0, 101_325.0);
    condition.composition = mixture(296.8, 0.0);
    let (point, _) = engine
        .operating_point(&Native, &condition,
            f(1.0),
            None,
            EstocMode::Air,
            None,
            f(1.0),
            JetShaftState::running(&engine.air),
        )
        .expect("anoxic ejector point");
    let rocket = engine
        .rocket_point(&Native, f(1.0), condition.ambient_pa);
    assert_eq!(point.mode, EstocMode::Ejector);
    assert!(n(point.air_flow_kg_s) > 0.0);
    assert!(n(point.thrust_n) > n(rocket.thrust_n));
    assert!(
        (n(point.oxidizer_flow_kg_s) / n(point.bulk_fuel_flow_kg_s) - n(engine.oxidizer_fuel_ratio))
            .abs()
            < 1e-9
    );

    condition.airspeed_mps = f(0.0);
    condition.mach = f(0.0);
    let (no_capture, _) = engine
        .operating_point(&Native, &condition,
            f(1.0),
            None,
            EstocMode::Air,
            None,
            f(1.0),
            JetShaftState::running(&engine.air),
        )
        .expect("ejector falls back without captured flow");
    assert_eq!(no_capture.mode, EstocMode::Rocket);
    assert_eq!(n(no_capture.air_flow_kg_s), 0.0);
}

#[test]
fn estoc_v6_rejects_unmatched_coolant_and_ejector_inputs() {
    let mut no_cooler = precooled_estoc();
    no_cooler.precooler = None;
    assert!(no_cooler.compile(&Native, &reference()).is_err());
    let mut impossible_coolant = precooled_estoc();
    impossible_coolant
        .precooler
        .as_mut()
        .unwrap()
        .wall_initial_temp_k = f(900.0);
    assert!(impossible_coolant.compile(&Native, &reference()).is_err());
    let mut bad_ejector = precooled_estoc();
    bad_ejector.ejector.as_mut().unwrap().mixing_efficiency = f(1.1);
    assert!(bad_ejector.compile(&Native, &reference()).is_err());
    let mut bad_upper_only = precooled_estoc();
    bad_upper_only.switch_mach_hi = Some(f(2.0));
    assert!(bad_upper_only.compile(&Native, &reference()).is_err());
    let mut bad_lower_only = precooled_estoc();
    bad_lower_only.switch_mach_lo = Some(f(4.0));
    assert!(bad_lower_only.compile(&Native, &reference()).is_err());
    let mut overflowing_capacity = precooled_estoc();
    overflowing_capacity
        .precooler
        .as_mut()
        .unwrap()
        .wall_mass_kg = f(f64::MAX);
    overflowing_capacity
        .precooler
        .as_mut()
        .unwrap()
        .wall_specific_heat_j_kg_k = f(f64::MAX);
    assert!(overflowing_capacity.compile(&Native, &reference()).is_err());
}

#[test]
fn rocket_works_where_air_cannot() {
    // Vacuum rocket thrust is positive with modest shared-nozzle Isp;
    // at Mach 2 sea level air Isp dwarfs rocket Isp.
    let engine = estoc_like().compile(&Native, &reference()).expect("estoc compiles");
    let vac = engine.rocket_point(&Native, f(1.0), f(0.0));
    assert!(n(vac.thrust_n) > 0.0);
    assert!(
        (200.0..=350.0).contains(&n(vac.isp_total_s)),
        "shared-nozzle rocket Isp {:.0} s outside the band",
        n(vac.isp_total_s)
    );
    let air_m2 = engine
        .operating_point(&Native, &condition_at(2.0, 101_325.0),
            f(1.0),
            None,
            EstocMode::Air,
            None,
            f(1.0),
            JetShaftState::running(&engine.air),
        )
        .expect("air");
    assert_eq!(air_m2.0.mode, EstocMode::Air);
    let rocket_m2 = engine.rocket_point(&Native, f(1.0), f(101_325.0));
    assert!(n(air_m2.0.isp_total_s) > 3.0 * n(rocket_m2.isp_total_s));
    // Oxidizer/fuel split respects the OF ratio.
    assert!(
        (n(vac.oxidizer_flow_kg_s) / n(vac.fuel_flow_kg_s) - n(engine.oxidizer_fuel_ratio)).abs()
            / n(engine.oxidizer_fuel_ratio)
            < 1e-9
    );
}

#[test]
fn transition_evolves_consistent_state() {
    // Fresh evaluation hits the target exactly; a threaded transient
    // approaches it first-order across EVERY channel (not just
    // thrust), and the reported Isp always equals F/(mdot*g0) on the
    // smoothed snapshot - bookkeeping can never break mid-transition.
    // Long dt converges to the direct target.
    let engine = estoc_like().compile(&Native, &reference()).expect("estoc compiles");
    let condition = condition_at(4.0, 2000.0);
    let (fresh, fresh_state) = engine
        .operating_point(&Native, &condition,
            f(1.0),
            None,
            EstocMode::Rocket,
            None,
            f(0.0),
            JetShaftState::running(&engine.air),
        )
        .expect("fresh");
    assert_eq!(fresh.mode, EstocMode::Rocket);
    let (direct, _) = engine
        .operating_point(&Native, &condition,
            f(1.0),
            Some(EstocMode::Rocket),
            EstocMode::Rocket,
            None,
            f(0.0),
            JetShaftState::running(&engine.air),
        )
        .expect("direct");
    assert!((n(fresh.thrust_n) - n(direct.thrust_n)).abs() / n(direct.thrust_n) < 1e-12);
    // One tau from a cold snapshot: every channel partway, Isp exact.
    let cold = EstocTransient {
        thrust_n: f(50_000.0),
        fuel_flow_kg_s: f(5.0),
        bulk_fuel_flow_kg_s: f(5.0),
        boost_fuel_flow_kg_s: f(0.0),
        oxidizer_flow_kg_s: f(0.0),
        air_flow_kg_s: f(100.0),
        exhaust_temp_k: f(800.0),
        exhaust_velocity_mps: f(600.0),
        exit_pressure_pa: f(50_000.0),
        exit_mach: f(1.0),
        compressor_inlet_total_temp_k: f(300.0),
        precooler_heat_flow_w: f(0.0),
        precooler_wall_heat_flow_w: f(0.0),
        precooler_wall_temp_k: f(0.0),
        coolant_outlet_temp_k: f(0.0),
    };
    let (mid, mid_state) = engine
        .operating_point(&Native, &condition,
            f(1.0),
            None,
            EstocMode::Air,
            Some(cold),
            engine.transition_tau_s,
            JetShaftState::running(&engine.air),
        )
        .expect("mid");
    assert_eq!(mid.mode, EstocMode::Rocket);
    let alpha = 1.0 - (-1.0f64).exp();
    assert!(
        (n(mid.thrust_n) - (50_000.0 + (n(direct.thrust_n) - 50_000.0) * alpha)).abs()
            / n(direct.thrust_n)
            < 1e-9
    );
    assert!(
        (n(mid.fuel_flow_kg_s) - (5.0 + (n(direct.fuel_flow_kg_s) - 5.0) * alpha)).abs()
            / n(direct.fuel_flow_kg_s).max(1e-9)
            < 1e-9
    );
    let propellant = n(mid.fuel_flow_kg_s) + n(mid.oxidizer_flow_kg_s);
    assert!(
        (n(mid.isp_total_s) - n(mid.thrust_n) / (propellant * 9.80665)).abs() / n(mid.isp_total_s)
            < 1e-12
    );
    // Converged: thread the snapshot until it lands on the target.
    let mut state = mid_state;
    let mut mode = mid.mode;
    for _ in 0..200 {
        let (point, next) = engine
            .operating_point(&Native, &condition,
                f(1.0),
                None,
                mode,
                Some(state),
                engine.transition_tau_s,
                JetShaftState::running(&engine.air),
            )
            .expect("converge");
        mode = point.mode;
        state = next;
    }
    assert!((n(state.thrust_n) - n(direct.thrust_n)).abs() / n(direct.thrust_n) < 1e-6);
    assert_eq!(mode, EstocMode::Rocket);
    let _ = fresh_state;
}

#[test]
fn fresh_command_evaluates_estoc_target() {
    // A fresh command has no previous snapshot, so the target is
    // returned directly.
    let engine = estoc_like().compile(&Native, &reference()).expect("estoc compiles");
    let command = JetCommand::fresh();
    assert!(n(command.dt_s).is_finite());
    let (point, _) = engine
        .operating_point(&Native, &condition_at(4.0, 2000.0),
            f(1.0),
            command.manual,
            command.last_mode,
            command.prev,
            command.dt_s,
            command.shaft,
        )
        .expect("fresh command evaluates");
    assert_eq!(point.mode, EstocMode::Rocket);
    assert!(n(point.thrust_n) > 0.0);
}

#[test]
fn manual_air_in_vacuum_flames_out_cleanly() {
    // Contract: manual selection always wins - including a manual Air
    // in vacuum, which is honored and flames out (zero thrust, cause
    // flags) rather than silently switching to rocket.
    let engine = estoc_like().compile(&Native, &reference()).expect("estoc compiles");
    let vacuum = condition_at(0.0, 0.0);
    let (point, _) = engine
        .operating_point(&Native, &vacuum,
            f(1.0),
            Some(EstocMode::Air),
            EstocMode::Air,
            None,
            f(0.0),
            JetShaftState::running(&engine.air),
        )
        .expect("manual air");
    assert_eq!(point.mode, EstocMode::Air);
    assert_eq!(n(point.thrust_n), 0.0);
    assert_eq!(n(point.fuel_flow_kg_s), 0.0);
}

#[test]
fn estoc_validation_refuses_garbage() {
    // Oversized rocket throat (expansion < 1), over-cap Pc, and a
    // ramjet air path are all refused with reasons.
    let big_throat = EstocSpec {
        rocket_throat_radius_m: f(2.0),
        ..estoc_like()
    };
    assert!(big_throat.compile(&Native, &reference()).is_err());
    let hot_pc = EstocSpec {
        rocket_chamber_pressure_pa: f(100.0e6),
        ..estoc_like()
    };
    assert!(hot_pc.compile(&Native, &reference()).is_err());
    let ram_air = EstocSpec {
        air: AirbreathingSpec {
            cycle: AirCycle::Ramjet,
            compressor_ratio: f(1.0),
            ..estoc_like().air
        },
        ..estoc_like()
    };
    assert!(ram_air.compile(&Native, &reference()).is_err());
}
#[test]
fn estoc_refusals_name_their_reason() {
    let message = |spec: EstocSpec| match spec.compile(&Native, &reference()) {
        Ok(_) => panic!("must be refused"),
        Err(error) => error.message(),
    };
    assert_eq!(
        message(EstocSpec { rocket_throat_radius_m: f(2.0), ..estoc_like() }),
        "unsupported engine combination: rocket throat exceeds the shared nozzle exit; shrink the throat"
    );
    assert_eq!(
        message(EstocSpec { name: "".into(), ..estoc_like() }),
        "invalid engine spec: engine name must not be empty"
    );
    let engine = estoc_like().compile(&Native, &reference()).expect("estoc compiles");
    let error = engine.ejector_point(&Native, f(1.0), &condition_at(2.0, 101_325.0)).expect_err("no ejector");
    assert_eq!(error.message(), "invalid engine command: ESTOC ejector mode is not installed");
    let error = engine
        .operating_point(
            &Native,
            &condition_at(1.0, 101_325.0),
            f(2.0),
            None,
            EstocMode::Air,
            None,
            f(0.0),
            JetShaftState::running(&engine.air),
        )
        .expect_err("throttle");
    assert_eq!(error.message(), "invalid engine command: throttle must be finite in [0, 1]");
    assert!(engine.is_ordered());
}

#[test]
fn at_rest_an_engine_never_asks_for_its_wall() {
    let mut engine = precooled_estoc().compile(&Native, &reference()).expect("compiles");
    let mut precooler = engine.precooler.expect("fitted");
    precooler.wall_initial_temp_k = f(900.0);
    engine.precooler = Some(precooler);
    assert!(!engine.is_ordered());
    let condition = FlightCondition {
        mach: f(0.5),
        ambient_pa: f(50_000.0),
        ambient_temp_k: f(250.0),
        airspeed_mps: f(158.0),
        composition: earth_air(),
    };
    let shaft = JetShaftState::running(&engine.air);
    let (rest, _) = engine
        .operating_point(&Native, &condition, f(0.0), None, EstocMode::Rocket, None, f(1.0), shaft)
        .expect("at rest");
    assert_eq!((rest.mode, n(rest.thrust_n), n(rest.fuel_flow_kg_s)), (EstocMode::Rocket, 0.0, 0.0));
    assert!(engine.operating_point(&Native, &condition, f(2.0), None, EstocMode::Air, None, f(1.0), shaft).is_err());
}
