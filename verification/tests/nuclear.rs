use propulsion::engine::CompiledEngine;
use propulsion::float::F64;
use propulsion::material::{ChamberMaterial, CoolingMode};
use propulsion::nozzle::NozzleContour;
use propulsion::nuclear::{ntr_default_startup_tau_s, ntr_inlet_temp_k, NtrFluid, NuclearThermalSpec};
use propulsion::numerics::Numerics;
use propulsion::propellant::Propellant;

/// The elementary functions of the machine that runs the tests.
struct Native;

impl Numerics for Native {
    fn powf(&self, x: F64, y: F64) -> F64 {
        f(n(x).powf(n(y)))
    }

    fn powi(&self, x: F64, k: i32) -> F64 {
        f(n(x).powi(k))
    }

    fn exp(&self, x: F64) -> F64 {
        f(n(x).exp())
    }

    fn ln(&self, x: F64) -> F64 {
        f(n(x).ln())
    }

    fn atan(&self, x: F64) -> F64 {
        f(n(x).atan())
    }

    fn cos(&self, x: F64) -> F64 {
        f(n(x).cos())
    }

    fn fixed(&self, x: F64, places: u32) -> String {
        format!("{:.*}", places as usize, n(x))
    }

    fn shortest(&self, x: F64) -> String {
        format!("{}", n(x))
    }
}

fn f(x: f64) -> F64 {
    F64::from_bits(x.to_bits())
}

fn n(x: F64) -> f64 {
    f64::from_bits(x.to_bits())
}

fn nerva_like() -> NuclearThermalSpec {
    NuclearThermalSpec {
        name: "NERVA class".into(),
        fluid: NtrFluid::Hydrogen,
        core_temp_k: f(2700.0),
        core_power_mw: f(1120.0),
        reactor_specific_mass_kg_per_mw: None,
        throat_radius_m: f(0.11),
        expansion_ratio: f(100.0),
        nozzle_length_m: f(2.0),
        contour: NozzleContour::Bell,
        material: ChamberMaterial::nickel_superalloy(),
        cooling: CoolingMode::Regenerative,
        gimbal_range_rad: f(0.05),
        startup_tau_s: None,
        min_throttle: None,
    }
}

#[test]
fn nerva_class_golden_data() {
    // A solid core at 2700 K and 1.1 GW: vacuum Isp in 750-950 s, thrust in
    // 150-350 kN, dry mass in 8-20 t.
    let (liquid, supplement) = nerva_like().compile(&Native).expect("nerva compiles");
    let engine = CompiledEngine::Liquid(liquid);
    let vac = engine.operating_point(&Native, f(1.0), f(0.0), f(0.0)).expect("vac");
    assert!((750.0..=950.0).contains(&n(vac.isp_s)), "NTR Isp {} s outside the band", n(vac.isp_s));
    assert!(
        (150_000.0..=350_000.0).contains(&n(vac.thrust_n)),
        "NTR thrust {} N outside the band",
        n(vac.thrust_n)
    );
    let mass = n(engine.dry_mass_kg());
    assert!((8_000.0..=20_000.0).contains(&mass), "NTR dry mass {mass:.0} kg outside the band");
    // The full thermal power heats the booked flow from inlet to core temperature.
    let cp = 1.30 * 4157.0 / 0.30;
    let balance = n(vac.mass_flow_kg_s) * cp * (2700.0 - n(ntr_inlet_temp_k()));
    assert!((balance - 1.12e9).abs() / 1.12e9 < 1e-9);
    // The compiled spool constant is the reactor tau.
    assert_eq!(supplement.startup_tau_s, ntr_default_startup_tau_s());
    assert_eq!(engine.spool_tau_s(), ntr_default_startup_tau_s());
    let (floor, _) = engine.throttle_range();
    assert!((n(floor) - 0.5).abs() < 1e-12);
    // Cooldown tail is positive and small.
    let burn_impulse = n(vac.thrust_n) * 3600.0;
    let tail = n(supplement.cooldown_impulse_ns(f(burn_impulse)));
    assert!(tail > 0.0 && tail < 0.1 * burn_impulse);
}

#[test]
fn hydrogen_beats_heavier_fluids() {
    for (fluid, label) in [(NtrFluid::Hydrogen, "H2"), (NtrFluid::Ammonia, "NH3")] {
        let spec = NuclearThermalSpec { fluid, core_power_mw: f(500.0), ..nerva_like() };
        let (liquid, _) = spec.compile(&Native).expect("compiles");
        let isp = n(CompiledEngine::Liquid(liquid)
            .operating_point(&Native, f(1.0), f(0.0), f(0.0))
            .expect("point")
            .isp_s);
        if label == "H2" {
            assert!(isp > 700.0, "H2 Isp {isp:.0} too low");
        } else {
            assert!(isp < 500.0, "NH3 Isp {isp:.0} too high");
        }
    }
}

#[test]
fn expander_cap_refuses_undersized_throat() {
    let spec = NuclearThermalSpec { throat_radius_m: f(0.02), ..nerva_like() };
    assert!(spec.compile(&Native).is_err());
    let hot = NuclearThermalSpec { core_temp_k: f(3500.0), ..nerva_like() };
    assert!(hot.compile(&Native).is_err());
}

#[test]
fn nuclear_refusals_name_their_reason() {
    let message = |spec: NuclearThermalSpec| match spec.compile(&Native) {
        Ok(_) => panic!("must be refused"),
        Err(error) => error.message(),
    };
    let narrow = message(NuclearThermalSpec { throat_radius_m: f(0.02), ..nerva_like() });
    assert!(narrow.starts_with("unsupported engine combination: expander feed cannot sustain "));
    assert!(narrow.ends_with(" MPa (cap 12.0 MPa): open the throat"));
    assert_eq!(
        message(NuclearThermalSpec { core_temp_k: f(3200.5), ..nerva_like() }),
        "invalid engine spec: solid-core fuel above 3200 K needs an explicit fuel design"
    );
    assert_eq!(
        message(NuclearThermalSpec { startup_tau_s: Some(f(0.0)), ..nerva_like() }),
        "invalid engine spec: startup tau must be finite and > 0"
    );
    assert_eq!(
        message(NuclearThermalSpec { reactor_specific_mass_kg_per_mw: Some(f(-1.0)), ..nerva_like() }),
        "invalid engine spec: reactor specific mass must be finite and > 0"
    );
    assert_eq!(
        message(NuclearThermalSpec { min_throttle: Some(f(f64::NAN)), ..nerva_like() }),
        "invalid engine spec: min throttle must be finite in [0, 1]"
    );
}

#[test]
fn fluids_map_to_tank_propellants() {
    assert_eq!(NtrFluid::Hydrogen.tank_propellant(), Propellant::LoxHydrogen);
    assert_eq!(NtrFluid::Methane.tank_propellant(), Propellant::LoxMethane);
    assert_eq!(NtrFluid::Ammonia.tank_propellant(), Propellant::NtoMmh);
    assert_eq!(NtrFluid::Water.tank_propellant(), Propellant::ColdGasNitrogen);
    let (gamma, gas, density) = NtrFluid::Water.properties();
    assert_eq!((n(gamma), n(gas), n(density)), (1.30, 462.0, 1000.0));
    let (_, supplement) = nerva_like().compile(&Native).expect("nerva compiles");
    assert_eq!(n(supplement.cooldown_impulse_ns(f(-1.0))), 0.0);
    assert_eq!(n(supplement.cooldown_impulse_ns(f(f64::INFINITY))), 0.0);
    assert_eq!(n(supplement.cooldown_impulse_ns(f(100.0))), 0.04 * 100.0);
}
