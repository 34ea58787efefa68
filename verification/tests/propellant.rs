use propulsion::cycle::EngineCycle;
use propulsion::float::F64;
use propulsion::material::{ChamberMaterial, CoolingMode};
use propulsion::nozzle::characteristic_velocity;
use propulsion::numerics::Numerics;
use propulsion::propellant::{FluidThermo, Propellant, PropellantThermo};

/// The elementary functions of the machine that runs the tests.
struct Native;

impl Numerics for Native {
    fn powf(&self, x: F64, y: F64) -> F64 {
        f(n(x).powf(n(y)))
    }

    fn powi(&self, x: F64, k: i32) -> F64 {
        f(n(x).powi(k))
    }

    fn exp(&self, x: F64) -> F64 {
        f(n(x).exp())
    }

    fn ln(&self, x: F64) -> F64 {
        f(n(x).ln())
    }

    fn atan(&self, x: F64) -> F64 {
        f(n(x).atan())
    }

    fn cos(&self, x: F64) -> F64 {
        f(n(x).cos())
    }

    fn fixed(&self, x: F64, places: u32) -> String {
        format!("{:.*}", places as usize, n(x))
    }

    fn shortest(&self, x: F64) -> String {
        format!("{}", n(x))
    }
}

fn f(x: f64) -> F64 {
    F64::from_bits(x.to_bits())
}

fn n(x: F64) -> f64 {
    f64::from_bits(x.to_bits())
}

/// Thermo of the reaction-control fluids.
fn fluids() -> FluidThermo {
    let row = |gamma: f64, temp: f64, gas: f64, density: f64, length: f64, c_star: f64| PropellantThermo {
        gamma: f(gamma),
        chamber_temp_k: f(temp),
        gas_constant_j_kg_k: f(gas),
        bulk_density_kg_m3: f(density),
        characteristic_length_m: f(length),
        reference_c_star_mps: f(c_star),
    };
    FluidThermo {
        hydrazine: row(1.27, 1150.0, 640.0, 1010.0, 0.6, 1300.0),
        nitrogen: row(1.4, 300.0, 296.8, 280.0, 0.0, 434.0),
        helium: row(1.667, 300.0, 2077.0, 40.0, 0.0, 1090.0),
    }
}

fn published_c_star() {
    // The tabulated thermo against Sutton-typical published c*.
    for propellant in [
        Propellant::LoxRp1,
        Propellant::LoxMethane,
        Propellant::LoxHydrogen,
        Propellant::NtoMmh,
        Propellant::SolidApcp,
    ] {
        let thermo = propellant.thermo();
        let c_star = n(characteristic_velocity(&Native, &thermo));
        let published = n(thermo.reference_c_star_mps);
        let error = (c_star - published).abs() / published;
        assert!(error < 0.04, "{propellant:?}: c* {c_star:.0} vs published {published:.0}");
    }
}

#[test]
fn propulsion_c_star_matches_published_values() {
    published_c_star();
}

#[test]
fn propellant_c_star_matches_published_values() {
    published_c_star();
}

#[test]
fn mixture_reference_thermo_is_exact() {
    // The middle table row is the reference point exactly.
    for propellant in [Propellant::LoxRp1, Propellant::LoxMethane, Propellant::LoxHydrogen, Propellant::NtoMmh] {
        let reference = propellant.reference_mixture_ratio().expect("ref ratio");
        let at_ref = propellant
            .thermo_at_mixture(&Native, &fluids(), Some(reference))
            .expect("reference ratio compiles");
        assert_eq!(at_ref, propellant.thermo());
    }
    // Outside the table and on solids: refusal, not extrapolation.
    assert!(Propellant::LoxHydrogen.thermo_at_mixture(&Native, &fluids(), Some(f(9.0))).is_err());
    assert!(Propellant::SolidApcp.thermo_at_mixture(&Native, &fluids(), Some(f(1.0))).is_err());
}

#[test]
fn mixture_interpolates_between_rows() {
    let thermo = Propellant::NtoMmh.thermo_at_mixture(&Native, &fluids(), Some(f(1.8))).expect("in range");
    let fraction = (1.8 - 1.65) / (2.0_f64 - 1.65).max(1e-12);
    assert_eq!(n(thermo.gamma), 1.25 + (1.24 - 1.25) * fraction);
    assert_eq!(n(thermo.chamber_temp_k), 3400.0 + (3450.0 - 3400.0) * fraction);
    assert_eq!(n(thermo.gas_constant_j_kg_k), 380.0 + (365.0 - 380.0) * fraction);
    assert_eq!(n(thermo.bulk_density_kg_m3), 1190.0);
    assert!(Propellant::NtoMmh.thermo_at_mixture(&Native, &fluids(), Some(f(1.3))).is_ok());
    assert!(Propellant::NtoMmh.thermo_at_mixture(&Native, &fluids(), Some(f(2.0))).is_ok());
    assert!(Propellant::NtoMmh.thermo_at_mixture(&Native, &fluids(), Some(f(1.299_999))).is_err());
    assert!(Propellant::NtoMmh.thermo_at_mixture(&Native, &fluids(), Some(f(2.000_001))).is_err());
    assert_eq!(Propellant::SolidApcp.thermo_at_mixture(&Native, &fluids(), None).expect("grain"), Propellant::SolidApcp.thermo());
}

#[test]
fn propellant_families() {
    assert!(Propellant::SolidApcp.is_solid());
    assert!(!Propellant::LoxRp1.is_solid());
    assert!(Propellant::ColdGasHelium.is_cold_gas());
    assert!(!Propellant::MonopropHydrazine.is_cold_gas());
    assert!(Propellant::LoxRp1.is_tabulated());
    assert!(!Propellant::ColdGasNitrogen.is_tabulated());
    assert!(Propellant::SolidApcp.reference_mixture_ratio().is_none());
    assert!(Propellant::MonopropHydrazine.mixture_table().is_none());
    assert!(Propellant::LoxRp1.mixture_table().is_some());
}

#[test]
fn cycles_cooling_and_materials_carry_their_bounds() {
    let limits = EngineCycle::GasGenerator.limits();
    assert_eq!(n(limits.max_chamber_pressure_pa), 21.0e6);
    assert_eq!(n(limits.gg_bypass_fraction), 0.030);
    assert_eq!(n(limits.gg_temperature_k), 1050.0);
    assert_eq!(n(EngineCycle::FullFlowStaged.limits().spool_tau_s), 1.2);
    assert_eq!(n(EngineCycle::PressureFed.limits().min_throttle), 0.30);
    assert_eq!(EngineCycle::StagedCombustion.label(), "StagedCombustion");
    assert_eq!(CoolingMode::Ablative.max_single_burn_s().map(n), Some(300.0));
    assert_eq!(CoolingMode::Radiative.max_single_burn_s().map(n), None);
    assert_eq!(CoolingMode::Radiative.pressure_cap_pa().map(n), Some(8.0e6));
    assert_eq!(CoolingMode::Regenerative.pressure_cap_pa().map(n), None);
    assert_eq!(n(CoolingMode::Radiative.nozzle_wall_factor()), 1.2);
    assert_eq!(n(ChamberMaterial::ablative().density_kg_m3), 1800.0);
    assert_eq!(n(ChamberMaterial::radiative_niobium().max_wall_temp_k), 1750.0);
    assert!(ChamberMaterial::regen_alloy().validate().is_ok());
    let broken = ChamberMaterial { yield_strength_pa: f(-1.0), ..ChamberMaterial::regen_alloy() };
    match broken.validate() {
        Err(error) => {
            assert_eq!(error.message(), "invalid engine spec: material yield strength must be finite and > 0")
        }
        Ok(()) => panic!("negative strength must be refused"),
    }
}
