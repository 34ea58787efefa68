use propulsion::analyze::analyze_altitude;
use propulsion::atmosphere::{AtmosphereComposition, AtmosphereSample, SampledAltitude};
use propulsion::cycle::EngineCycle;
use propulsion::engine::CompiledEngine;
use propulsion::error::PropulsionError;
use propulsion::float::F64;
use propulsion::liquid::LiquidEngineSpec;
use propulsion::material::{ChamberMaterial, CoolingMode};
use propulsion::mount::{gimbal_pair, EngineMount};
use propulsion::nozzle::NozzleContour;
use propulsion::numerics::Numerics;
use propulsion::propellant::{FluidThermo, Propellant, PropellantThermo};
use propulsion::vector::Vector;

/// The elementary functions of the machine that runs the tests.
struct Native;

impl Numerics for Native {
    fn powf(&self, x: F64, y: F64) -> F64 {
        f(n(x).powf(n(y)))
    }

    fn powi(&self, x: F64, k: i32) -> F64 {
        f(n(x).powi(k))
    }

    fn exp(&self, x: F64) -> F64 {
        f(n(x).exp())
    }

    fn ln(&self, x: F64) -> F64 {
        f(n(x).ln())
    }

    fn atan(&self, x: F64) -> F64 {
        f(n(x).atan())
    }

    fn cos(&self, x: F64) -> F64 {
        f(n(x).cos())
    }

    fn fixed(&self, x: F64, places: u32) -> String {
        format!("{:.*}", places as usize, n(x))
    }

    fn shortest(&self, x: F64) -> String {
        format!("{}", n(x))
    }
}

fn f(x: f64) -> F64 {
    F64::from_bits(x.to_bits())
}

fn n(x: F64) -> f64 {
    f64::from_bits(x.to_bits())
}

/// Thermo of the reaction-control fluids.
fn fluids() -> FluidThermo {
    let row = |gamma: f64, temp: f64, gas: f64, density: f64, length: f64, c_star: f64| PropellantThermo {
        gamma: f(gamma),
        chamber_temp_k: f(temp),
        gas_constant_j_kg_k: f(gas),
        bulk_density_kg_m3: f(density),
        characteristic_length_m: f(length),
        reference_c_star_mps: f(c_star),
    };
    FluidThermo {
        hydrazine: row(1.27, 1150.0, 640.0, 1010.0, 0.6, 1300.0),
        nitrogen: row(1.4, 300.0, 296.8, 280.0, 0.0, 434.0),
        helium: row(1.667, 300.0, 2077.0, 40.0, 0.0, 1090.0),
    }
}

fn v(x: f64, y: f64, z: f64) -> Vector {
    Vector::new(f(x), f(y), f(z))
}

fn merlin_like() -> LiquidEngineSpec {
    LiquidEngineSpec {
        name: "Merlin-1D class".into(),
        propellant: Propellant::LoxRp1,
        cycle: EngineCycle::GasGenerator,
        chamber_pressure_pa: f(9.7e6),
        throat_radius_m: f(0.134),
        expansion_ratio: f(16.0),
        nozzle_length_m: f(1.5),
        contour: NozzleContour::Bell,
        chamber_material: ChamberMaterial::nickel_superalloy(),
        cooling: CoolingMode::Regenerative,
        mixture_ratio: None,
        characteristic_length_m: None,
        gimbal_range_rad: f(0.09),
        min_throttle: None,
        restartable: true,
    }
}

fn lever_arm() {
    // +X thrust at x = -3 m: gimbaling must produce thrust times lever arm per
    // radian about the transverse axes and nothing about the thrust axis.
    let mount = EngineMount {
        name: "lever probe".into(),
        engine: CompiledEngine::Liquid(
            LiquidEngineSpec { name: "lever".into(), gimbal_range_rad: f(0.1), ..merlin_like() }
                .compile(&Native, &fluids())
                .expect("compile"),
        ),
        position_body_m: v(-3.0, 0.0, 0.0),
        thrust_axis_body: v(1.0, 0.0, 0.0),
    };
    let authority = mount.gimbal_authority(&Native, f(1.0), f(0.0), f(0.0)).expect("authority");
    let full = n(mount.engine.operating_point(&Native, f(1.0), f(0.0), f(0.0)).expect("point").thrust_n);
    for effector in [authority.0, authority.1] {
        let moment = effector.moment_per_command_nm;
        let per_rad = glam::DVec3::new(n(moment.x), n(moment.y), n(moment.z)) / 0.1;
        assert!(per_rad.x.abs() < full * 0.01, "no roll authority expected");
        assert!(
            (per_rad.length() - full * 3.0).abs() / (full * 3.0) < 1e-9,
            "moment must equal thrust times lever arm"
        );
    }
}

#[test]
fn propulsion_gimbal_authority_matches_lever_arm() {
    lever_arm();
}

#[test]
fn mount_gimbal_authority_matches_lever_arm() {
    lever_arm();
}

#[test]
fn engine_mount_validate_rejects_tampered_baked_engine() {
    let mount = EngineMount {
        name: "tamper probe".into(),
        engine: CompiledEngine::Liquid(merlin_like().compile(&Native, &fluids()).expect("compile")),
        position_body_m: v(0.0, 1.0, 0.0),
        thrust_axis_body: v(1.0, 0.0, 0.0),
    };
    mount.validate().expect("clean bake validates");

    let mut tampered = mount.clone();
    let CompiledEngine::Liquid(engine) = &mut tampered.engine else {
        panic!("liquid variant");
    };
    engine.chamber_pressure_pa = f(0.0);
    assert!(matches!(tampered.validate(), Err(PropulsionError::InvalidSpec(_))));
    let error = tampered
        .thrust_vector_body_n(&Native, f(1.0), f(0.0), f(0.0))
        .expect_err("tampered mount must fail closed, not return NaN thrust");
    assert!(matches!(error, PropulsionError::InvalidSpec(_)));

    mount.validate().expect("untampered bake still validates");
}

#[test]
fn mount_frame_refusals_name_their_reason() {
    let mount = EngineMount {
        name: "frame probe".into(),
        engine: CompiledEngine::Liquid(merlin_like().compile(&Native, &fluids()).expect("compile")),
        position_body_m: v(0.0, 1.0, 0.0),
        thrust_axis_body: v(0.6, 0.0, 0.8),
    };
    let thrust = mount.thrust_vector_body_n(&Native, f(1.0), f(0.0), f(0.0)).expect("thrust");
    let full = n(mount.engine.operating_point(&Native, f(1.0), f(0.0), f(0.0)).expect("point").thrust_n);
    assert_eq!((n(thrust.x), n(thrust.y), n(thrust.z)), (0.6 * full, 0.0 * full, 0.8 * full));
    let message = |mount: EngineMount| match mount.validate() {
        Ok(()) => panic!("must be refused"),
        Err(error) => error.message(),
    };
    assert_eq!(
        message(EngineMount { name: "  ".into(), ..mount.clone() }),
        "invalid engine spec: engine mount needs a name"
    );
    assert_eq!(
        message(EngineMount { position_body_m: v(f64::NAN, 0.0, 0.0), ..mount.clone() }),
        "invalid engine spec: mount position must be finite"
    );
    assert_eq!(
        message(EngineMount { thrust_axis_body: v(f64::INFINITY, 0.0, 0.0), ..mount.clone() }),
        "invalid engine spec: thrust axis must be finite"
    );
    assert_eq!(
        message(EngineMount { thrust_axis_body: v(1.0, 1.0, 0.0), ..mount }),
        "invalid engine spec: thrust axis must be unit length"
    );
}

#[test]
fn vectors_agree_with_glam() {
    let pairs = [
        (v(1.5, -2.0, 0.25), v(0.1, 7.0, -3.0)),
        (v(1e-3, 1e3, 1e6), v(-4.0, 0.0, 9.5)),
    ];
    for (a, b) in pairs {
        let ga = glam::DVec3::new(n(a.x), n(a.y), n(a.z));
        let gb = glam::DVec3::new(n(b.x), n(b.y), n(b.z));
        let same = |ours: Vector, theirs: glam::DVec3| {
            assert_eq!([n(ours.x), n(ours.y), n(ours.z)], theirs.to_array());
        };
        same(a.cross(b), ga.cross(gb));
        same(a.normalized(), ga.normalize());
        same(a.scaled(f(0.3)), ga * 0.3);
        same(a.plus(b), ga + gb);
        assert_eq!(n(a.dot(b)), ga.dot(gb));
        assert_eq!(n(a.length()), ga.length());
    }
    // A thrust axis along Y takes X as its reference.
    let (first, second) = gimbal_pair(v(0.0, 0.0, 0.0), v(0.0, 1.0, 0.0), v(0.0, 10.0, 0.0), f(0.5));
    assert_eq!([n(first.gimbal_axis.x), n(first.gimbal_axis.y), n(first.gimbal_axis.z)], [0.0, 0.0, -1.0]);
    assert_eq!([n(second.gimbal_axis.x), n(second.gimbal_axis.y), n(second.gimbal_axis.z)], [-1.0, 0.0, 0.0]);
    assert_eq!(n(first.force_per_command_n.x), 5.0);
}

fn standard_air() -> AtmosphereComposition {
    AtmosphereComposition {
        gas_constant_j_kg_k: f(287.05),
        mean_heat_capacity_ratio: f(1.4),
        oxygen_mass_fraction: f(0.2314),
        sane: true,
    }
}

fn altitude(altitude_m: f64, pressure_pa: f64) -> SampledAltitude {
    SampledAltitude {
        altitude_m: f(altitude_m),
        sample: Ok(AtmosphereSample {
            pressure_pa: f(pressure_pa),
            temperature_k: f(250.0),
            speed_of_sound_mps: f(317.0),
            composition: standard_air(),
        }),
        solved_machs: Vec::new(),
    }
}

fn curve_falls_with_ambient() {
    // Thrust rises as the rocket climbs, Isp follows, mass flow stays frozen.
    let engine = CompiledEngine::Liquid(merlin_like().compile(&Native, &fluids()).expect("compile"));
    let altitudes: Vec<SampledAltitude> =
        (0..=10).map(|k| altitude(k as f64 * 8000.0, 101_325.0 * (-(k as f64) * 8000.0 / 7400.0).exp())).collect();
    let curve = analyze_altitude(&Native, &engine, &altitudes, f(1.0), f(0.0)).expect("analyze");
    assert_eq!(curve.len(), altitudes.len());
    for window in curve.windows(2) {
        assert!(window[1].thrust_n >= window[0].thrust_n, "thrust must not fall with altitude");
        assert!(
            (n(window[1].mass_flow_kg_s) - n(window[0].mass_flow_kg_s)).abs() / n(window[0].mass_flow_kg_s) < 1e-9
        );
    }
    assert!(curve.last().expect("top").isp_s > curve[0].isp_s);
    assert_eq!(n(curve[3].altitude_m), 24_000.0);
}

#[test]
fn propulsion_analyzer_curve_falls_with_ambient() {
    curve_falls_with_ambient();
}

#[test]
fn analyze_analyzer_curve_falls_with_ambient() {
    curve_falls_with_ambient();
}

#[test]
fn analyzer_stops_at_the_first_bad_altitude() {
    let engine = CompiledEngine::Liquid(merlin_like().compile(&Native, &fluids()).expect("compile"));
    let message = |altitudes: Vec<SampledAltitude>, throttle: f64| {
        match analyze_altitude(&Native, &engine, &altitudes, f(throttle), f(0.0)) {
            Ok(_) => panic!("must be refused"),
            Err(error) => error.message(),
        }
    };
    assert_eq!(message(Vec::new(), 1.0), "invalid engine spec: analyzer needs at least one altitude");
    assert_eq!(
        message(vec![altitude(0.0, 1.0e5), altitude(f64::NAN, 1.0e5)], 1.0),
        "invalid engine spec: analyzer altitudes must be finite"
    );
    let missing = SampledAltitude {
        altitude_m: f(1.0e9),
        sample: Err("above the model".into()),
        solved_machs: Vec::new(),
    };
    assert_eq!(
        message(vec![altitude(0.0, 1.0e5), missing], 1.0),
        "invalid engine spec: atmosphere sample: above the model"
    );
    assert_eq!(
        message(vec![altitude(0.0, 1.0e5)], 2.0),
        "invalid engine command: throttle must be finite in [0, 1]"
    );
}
