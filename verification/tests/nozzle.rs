use propulsion::error::PropulsionError;
use propulsion::float::F64;
use propulsion::nozzle::{area_ratio_from_mach, characteristic_velocity, mach_from_area_ratio, nozzle_exit, thrust_coefficient};
use propulsion::numerics::Numerics;
use propulsion::propellant::Propellant;

/// The elementary functions of the machine that runs the tests.
struct Native;

impl Numerics for Native {
    fn powf(&self, x: F64, y: F64) -> F64 {
        f(n(x).powf(n(y)))
    }

    fn powi(&self, x: F64, k: i32) -> F64 {
        f(n(x).powi(k))
    }

    fn exp(&self, x: F64) -> F64 {
        f(n(x).exp())
    }

    fn ln(&self, x: F64) -> F64 {
        f(n(x).ln())
    }

    fn atan(&self, x: F64) -> F64 {
        f(n(x).atan())
    }

    fn cos(&self, x: F64) -> F64 {
        f(n(x).cos())
    }

    fn fixed(&self, x: F64, places: u32) -> String {
        format!("{:.*}", places as usize, n(x))
    }

    fn shortest(&self, x: F64) -> String {
        format!("{}", n(x))
    }
}

fn f(x: f64) -> F64 {
    F64::from_bits(x.to_bits())
}

fn n(x: F64) -> f64 {
    f64::from_bits(x.to_bits())
}

fn solver_round_trip() {
    // eps = 1 chokes exactly; the solver inverts the area-Mach relation to 1e-9.
    let mach = n(mach_from_area_ratio(&Native, f(1.24), f(1.0)).expect("sonic throat"));
    assert!((mach - 1.0).abs() < 1e-12);
    for (gamma, eps) in [(1.2, 3.0), (1.22, 16.0), (1.24, 35.0), (1.25, 80.0)] {
        let mach = mach_from_area_ratio(&Native, f(gamma), f(eps)).expect("mach solve");
        assert!(n(mach) > 1.0);
        let round_trip = n(area_ratio_from_mach(&Native, f(gamma), mach));
        assert!((round_trip - eps).abs() / eps < 1e-9, "gamma {gamma} eps {eps}: got {round_trip}");
    }
}

#[test]
fn propulsion_sonic_throat_and_mach_solver_round_trip() {
    solver_round_trip();
}

#[test]
fn nozzle_sonic_throat_and_mach_solver_round_trip() {
    solver_round_trip();
}

#[test]
fn mach_solver_refuses_what_has_no_supersonic_root() {
    for (gamma, eps) in [(1.0, 3.0), (f64::NAN, 3.0), (1.2, 0.99), (1.2, f64::NAN)] {
        match mach_from_area_ratio(&Native, f(gamma), f(eps)) {
            Err(PropulsionError::InvalidSpec(text)) => {
                assert_eq!(text, "gamma must be > 1 and expansion ratio >= 1")
            }
            other => panic!("expected a refusal, got {other:?}"),
        }
    }
    match mach_from_area_ratio(&Native, f(1.4), f(f64::INFINITY)) {
        Err(PropulsionError::InvalidSpec(text)) => assert_eq!(text, "expansion ratio out of range"),
        other => panic!("expected a refusal, got {other:?}"),
    }
}

#[test]
fn bisection_takes_over_where_newton_stalls() {
    // Close to the sonic throat the first Newton step leaves the supersonic branch.
    for eps in [1.000_000_1, 1.0001, 1.01, 1.05] {
        let mach = mach_from_area_ratio(&Native, f(1.4), f(eps)).expect("mach solve");
        assert!(n(mach) >= 1.0);
        let round_trip = n(area_ratio_from_mach(&Native, f(1.4), mach));
        assert!((round_trip - eps).abs() / eps < 1e-9, "eps {eps}: got {round_trip}");
    }
}

#[test]
fn exit_state_and_thrust_coefficient_follow_the_native_formulas() {
    let thermo = Propellant::LoxMethane.thermo();
    let (gamma, temp, gas) = (1.22_f64, 3680.0, 405.0);
    let exit = nozzle_exit(&Native, &thermo, f(35.0)).expect("exit");
    let mach = n(exit.exit_mach);
    let ratio = (1.0 + (gamma - 1.0) / 2.0 * mach * mach).powf(-gamma / (gamma - 1.0));
    assert_eq!(n(exit.exit_pressure_ratio), ratio);
    let exit_temp = temp / (1.0 + (gamma - 1.0) / 2.0 * mach * mach);
    assert_eq!(n(exit.exit_temp_k), exit_temp);
    assert_eq!(n(exit.exhaust_velocity_mps), mach * (gamma * gas * exit_temp).sqrt());
    let cf = thrust_coefficient(&Native, &thermo, f(20.0e6), &exit, f(35.0), f(101_325.0), f(0.98));
    let momentum = 0.98
        * 0.95
        * ((2.0 * gamma * gamma / (gamma - 1.0))
            * (2.0 / (gamma + 1.0)).powf((gamma + 1.0) / (gamma - 1.0))
            * (1.0 - ratio.powf((gamma - 1.0) / gamma)))
        .sqrt();
    assert_eq!(n(cf), momentum + (ratio * 20.0e6 - 101_325.0) / 20.0e6 * 35.0);
    let gamma_fn = gamma.sqrt() * (2.0 / (gamma + 1.0)).powf((gamma + 1.0) / (2.0 * (gamma - 1.0)));
    assert_eq!(n(characteristic_velocity(&Native, &thermo)), (gas * temp).sqrt() / gamma_fn);
}
