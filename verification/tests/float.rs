//! The bit-level arithmetic against the processor's own.
use propulsion::float::{big, dec, given_or, largest, pi, tau, whole, zero, F64};

fn f(x: f64) -> F64 {
    F64::from_bits(x.to_bits())
}

fn n(x: F64) -> f64 {
    f64::from_bits(x.to_bits())
}

struct Noise {
    state: u64,
}

impl Noise {
    fn next(&mut self) -> u64 {
        self.state ^= self.state << 13;
        self.state ^= self.state >> 7;
        self.state ^= self.state << 17;
        self.state
    }

    /// Any pattern, biased towards close exponents, subnormals and special values.
    fn pattern(&mut self) -> u64 {
        let raw = self.next();
        match self.next() % 8 {
            0 => raw & 0x800f_ffff_ffff_ffff,
            1 => (raw & 0x800f_ffff_ffff_ffff) | ((1000 + self.next() % 50) << 52),
            2 => (raw & 0x800f_ffff_ffff_ffff) | ((1023 + self.next() % 3) << 52),
            3 => (raw & 0x8000_0000_0000_000f) | ((self.next() % 2047) << 52),
            4 => (raw & 0x8000_0000_0000_0000) | 0x7ff0_0000_0000_0000,
            5 => (raw & 0x800f_ffff_ffff_ffff) | ((1 + self.next() % 120) << 52),
            _ => raw,
        }
    }
}

fn agrees(ours: F64, theirs: f64, what: &str) {
    if theirs.is_nan() {
        assert!(ours.is_nan(), "{what}: expected NaN");
    } else {
        assert_eq!(ours.to_bits(), theirs.to_bits(), "{what}");
    }
}

#[test]
fn arithmetic_agrees_with_the_processor() {
    let mut noise = Noise { state: 0x9e37_79b9_7f4a_7c15 };
    for _ in 0..20_000 {
        let (a, b) = (noise.pattern(), noise.pattern());
        let (x, y) = (f64::from_bits(a), f64::from_bits(b));
        agrees(f(x) + f(y), x + y, "sum");
        agrees(f(x) - f(y), x - y, "difference");
        agrees(f(x) * f(y), x * y, "product");
        agrees(f(x) / f(y), x / y, "quotient");
    }
}

#[test]
fn square_roots_agree_with_the_processor() {
    let mut noise = Noise { state: 0x0123_4567_89ab_cdef };
    for _ in 0..10_000 {
        let x = f64::from_bits(noise.pattern());
        agrees(f(x).sqrt(), x.sqrt(), "root");
        agrees(f(x.abs()).sqrt(), x.abs().sqrt(), "root");
    }
    for k in 0..200_u32 {
        let x = f64::from(k);
        agrees(f(x * x).sqrt(), x, "square");
    }
}

#[test]
fn comparisons_agree_with_the_processor() {
    let mut noise = Noise { state: 42 };
    let special = [0.0, -0.0, 1.0, -1.0, f64::NAN, f64::INFINITY, f64::NEG_INFINITY, f64::MIN_POSITIVE, 5e-324];
    let mut pairs: Vec<(f64, f64)> = Vec::new();
    for x in special {
        for y in special {
            pairs.push((x, y));
        }
    }
    for _ in 0..5_000 {
        pairs.push((f64::from_bits(noise.pattern()), f64::from_bits(noise.pattern())));
    }
    for (x, y) in pairs {
        assert_eq!(f(x) < f(y), x < y);
        assert_eq!(f(x) <= f(y), x <= y);
        assert_eq!(f(x) > f(y), x > y);
        assert_eq!(f(x) >= f(y), x >= y);
        assert_eq!(f(x) == f(y), x == y);
        assert_eq!(f(x).same(f(y)), x == y);
        assert_eq!(f(x).is_finite(), x.is_finite());
        assert_eq!(f(x).is_nan(), x.is_nan());
        assert_eq!(f(x).abs().to_bits(), x.abs().to_bits());
        assert_eq!(f(x).negate().to_bits(), (-x).to_bits());
        let (low, high) = (f(x).min(f(y)), f(x).max(f(y)));
        assert!(n(low) == x.min(y) || x.min(y).is_nan() && low.is_nan());
        assert!(n(high) == x.max(y) || x.max(y).is_nan() && high.is_nan());
    }
    assert_eq!(n(f(3.0).clamp(f(1.0), f(2.0))), 2.0);
    assert_eq!(n(f(0.5).clamp(f(1.0), f(2.0))), 1.0);
    assert_eq!(n(f(1.5).clamp(f(1.0), f(2.0))), 1.5);
    assert!(F64::nan().clamp(f(1.0), f(2.0)).is_nan());
    assert_eq!(n(f(-3.0).clamp_unit()), 0.0);
    assert_eq!(n(f(3.0).clamp_unit()), 1.0);
}

#[test]
fn literals_read_as_the_compiler_reads_them() {
    assert_eq!(n(dec(1, 1)), 0.1);
    assert_eq!(n(dec(980_665, 5)), 9.80665);
    assert_eq!(n(dec(1_602_176_634, 28)), 1.602_176_634e-19);
    assert_eq!(n(dec(5_670_374_419, 17)), 5.670_374_419e-8);
    assert_eq!(n(dec(2_220_446_049_250_313, 31)), f64::EPSILON);
    assert_eq!(n(dec(831_446_261_815_324, 14)), 8.314_462_618_153_24);
    assert_eq!(n(dec(1, 37)), 1e-37);
    assert_eq!(n(dec(123_456_789, 30)), 1.234_567_89e-22);
    assert_eq!(n(big(602_214_076, 15)), 6.022_140_76e23);
    assert_eq!(n(big(431, 5)), 43.1e6);
    assert_eq!(n(big(u64::MAX, 18)), 18_446_744_073_709_551_615e18);
    assert_eq!(n(whole(0)), 0.0);
    assert_eq!(n(whole(u64::MAX)), u64::MAX as f64);
    assert_eq!(n(whole(9_007_199_254_740_993)), 9_007_199_254_740_992.0);
    assert_eq!(n(pi()), std::f64::consts::PI);
    assert_eq!(n(tau()), std::f64::consts::TAU);
    assert_eq!(n(largest()), f64::MAX);
    assert_eq!(n(zero()).to_bits(), 0);
    assert_eq!(n(given_or(Some(f(2.0)), f(3.0))), 2.0);
    assert_eq!(n(given_or(None, f(3.0))), 3.0);
    let mut noise = Noise { state: 7 };
    for _ in 0..500 {
        let m = noise.next() >> (noise.next() % 60);
        let places = (noise.next() % 38) as u32;
        let text = format!("{m}e-{places}");
        assert_eq!(n(dec(m, places)), text.parse::<f64>().unwrap(), "{text}");
        let zeros = (noise.next() % 19) as u32;
        let text = format!("{m}e{zeros}");
        assert_eq!(n(big(m, zeros)), text.parse::<f64>().unwrap(), "{text}");
    }
}

#[test]
fn ties_go_to_the_even_pattern_and_overflow_to_infinity() {
    // 2^53 + 1 lies midway; the even neighbour is 2^53, and of 2^53 + 3 it is 2^53 + 4.
    assert_eq!(n(f(9_007_199_254_740_992.0) + f(1.0)), 9_007_199_254_740_992.0);
    assert_eq!(n(f(9_007_199_254_740_994.0) + f(1.0)), 9_007_199_254_740_996.0);
    assert_eq!(n(f(f64::MAX) + f(f64::MAX)), f64::INFINITY);
    assert_eq!(n(f(f64::MAX) + f(9.979201547673598e291)), f64::MAX);
    assert_eq!(n(f(f64::MAX) + f(9.9792015476736e291)), f64::INFINITY);
    assert_eq!(n(f(5e-324) / f(2.0)), 0.0);
    assert_eq!(n(f(1.5e-323) / f(2.0)), 1e-323);
    assert!((F64::infinity() - F64::infinity()).is_nan());
    assert!((F64::infinity() * zero()).is_nan());
    assert!((zero() / zero()).is_nan());
    assert!(f(-1.0).sqrt().is_nan());
    assert_eq!(f(-0.0).sqrt().to_bits(), (-0.0_f64).to_bits());
    assert_eq!(n(f(1.0) / zero()), f64::INFINITY);
    assert_eq!(n(f(-1.0) / zero()), f64::NEG_INFINITY);
}
