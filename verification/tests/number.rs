//! Double-precision numbers held as integers, against the machine's own.

use omavcam::number::{
    clamp, equal, floor_part, is_finite, less, part, part_of_sum, round_part, Number,
};

/// Values with every kind of mantissa and many exponents.
fn draw(seed: &mut u64) -> f64 {
    *seed = seed.wrapping_mul(6364136223846793005).wrapping_add(1442695040888963407);
    let mixed = *seed ^ (*seed >> 29);
    let exponent = 1023 - (mixed >> 3) % 12;
    let fraction = match mixed % 5 {
        0 => 0,
        1 => 0xf_ffff_ffff_ffff,
        _ => mixed.rotate_left(17) & 0xf_ffff_ffff_ffff,
    };
    f64::from_bits((exponent << 52) | fraction)
}

fn number(value: f64) -> Number {
    Number { bits: value.to_bits(), text: value.to_string() }
}

const SIZES: [u32; 9] = [2, 3, 480, 540, 720, 1080, 1920, 4080, 4294967295];

#[test]
fn parts_of_a_frame_are_those_of_the_machine() {
    let mut seed: u64 = 7;
    for round in 0..20000 {
        let x = draw(&mut seed);
        let n = SIZES[round % SIZES.len()];
        let exact = x.clamp(0.0, 1.0) * n as f64;
        let own = part(x.to_bits());
        assert_eq!(floor_part(own, n), exact.floor() as u32, "{x} of {n}");
        assert_eq!(round_part(own, n), exact.round() as u32, "{x} of {n}");
    }
}

#[test]
fn sums_are_those_of_the_machine() {
    let mut seed: u64 = 11;
    for round in 0..20000 {
        let x = draw(&mut seed);
        let y = draw(&mut seed);
        let n = SIZES[round % SIZES.len()];
        let exact = (x + y).clamp(0.0, 1.0) * n as f64;
        let own = part_of_sum(x.to_bits(), y.to_bits());
        assert_eq!(round_part(own, n), exact.round() as u32, "{x} + {y} of {n}");
        assert_eq!(floor_part(own, n), exact.floor() as u32, "{x} + {y} of {n}");
    }
}

#[test]
fn small_and_large_numbers_have_parts_too() {
    let tiny = f64::from_bits(1);
    for x in [0.0, -0.0, tiny, 1e-300, 5e-324, 0.5, 1.0, 2.0, 1e300, -1.0, 0.1, 0.73] {
        for n in SIZES {
            let exact = f64::clamp(x, 0.0, 1.0) * n as f64;
            assert_eq!(floor_part(part(x.to_bits()), n), exact.floor() as u32, "{x} of {n}");
            let sum = f64::clamp(x + 0.2, 0.0, 1.0) * n as f64;
            let own = part_of_sum(x.to_bits(), 0.2f64.to_bits());
            assert_eq!(round_part(own, n), sum.round() as u32, "{x} + 0.2 of {n}");
        }
    }
}

#[test]
fn the_order_is_that_of_numbers() {
    let values: [f64; 10] = [-1e300, -1.0, -0.0, 0.0, 5e-324, 0.5, 1.0, 8.0, 8.1, 1e300];
    for a in values {
        for b in values {
            assert_eq!(less(a.to_bits(), b.to_bits()), a < b, "{a} {b}");
            assert_eq!(equal(a.to_bits(), b.to_bits()), a == b, "{a} {b}");
        }
    }
    assert!(is_finite(1e300f64.to_bits()));
    assert!(!is_finite(f64::INFINITY.to_bits()));
    assert!(!is_finite(f64::NEG_INFINITY.to_bits()));
    assert!(!is_finite(f64::NAN.to_bits()));
}

#[test]
fn clamping_keeps_a_number_between_two_others() {
    let (low, high) = (number(1.0), number(4.0));
    assert_eq!(clamp(&number(0.5), &low, &high).text, "1");
    assert_eq!(clamp(&number(2.5), &low, &high).text, "2.5");
    assert_eq!(clamp(&number(8.0), &low, &high).text, "4");
}

#[test]
fn what_is_no_number_counts_as_zero() {
    let odd = [
        f64::NAN,
        -f64::NAN,
        f64::from_bits(0x7ff0_0000_0000_0001),
        f64::from_bits(0xffff_ffff_ffff_ffff),
        f64::INFINITY,
        f64::NEG_INFINITY,
        f64::MAX,
        f64::MIN,
        0.0,
        0.5,
        -0.5,
    ];
    for x in odd {
        for n in SIZES {
            let exact = f64::clamp(x, 0.0, 1.0) * n as f64;
            assert_eq!(floor_part(part(x.to_bits()), n), exact.floor() as u32, "{x} of {n}");
            assert_eq!(round_part(part(x.to_bits()), n), exact.round() as u32, "{x} of {n}");
            for y in odd {
                let exact = f64::clamp(x + y, 0.0, 1.0) * n as f64;
                let own = part_of_sum(x.to_bits(), y.to_bits());
                assert_eq!(round_part(own, n), exact.round() as u32, "{x} + {y} of {n}");
            }
        }
    }
    assert_eq!(floor_part(part(f64::NAN.to_bits()), 1920), 0);
    let kept = clamp(&number(f64::NAN), &number(1.0), &number(8.0));
    assert!(f64::from_bits(kept.bits).is_nan());
}
