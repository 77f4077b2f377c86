use signalk_radar::double::Double;

fn double(x: f64) -> Double {
    Double { bits: x.to_bits() }
}

fn samples() -> Vec<f64> {
    vec![
        0.0, -0.0, 0.5, -0.5, 0.999999, 1.0, -1.0, 1.5, 2.0, 99.9, 100.0, 359.999, 360.0, 360.5,
        -359.0, 1e9, 2147483646.9, 2147483647.0, 2147483648.0, -2147483648.0, -2147483649.0, 1e300,
        -1e300, 4503599627370496.0, 5e-324, f64::INFINITY, f64::NEG_INFINITY, f64::NAN, f64::MAX,
        f64::MIN_POSITIVE,
    ]
}

#[test]
fn doubles_are_cut_as_casts_cut_them() {
    for x in samples() {
        assert_eq!(double(x).truncate(), x as i32, "{}", x);
    }
}

#[test]
fn doubles_are_placed_as_comparisons_place_them() {
    for x in samples() {
        let d = double(x);
        assert_eq!(d.is_below_zero(), x < 0.0, "{}", x);
        assert_eq!(d.is_at_most_zero(), x <= 0.0, "{}", x);
        assert_eq!(d.is_at_least(360), x >= 360.0, "{}", x);
        assert_eq!(d.is_at_least(1), x >= 1.0, "{}", x);
        assert_eq!(d.is_at_least(i32::MAX), x >= i32::MAX as f64, "{}", x);
        assert_eq!(d.is_finite(), x.is_finite(), "{}", x);
        for n in [1u64, 180, 359, 360, 4503599627370496] {
            assert_eq!(d.is_magnitude_at_most(n), x.abs() <= n as f64, "{} {}", x, n);
        }
    }
}

#[test]
fn integers_become_the_nearest_double() {
    let whole = [
        0u64, 1, 2, 3, 7, 1852, 4503599627370495, 9007199254740992, 9007199254740993,
        9007199254740995, 9223372036854775807, 9223372036854775808, 18446744073709551615,
        18446744073709550591, 18446744073709550592, 18446744073709550593,
    ];
    for n in whole {
        assert_eq!(Double::from_u64(n).bits, (n as f64).to_bits(), "{}", n);
    }
    for n in [-1i64, -2, -360, -9007199254740993, i64::MIN, i64::MIN + 1] {
        assert_eq!(Double::from_negative(n).bits, (n as f64).to_bits(), "{}", n);
    }
}

#[test]
fn whole_numbers_survive_on_the_way_through_a_double() {
    for n in [0u64, 1, 2, 100, 65535, 2147483647] {
        assert_eq!(Double::from_u64(n).truncate() as i64, n as i64);
    }
    assert_eq!(Double::from_u64(u64::MAX).truncate(), i32::MAX);
}
