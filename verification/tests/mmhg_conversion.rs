use weather_station_bot::mmhg::{pressure_in_mmhg, DIVISOR, PASCALS_PER_MMHG};

fn converted(p: f32) -> f32 {
    f32::from_bits(pressure_in_mmhg(p.to_bits()))
}

#[test]
fn the_divisor_is_the_number_next_to_133_322() {
    assert_eq!(f32::from_bits(PASCALS_PER_MMHG), 133.322);
    assert_eq!(f32::from_bits(PASCALS_PER_MMHG) as f64, DIVISOR as f64 / 65536.0);
}

#[test]
fn normal_pressure_is_about_760_millimetres() {
    assert_eq!(converted(101_325.0), 760.002_1);
    assert_eq!(converted(101_325.0), 101_325.0f32 / 133.322);
    assert_eq!(converted(133.322), 1.0);
    assert_eq!(converted(-133.322), -1.0);
    assert_eq!(converted(266.644), 2.0);
}

#[test]
fn zero_and_what_is_no_number_stay_as_they_are() {
    assert_eq!(pressure_in_mmhg(0), 0);
    assert_eq!(pressure_in_mmhg(0x8000_0000), 0x8000_0000);
    assert_eq!(pressure_in_mmhg(f32::INFINITY.to_bits()), f32::INFINITY.to_bits());
    assert_eq!(pressure_in_mmhg(f32::NEG_INFINITY.to_bits()), f32::NEG_INFINITY.to_bits());
    assert_eq!(pressure_in_mmhg(0x7FC0_0000), 0x7FC0_0000);
    assert_eq!(pressure_in_mmhg(0xFF80_0001), 0xFF80_0001);
}

#[test]
fn the_smallest_and_the_largest_pressures() {
    for p in [f32::MAX, f32::MIN, f32::MIN_POSITIVE, 1.0e-45, 2.0e-45, 1.0e-40, 1.0e-38, 1.9e-36, 1.6e-36, 1.5e-36] {
        assert_eq!(pressure_in_mmhg(p.to_bits()), (p / 133.322).to_bits(), "pressure {:e}", p);
        assert_eq!(pressure_in_mmhg((-p).to_bits()), (-p / 133.322).to_bits(), "pressure {:e}", -p);
    }
    let mut bits: u32 = 0;
    while bits < 70_000 {
        let p = f32::from_bits(bits);
        assert_eq!(pressure_in_mmhg(bits), (p / 133.322).to_bits(), "pattern {:#x}", bits);
        bits += 1;
    }
}

#[test]
fn the_conversion_is_the_division_on_a_sweep_of_patterns() {
    let mut bits: u32 = 0x2545_F491;
    let mut k = 0;
    while k < 400_000 {
        bits = bits.wrapping_mul(1_664_525).wrapping_add(1_013_904_223);
        let p = f32::from_bits(bits);
        if p.is_finite() {
            assert_eq!(pressure_in_mmhg(bits), (p / 133.322).to_bits(), "pattern {:#x}", bits);
        } else {
            assert_eq!(pressure_in_mmhg(bits), bits);
        }
        k += 1;
    }
}

#[test]
fn the_conversion_is_the_division_on_everyday_pressures() {
    let mut bits: u32 = 90_000.0f32.to_bits();
    let end: u32 = 110_000.0f32.to_bits();
    while bits <= end {
        let p = f32::from_bits(bits);
        assert_eq!(pressure_in_mmhg(bits), (p / 133.322).to_bits(), "pressure {}", p);
        bits += 3;
    }
}

#[test]
fn the_conversion_is_the_division_where_the_quotient_becomes_subnormal() {
    let from: u32 = 1.4e-36f32.to_bits();
    let mut bits: u32 = from;
    while bits < from + 3_000_000 {
        let p = f32::from_bits(bits);
        assert_eq!(pressure_in_mmhg(bits), (p / 133.322).to_bits(), "pattern {:#x}", bits);
        bits += 7;
    }
}
