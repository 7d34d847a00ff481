use weather_station_bot::decimal::{decimal, right_aligned, rounded_hundredths, two_decimals};

fn shown(x: f32) -> String {
    two_decimals(x.to_bits())
}

#[test]
fn two_decimals_of_plain_values() {
    assert_eq!(shown(32.0), "32.00");
    assert_eq!(shown(0.0), "0.00");
    assert_eq!(shown(-0.0), "-0.00");
    assert_eq!(shown(50.5), "50.50");
    assert_eq!(shown(-10.25), "-10.25");
    assert_eq!(shown(760.00208), "760.00");
    assert_eq!(shown(0.999), "1.00");
    assert_eq!(shown(99.995), "100.00");
    assert_eq!(shown(99.994), "99.99");
    assert_eq!(shown(-0.001), "-0.00");
}

#[test]
fn two_decimals_ties_go_to_the_even_neighbour() {
    assert_eq!(shown(0.125), "0.12");
    assert_eq!(shown(0.375), "0.38");
    assert_eq!(shown(2.625), "2.62");
    assert_eq!(shown(2.875), "2.88");
    assert_eq!(shown(-0.125), "-0.12");
}

#[test]
fn two_decimals_of_values_that_are_no_numbers() {
    assert_eq!(shown(f32::NAN), "NaN");
    assert_eq!(shown(f32::INFINITY), "inf");
    assert_eq!(shown(f32::NEG_INFINITY), "-inf");
    assert_eq!(shown(f32::NAN), format!("{:.2}", f32::NAN));
    assert_eq!(shown(f32::INFINITY), format!("{:.2}", f32::INFINITY));
    assert_eq!(shown(f32::NEG_INFINITY), format!("{:.2}", f32::NEG_INFINITY));
}

#[test]
fn two_decimals_at_the_ends_of_the_range() {
    for x in [f32::MAX, f32::MIN, f32::MIN_POSITIVE, f32::EPSILON, 1.0e-45, -1.0e-45, 1.0e30, 16777216.0, 8388608.5, 4194304.25] {
        assert_eq!(shown(x), format!("{:.2}", x));
    }
}

#[test]
fn two_decimals_agree_with_the_formatter_on_a_sweep_of_patterns() {
    let mut bits: u32 = 0x1234_5678;
    let mut k = 0;
    while k < 200_000 {
        bits = bits.wrapping_mul(1_664_525).wrapping_add(1_013_904_223);
        let x = f32::from_bits(bits);
        assert_eq!(two_decimals(bits), format!("{:.2}", x), "pattern {:#x}", bits);
        k += 1;
    }
}

#[test]
fn two_decimals_agree_with_the_formatter_on_everyday_values() {
    let mut n: i32 = -50_000;
    while n <= 50_000 {
        let x = n as f32 / 8.0;
        assert_eq!(shown(x), format!("{:.2}", x));
        let y = n as f32 * 0.013;
        assert_eq!(shown(y), format!("{:.2}", y));
        let p = 101_325.0 + n as f32 * 0.37;
        let mm = p / 133.322;
        assert_eq!(shown(mm), format!("{:.2}", mm));
        n += 7;
    }
}

#[test]
fn rounded_hundredths_gives_whole_part_and_two_places() {
    assert_eq!(rounded_hundredths(32.0f32.to_bits()), (32, 0));
    assert_eq!(rounded_hundredths(50.5f32.to_bits()), (50, 50));
    assert_eq!(rounded_hundredths((-3.75f32).to_bits()), (3, 75));
    assert_eq!(rounded_hundredths(0.999f32.to_bits()), (1, 0));
    assert_eq!(rounded_hundredths(f32::MAX.to_bits()), (340282346638528859811704183484516925440, 0));
}

#[test]
fn decimal_writes_digits_without_leading_zeros() {
    assert_eq!(decimal(0), "0");
    assert_eq!(decimal(7), "7");
    assert_eq!(decimal(10), "10");
    assert_eq!(decimal(1234567890), "1234567890");
    assert_eq!(decimal(u128::MAX), u128::MAX.to_string());
}

#[test]
fn right_aligned_pads_to_the_width() {
    assert_eq!(right_aligned("32.00", 10), "     32.00");
    assert_eq!(right_aligned("32.00", 10), format!("{:>10.2}", 32.0f32));
    assert_eq!(right_aligned("", 3), "   ");
    assert_eq!(right_aligned("12345678.90", 10), "12345678.90");
    assert_eq!(right_aligned("1234567.90", 10), "1234567.90");
    assert_eq!(right_aligned("abc", 0), "abc");
}
