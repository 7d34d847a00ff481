use weather_station_bot::telemetry::{
    accept_fields, decode, payload_text, DecodeError, EspWeatherMessage, HumidityBand,
    PressureBand, TemperatureBand, HIGH_PRESSURE_FROM, LOW_PRESSURE_UNTIL,
};

fn msg(temp: f32, pressure: f32, humidity: f32) -> EspWeatherMessage {
    EspWeatherMessage {
        temp: temp.to_bits(),
        pressure: pressure.to_bits(),
        humidity: humidity.to_bits(),
    }
}

fn temp(t: f32) -> EspWeatherMessage {
    msg(t, 101_325.0, 50.0)
}

fn humid(h: f32) -> EspWeatherMessage {
    msg(21.0, 101_325.0, h)
}

fn press(p: f32) -> EspWeatherMessage {
    msg(21.0, p, 50.0)
}

#[test]
fn temperature_bands_at_their_edges() {
    assert_eq!(temp(-10.5).temperature_band(), TemperatureBand::VeryCold);
    assert_eq!(temp(-10.0).temperature_band(), TemperatureBand::Cold);
    assert_eq!(temp(-0.5).temperature_band(), TemperatureBand::Cold);
    assert_eq!(temp(-0.0).temperature_band(), TemperatureBand::Neutral);
    assert_eq!(temp(0.0).temperature_band(), TemperatureBand::Neutral);
    assert_eq!(temp(20.0).temperature_band(), TemperatureBand::Neutral);
    assert_eq!(temp(20.000002).temperature_band(), TemperatureBand::Warm);
    assert_eq!(temp(30.0).temperature_band(), TemperatureBand::Warm);
    assert_eq!(temp(30.000002).temperature_band(), TemperatureBand::Hot);
    assert_eq!(temp(32.0).temperature_band(), TemperatureBand::Hot);
    assert_eq!(temp(f32::NAN).temperature_band(), TemperatureBand::Neutral);
}

#[test]
fn humidity_bands_at_their_edges() {
    assert_eq!(humid(50.0).humidity_band(), HumidityBand::Normal);
    assert_eq!(humid(70.0).humidity_band(), HumidityBand::Normal);
    assert_eq!(humid(70.5).humidity_band(), HumidityBand::High);
    assert_eq!(humid(90.0).humidity_band(), HumidityBand::High);
    assert_eq!(humid(90.5).humidity_band(), HumidityBand::VeryHigh);
    assert_eq!(humid(100.0).humidity_band(), HumidityBand::VeryHigh);
}

#[test]
fn pressure_bands_at_their_edges() {
    assert_eq!(press(101_325.0).pressure_band(), PressureBand::Normal);
    assert_eq!(press(102_658.0).pressure_band(), PressureBand::Normal);
    assert_eq!(press(102_659.0).pressure_band(), PressureBand::High);
    assert_eq!(press(99_992.0).pressure_band(), PressureBand::Normal);
    assert_eq!(press(99_991.0).pressure_band(), PressureBand::Low);
    assert_eq!(press(0.0).pressure_band(), PressureBand::Low);
    assert_eq!(press(-5.0).pressure_band(), PressureBand::Low);
    assert_eq!(press(f32::NAN).pressure_band(), PressureBand::Normal);
    assert_eq!(f32::from_bits(HIGH_PRESSURE_FROM), 102_658.226_562_5);
    assert_eq!(f32::from_bits(LOW_PRESSURE_UNTIL), 99_991.781_25);
    let at = EspWeatherMessage { temp: 0, pressure: HIGH_PRESSURE_FROM, humidity: 0 };
    let before = EspWeatherMessage { temp: 0, pressure: HIGH_PRESSURE_FROM - 1, humidity: 0 };
    assert_eq!(at.pressure_band(), PressureBand::High);
    assert_eq!(before.pressure_band(), PressureBand::Normal);
    let at = EspWeatherMessage { temp: 0, pressure: LOW_PRESSURE_UNTIL, humidity: 0 };
    let before = EspWeatherMessage { temp: 0, pressure: LOW_PRESSURE_UNTIL - 1, humidity: 0 };
    assert_eq!(at.pressure_band(), PressureBand::Normal);
    assert_eq!(before.pressure_band(), PressureBand::Low);
}

#[test]
fn pressure_bands_agree_with_the_conversion_to_millimetres_of_mercury() {
    let per_mm: f32 = 133.322;
    let normal: f32 = 101_325.0 / per_mm;
    let mut bits: u32 = 101_325.0f32.to_bits() - 400_000;
    let end: u32 = 101_325.0f32.to_bits() + 400_000;
    while bits <= end {
        let p = f32::from_bits(bits);
        let expected = if p / per_mm > normal + 10.0 {
            PressureBand::High
        } else if p / per_mm < normal - 10.0 {
            PressureBand::Low
        } else {
            PressureBand::Normal
        };
        let m = EspWeatherMessage { temp: 0, pressure: bits, humidity: 0 };
        assert_eq!(m.pressure_band(), expected, "pressure {}", p);
        bits += 1;
    }
}

#[test]
fn bands_agree_with_the_numbers_on_a_sweep_of_patterns() {
    let mut x: u32 = 0x0BAD_5EED;
    let mut k = 0;
    while k < 200_000 {
        x = x.wrapping_mul(1_664_525).wrapping_add(1_013_904_223);
        let v = f32::from_bits(x);
        let m = EspWeatherMessage { temp: x, pressure: x, humidity: x };
        let t = if v < -10.0 {
            TemperatureBand::VeryCold
        } else if v < 0.0 {
            TemperatureBand::Cold
        } else if v > 30.0 {
            TemperatureBand::Hot
        } else if v > 20.0 {
            TemperatureBand::Warm
        } else {
            TemperatureBand::Neutral
        };
        let h = if v > 90.0 {
            HumidityBand::VeryHigh
        } else if v > 70.0 {
            HumidityBand::High
        } else {
            HumidityBand::Normal
        };
        assert_eq!(m.temperature_band(), t, "pattern {:#x}", x);
        assert_eq!(m.humidity_band(), h, "pattern {:#x}", x);
        assert_eq!(m.should_alert(), v > 30.0 || v < 15.0 || v >= 85.0, "pattern {:#x}", x);
        k += 1;
    }
}

#[test]
fn alert_on_heat_cold_or_damp() {
    assert!(msg(30.5, 101_325.0, 50.0).should_alert());
    assert!(!msg(30.0, 101_325.0, 50.0).should_alert());
    assert!(msg(14.5, 101_325.0, 50.0).should_alert());
    assert!(!msg(15.0, 101_325.0, 50.0).should_alert());
    assert!(msg(20.0, 101_325.0, 85.0).should_alert());
    assert!(!msg(20.0, 101_325.0, 84.5).should_alert());
}

#[test]
fn marks_of_the_bands() {
    assert_eq!(temp(-20.0).temp_to_emoji(), "🥶");
    assert_eq!(temp(-5.0).temp_to_emoji(), "❄️");
    assert_eq!(temp(10.0).temp_to_emoji(), "");
    assert_eq!(temp(25.0).temp_to_emoji(), "☀️");
    assert_eq!(temp(32.0).temp_to_emoji(), "🔥");
    assert_eq!(humid(50.0).humidity_to_emoji(), "");
    assert_eq!(humid(80.0).humidity_to_emoji(), "Do not forget an umbrella ☂️");
    assert_eq!(humid(95.0).humidity_to_emoji(), "🌧");
    assert_eq!(press(101_325.0).pressure_to_enoji(), "");
    assert_eq!(press(104_000.0).pressure_to_enoji(), "⬆️ high pressure");
    assert_eq!(press(98_000.0).pressure_to_enoji(), "⬇️ low pressure");
}

#[test]
fn render_writes_marks_and_three_lines() {
    let m = msg(32.0, 101_325.0, 50.0);
    let mm: f32 = 101_325.0 / 133.322;
    assert_eq!(
        m.render(),
        "🔥\n℃     32.00\nВлажность     50.00%\nДавление    760.00 мм рт.с."
    );
    let m = msg(-12.5, 98_000.0, 95.25);
    let mm: f32 = 98_000.0 / 133.322;
    assert_eq!(
        m.render(),
        format!(
            "{}{}{}\n℃{:>10.2}\nВлажность{:>10.2}%\nДавление{:>10.2} мм рт.с.",
            "🥶", "🌧", "⬇️ low pressure", -12.5f32, 95.25f32, mm
        )
    );
}

#[test]
fn render_agrees_with_the_formatter_on_many_messages() {
    let mut n: i32 = -400;
    while n <= 600 {
        let t = n as f32 / 7.0;
        let h = (n + 400) as f32 / 9.0;
        let p = 95_000.0 + (n + 400) as f32 * 13.7;
        let m = msg(t, p, h);
        let mm: f32 = p / 133.322;
        let expected = format!(
            "{}{}{}\n℃{:>10.2}\nВлажность{:>10.2}%\nДавление{:>10.2} мм рт.с.",
            m.temp_to_emoji(),
            m.humidity_to_emoji(),
            m.pressure_to_enoji(),
            t,
            h,
            mm
        );
        assert_eq!(m.render(), expected);
        n += 1;
    }
}

#[test]
fn decode_keeps_the_three_numbers_bit_for_bit() {
    let payload = br#"{"temp":32.0,"pressure":101325.0,"humidity":50.0}"#.to_vec();
    let m = msg(32.0, 101_325.0, 50.0);
    assert_eq!(decode(payload, Some(m)), Ok(m));
    let odd = EspWeatherMessage { temp: 0x0000_0001, pressure: 0x7F7F_FFFF, humidity: 0x8000_0000 };
    assert_eq!(decode(b"{}".to_vec(), Some(odd)), Ok(odd));
    assert_eq!(accept_fields(Some(odd)), Ok(odd));
}

#[test]
fn decode_refuses_bytes_that_are_no_text() {
    let m = msg(32.0, 101_325.0, 50.0);
    assert_eq!(decode(vec![0xFF, 0xFE, 0x00], Some(m)), Err(DecodeError::InvalidEncoding));
    assert_eq!(decode(vec![0xC3], None), Err(DecodeError::InvalidEncoding));
    assert_eq!(decode(vec![0xED, 0xA0, 0x80], Some(m)), Err(DecodeError::InvalidEncoding));
}

#[test]
fn decode_refuses_a_payload_without_three_finite_numbers() {
    assert_eq!(decode(br#"{"temp":"bad"}"#.to_vec(), None), Err(DecodeError::MalformedPayload));
    assert_eq!(
        decode(b"{}".to_vec(), Some(msg(f32::INFINITY, 1.0, 1.0))),
        Err(DecodeError::MalformedPayload)
    );
    assert_eq!(
        decode(b"{}".to_vec(), Some(msg(1.0, f32::NAN, 1.0))),
        Err(DecodeError::MalformedPayload)
    );
    assert_eq!(
        decode(b"{}".to_vec(), Some(msg(1.0, 1.0, f32::NEG_INFINITY))),
        Err(DecodeError::MalformedPayload)
    );
    assert_eq!(accept_fields(None), Err(DecodeError::MalformedPayload));
}

#[test]
fn payload_text_gives_the_characters_of_the_bytes() {
    assert_eq!(payload_text(b"abc".to_vec()), Ok("abc".to_string()));
    assert_eq!(payload_text("℃ 32 🔥".as_bytes().to_vec()), Ok("℃ 32 🔥".to_string()));
    assert_eq!(payload_text(Vec::new()), Ok(String::new()));
    assert_eq!(payload_text(vec![0x80]), Err(DecodeError::InvalidEncoding));
    assert_eq!(payload_text(vec![b'a', 0xE2, 0x84]), Err(DecodeError::InvalidEncoding));
}
