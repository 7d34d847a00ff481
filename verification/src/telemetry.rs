//! Telemetry as it comes off the wire, and what is read out of it.
//!
//! A message carries a temperature in degrees Celsius, a pressure in pascals
//! and a relative humidity in percent, each as the bit pattern of a
//! single-precision number (see [`crate::measure`]).  Each of the three is
//! sorted into a band by fixed thresholds; the bands choose the phrases that
//! open a notification.

use vstd::prelude::*;
use vstd::arithmetic::power2::lemma2_to64;
use vstd::string::StringExecFns;
use vstd::utf8::{decode_utf8, valid_utf8};
use crate::decimal::{right_aligned, right_aligned_of, two_decimals, two_decimals_of};
use crate::mmhg::{mmhg_of, pressure_in_mmhg};
use crate::measure::{
    above, at_least, below, exceeds, falls_below, finite, is_finite, is_nan, lemma_order_key,
    lemma_scaled_normal, reaches, scaled, scaled_magnitude, unit,
};

verus! {

/// The pattern of -10.
pub const MINUS_TEN: u32 = 0xC120_0000;

/// The pattern of 0.
pub const ZERO: u32 = 0x0000_0000;

/// The pattern of 15.
pub const FIFTEEN: u32 = 0x4170_0000;

/// The pattern of 20.
pub const TWENTY: u32 = 0x41A0_0000;

/// The pattern of 30.
pub const THIRTY: u32 = 0x41F0_0000;

/// The pattern of 70.
pub const SEVENTY: u32 = 0x428C_0000;

/// The pattern of 85.
pub const EIGHTY_FIVE: u32 = 0x42AA_0000;

/// The pattern of 90.
pub const NINETY: u32 = 0x42B4_0000;

/// Normal pressure, 101 325 Pa, in hundredths of a pascal.
pub const NORMAL_PRESSURE: u32 = 10_132_500;

/// Ten millimetres of mercury at 133.322 Pa each, in hundredths of a pascal.
pub const PRESSURE_MARGIN: u32 = 133_322;

/// The least pattern whose number exceeds normal pressure by more than the
/// margin: 102 658.226 562 5.
pub const HIGH_PRESSURE_FROM: u32 = 0x47C8_811D;

/// The least pattern whose number is not below normal pressure less the
/// margin: 99 991.781 25.
pub const LOW_PRESSURE_UNTIL: u32 = 0x47C3_4BE4;

/// How a temperature feels.
#[derive(Clone, Copy, Debug, PartialEq, Eq, Structural)]
pub enum TemperatureBand {
    VeryCold,
    Cold,
    Neutral,
    Warm,
    Hot,
}

/// How damp the air is.
#[derive(Clone, Copy, Debug, PartialEq, Eq, Structural)]
pub enum HumidityBand {
    Normal,
    High,
    VeryHigh,
}

/// Where the pressure stands against normal pressure.
#[derive(Clone, Copy, Debug, PartialEq, Eq, Structural)]
pub enum PressureBand {
    Low,
    Normal,
    High,
}

/// The band of a temperature: below -10 very cold, below 0 cold, above 30
/// hot, above 20 warm, neutral otherwise.
pub open spec fn temperature_band_of(temp: u32) -> TemperatureBand {
    if falls_below(temp, -1000) {
        TemperatureBand::VeryCold
    } else if falls_below(temp, 0) {
        TemperatureBand::Cold
    } else if exceeds(temp, 3000) {
        TemperatureBand::Hot
    } else if exceeds(temp, 2000) {
        TemperatureBand::Warm
    } else {
        TemperatureBand::Neutral
    }
}

/// The band of a humidity: above 90 very high, above 70 high.
pub open spec fn humidity_band_of(humidity: u32) -> HumidityBand {
    if exceeds(humidity, 9000) {
        HumidityBand::VeryHigh
    } else if exceeds(humidity, 7000) {
        HumidityBand::High
    } else {
        HumidityBand::Normal
    }
}

/// The band of a pressure: more than the margin above normal pressure is
/// high, more than the margin below it is low.
pub open spec fn pressure_band_of(pressure: u32) -> PressureBand {
    if exceeds(pressure, NORMAL_PRESSURE + PRESSURE_MARGIN) {
        PressureBand::High
    } else if falls_below(pressure, NORMAL_PRESSURE - PRESSURE_MARGIN) {
        PressureBand::Low
    } else {
        PressureBand::Normal
    }
}

/// Whether a reading calls for attention: hotter than 30, colder than 15, or
/// a humidity of 85 and more.
pub open spec fn alert_of(temp: u32, humidity: u32) -> bool {
    exceeds(temp, 3000) || falls_below(temp, 1500) || reaches(humidity, 8500)
}

/// The mark that a temperature band puts into a notification.
pub open spec fn temperature_mark(band: TemperatureBand) -> Seq<char> {
    match band {
        TemperatureBand::VeryCold => "\u{1F976}"@,
        TemperatureBand::Cold => "\u{2744}\u{FE0F}"@,
        TemperatureBand::Neutral => ""@,
        TemperatureBand::Warm => "\u{2600}\u{FE0F}"@,
        TemperatureBand::Hot => "\u{1F525}"@,
    }
}

/// The mark that a humidity band puts into a notification.
pub open spec fn humidity_mark(band: HumidityBand) -> Seq<char> {
    match band {
        HumidityBand::Normal => ""@,
        HumidityBand::High => "Do not forget an umbrella \u{2602}\u{FE0F}"@,
        HumidityBand::VeryHigh => "\u{1F327}"@,
    }
}

/// The mark that a pressure band puts into a notification.
pub open spec fn pressure_mark(band: PressureBand) -> Seq<char> {
    match band {
        PressureBand::Low => "\u{2B07}\u{FE0F} low pressure"@,
        PressureBand::Normal => ""@,
        PressureBand::High => "\u{2B06}\u{FE0F} high pressure"@,
    }
}

/// The width of the field a number is written into.
pub const NUMBER_WIDTH: usize = 10;

/// The notification for a message: the three marks, then one line each for
/// the temperature, the humidity and the pressure in millimetres of mercury,
/// every number right-aligned in ten characters with two decimal places.
pub open spec fn notification_of(msg: EspWeatherMessage) -> Seq<char> {
    temperature_mark(temperature_band_of(msg.temp)) + humidity_mark(
        humidity_band_of(msg.humidity),
    ) + pressure_mark(pressure_band_of(msg.pressure)) + "\n℃"@ + right_aligned_of(
        two_decimals_of(msg.temp),
        NUMBER_WIDTH as nat,
    ) + "\nВлажность"@ + right_aligned_of(
        two_decimals_of(msg.humidity),
        NUMBER_WIDTH as nat,
    ) + "%\nДавление"@ + right_aligned_of(
        two_decimals_of(mmhg_of(msg.pressure)),
        NUMBER_WIDTH as nat,
    ) + " мм рт.с."@
}

/// What the threshold patterns encode.
pub proof fn lemma_thresholds()
    ensures
        scaled(MINUS_TEN) == -10 * unit(),
        scaled(ZERO) == 0,
        scaled(FIFTEEN) == 15 * unit(),
        scaled(TWENTY) == 20 * unit(),
        scaled(THIRTY) == 30 * unit(),
        scaled(SEVENTY) == 70 * unit(),
        scaled(EIGHTY_FIVE) == 85 * unit(),
        scaled(NINETY) == 90 * unit(),
{
    lemma2_to64();
    lemma_scaled_normal(MINUS_TEN, 130, 0x20_0000);
    assert(scaled_magnitude(MINUS_TEN) * 0x10_0000 == 0xA0_0000 * unit());
    assert(scaled(MINUS_TEN) == -scaled_magnitude(MINUS_TEN));
    lemma_scaled_normal(FIFTEEN, 130, 0x70_0000);
    lemma_scaled_normal(TWENTY, 131, 0x20_0000);
    lemma_scaled_normal(THIRTY, 131, 0x70_0000);
    lemma_scaled_normal(SEVENTY, 133, 0x0C_0000);
    lemma_scaled_normal(EIGHTY_FIVE, 133, 0x2A_0000);
    lemma_scaled_normal(NINETY, 133, 0x34_0000);
}

/// A pressure is high exactly from [`HIGH_PRESSURE_FROM`] on, and low exactly
/// below [`LOW_PRESSURE_UNTIL`].
pub proof fn lemma_pressure_cuts(pressure: u32)
    requires
        !is_nan(pressure),
    ensures
        exceeds(pressure, NORMAL_PRESSURE + PRESSURE_MARGIN) <==> scaled(pressure) >= scaled(
            HIGH_PRESSURE_FROM,
        ),
        falls_below(pressure, NORMAL_PRESSURE - PRESSURE_MARGIN) <==> scaled(pressure) < scaled(
            LOW_PRESSURE_UNTIL,
        ),
{
    let high_before: u32 = 0x47C8_811C;
    let low_before: u32 = 0x47C3_4BE3;
    lemma2_to64();
    lemma_scaled_normal(HIGH_PRESSURE_FROM, 143, 0x48_811D);
    lemma_scaled_normal(high_before, 143, 0x48_811C);
    lemma_scaled_normal(LOW_PRESSURE_UNTIL, 143, 0x43_4BE4);
    lemma_scaled_normal(low_before, 143, 0x43_4BE3);
    lemma_order_key(pressure, HIGH_PRESSURE_FROM);
    lemma_order_key(pressure, high_before);
    lemma_order_key(pressure, LOW_PRESSURE_UNTIL);
    lemma_order_key(pressure, low_before);
}

/// One telemetry message of the weather station.
#[derive(Clone, Copy, Debug, PartialEq, Eq, Structural)]
pub struct EspWeatherMessage {
    /// Degrees Celsius.
    pub temp: u32,
    /// Pascals.
    pub pressure: u32,
    /// Percent of relative humidity.
    pub humidity: u32,
}

impl EspWeatherMessage {
    /// All three measurements are finite numbers.
    pub open spec fn wf(&self) -> bool {
        is_finite(self.temp) && is_finite(self.pressure) && is_finite(self.humidity)
    }

    /// The band of the temperature.
    pub fn temperature_band(&self) -> (band: TemperatureBand)
        ensures
            band == temperature_band_of(self.temp),
    {
        proof {
            lemma_thresholds();
        }
        if below(self.temp, MINUS_TEN) {
            TemperatureBand::VeryCold
        } else if below(self.temp, ZERO) {
            TemperatureBand::Cold
        } else if above(self.temp, THIRTY) {
            TemperatureBand::Hot
        } else if above(self.temp, TWENTY) {
            TemperatureBand::Warm
        } else {
            TemperatureBand::Neutral
        }
    }

    /// The band of the humidity.
    pub fn humidity_band(&self) -> (band: HumidityBand)
        ensures
            band == humidity_band_of(self.humidity),
    {
        proof {
            lemma_thresholds();
        }
        if above(self.humidity, NINETY) {
            HumidityBand::VeryHigh
        } else if above(self.humidity, SEVENTY) {
            HumidityBand::High
        } else {
            HumidityBand::Normal
        }
    }

    /// The band of the pressure.
    pub fn pressure_band(&self) -> (band: PressureBand)
        ensures
            band == pressure_band_of(self.pressure),
    {
        proof {
            if !is_nan(self.pressure) {
                lemma_pressure_cuts(self.pressure);
            }
        }
        if at_least(self.pressure, HIGH_PRESSURE_FROM) {
            PressureBand::High
        } else if below(self.pressure, LOW_PRESSURE_UNTIL) {
            PressureBand::Low
        } else {
            PressureBand::Normal
        }
    }

    /// The mark of the temperature band.
    pub fn temp_to_emoji(&self) -> (mark: &'static str)
        ensures
            mark@ == temperature_mark(temperature_band_of(self.temp)),
    {
        match self.temperature_band() {
            TemperatureBand::VeryCold => "\u{1F976}",
            TemperatureBand::Cold => "\u{2744}\u{FE0F}",
            TemperatureBand::Neutral => "",
            TemperatureBand::Warm => "\u{2600}\u{FE0F}",
            TemperatureBand::Hot => "\u{1F525}",
        }
    }

    /// The mark of the humidity band.
    pub fn humidity_to_emoji(&self) -> (mark: &'static str)
        ensures
            mark@ == humidity_mark(humidity_band_of(self.humidity)),
    {
        match self.humidity_band() {
            HumidityBand::Normal => "",
            HumidityBand::High => "Do not forget an umbrella \u{2602}\u{FE0F}",
            HumidityBand::VeryHigh => "\u{1F327}",
        }
    }

    /// The mark of the pressure band.
    pub fn pressure_to_enoji(&self) -> (mark: &'static str)
        ensures
            mark@ == pressure_mark(pressure_band_of(self.pressure)),
    {
        match self.pressure_band() {
            PressureBand::Low => "\u{2B07}\u{FE0F} low pressure",
            PressureBand::Normal => "",
            PressureBand::High => "\u{2B06}\u{FE0F} high pressure",
        }
    }

    /// Whether the message calls for attention.
    pub fn should_alert(&self) -> (alert: bool)
        ensures
            alert == alert_of(self.temp, self.humidity),
    {
        proof {
            lemma_thresholds();
        }
        above(self.temp, THIRTY) || below(self.temp, FIFTEEN) || at_least(
            self.humidity,
            EIGHTY_FIVE,
        )
    }

    /// The notification text for this message.
    pub fn render(&self) -> (text: String)
        ensures
            text@ == notification_of(*self),
    {
        let mut text: String = self.temp_to_emoji().to_owned();
        text.append(self.humidity_to_emoji());
        text.append(self.pressure_to_enoji());
        text.append("\n℃");
        let temperature: String = two_decimals(self.temp);
        text.append(right_aligned(temperature.as_str(), NUMBER_WIDTH).as_str());
        text.append("\nВлажность");
        let humidity: String = two_decimals(self.humidity);
        text.append(right_aligned(humidity.as_str(), NUMBER_WIDTH).as_str());
        text.append("%\nДавление");
        let pressure: String = two_decimals(pressure_in_mmhg(self.pressure));
        text.append(right_aligned(pressure.as_str(), NUMBER_WIDTH).as_str());
        text.append(" мм рт.с.");
        assert(text@ =~= notification_of(*self));
        text
    }
}

/// Why a payload was dropped.
#[derive(Clone, Copy, Debug, PartialEq, Eq, Structural)]
pub enum DecodeError {
    /// The bytes are not UTF-8 text.
    InvalidEncoding,
    /// The text does not hold the three numbers of a message.
    MalformedPayload,
}

/// What becomes of the numbers read out of a payload: a message where
/// there are three and all are finite.
pub open spec fn accepted(fields: Option<EspWeatherMessage>) -> Result<
    EspWeatherMessage,
    DecodeError,
> {
    match fields {
        Some(msg) => if msg.wf() {
            Ok(msg)
        } else {
            Err(DecodeError::MalformedPayload)
        },
        None => Err(DecodeError::MalformedPayload),
    }
}

/// What [`decode`] makes of a payload and of what was read out of it.
pub open spec fn decoded(raw: Seq<u8>, fields: Option<EspWeatherMessage>) -> Result<
    EspWeatherMessage,
    DecodeError,
> {
    if !valid_utf8(raw) {
        Err(DecodeError::InvalidEncoding)
    } else {
        accepted(fields)
    }
}

/// Text that can be decoded is decoded as it is: where the bytes are UTF-8
/// and the three numbers read out of them are finite, the message holds
/// exactly these numbers.
pub proof fn law_decode_keeps_fields(raw: Seq<u8>, msg: EspWeatherMessage)
    requires
        valid_utf8(raw),
        msg.wf(),
    ensures
        decoded(raw, Some(msg)) == Ok::<EspWeatherMessage, DecodeError>(msg),
{
}

/// Everything else is refused: bytes that are not UTF-8 for their encoding,
/// and text without three finite numbers as malformed.
pub proof fn law_decode_refuses(raw: Seq<u8>, fields: Option<EspWeatherMessage>)
    requires
        !valid_utf8(raw) || fields is None || !fields->0.wf(),
    ensures
        decoded(raw, fields) is Err,
        !valid_utf8(raw) ==> decoded(raw, fields) == Err::<EspWeatherMessage, DecodeError>(
            DecodeError::InvalidEncoding,
        ),
        valid_utf8(raw) ==> decoded(raw, fields) == Err::<EspWeatherMessage, DecodeError>(
            DecodeError::MalformedPayload,
        ),
{
}

/// `String::from_utf8` of the standard library: the bytes as a string where
/// they are valid UTF-8, with the characters they encode, and nothing where
/// they are not.
#[verifier::external_body]
fn utf8_text(raw: Vec<u8>) -> (text: Option<String>)
    ensures
        text is Some <==> valid_utf8(raw@),
        text is Some ==> text->0@ == decode_utf8(raw@),
{
    match String::from_utf8(raw) {
        Ok(text) => Some(text),
        Err(_) => None,
    }
}

/// The text of a payload, for the reader of its fields.
pub fn payload_text(raw: Vec<u8>) -> (text: Result<String, DecodeError>)
    ensures
        valid_utf8(raw@) ==> text is Ok && text->Ok_0@ == decode_utf8(raw@),
        !valid_utf8(raw@) ==> text == Err::<String, DecodeError>(DecodeError::InvalidEncoding),
{
    match utf8_text(raw) {
        Some(text) => Ok(text),
        None => Err(DecodeError::InvalidEncoding),
    }
}

/// Checks the three numbers read out of a payload: a message is accepted
/// unchanged when all three are finite.
pub fn accept_fields(fields: Option<EspWeatherMessage>) -> (msg: Result<
    EspWeatherMessage,
    DecodeError,
>)
    ensures
        msg == accepted(fields),
{
    match fields {
        Some(m) => {
            if finite(m.temp) && finite(m.pressure) && finite(m.humidity) {
                Ok(m)
            } else {
                Err(DecodeError::MalformedPayload)
            }
        },
        None => Err(DecodeError::MalformedPayload),
    }
}

/// Decodes one payload.  `fields` is what the reader of the payload's text
/// found in it: the three numbers, or nothing where the text does not hold
/// them.  Bytes that are no text are refused before the fields are looked
/// at; an accepted message holds the three numbers bit for bit.
pub fn decode(raw: Vec<u8>, fields: Option<EspWeatherMessage>) -> (msg: Result<
    EspWeatherMessage,
    DecodeError,
>)
    ensures
        msg == decoded(raw@, fields),
{
    match payload_text(raw) {
        Ok(_) => accept_fields(fields),
        Err(error) => Err(error),
    }
}

} // verus!
