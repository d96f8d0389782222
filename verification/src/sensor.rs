//! BME280 (I²C) sensor: registers, calibration and raw samples.
//!
//! The sensor is driven in forced mode (one-shot measurement). The floating
//! point compensation of the raw samples is left to the caller.
use vstd::prelude::*;
use vstd::string::*;

use crate::config;
use crate::config::Config;
use crate::json;
use crate::text;
use crate::text::decimal_text;

verus! {

// ---------------------------------------------------------------------------
// Readings
// ---------------------------------------------------------------------------

/// A reading, rounded to two places.
#[derive(Debug, Clone, Copy, PartialEq, Eq, Structural)]
pub struct Reading {
    /// How many hundredths of its unit.
    pub hundredths: i64,
}

/// The magnitude of a number.
pub open spec fn magnitude(h: int) -> nat {
    if h < 0 {
        (-h) as nat
    } else {
        h as nat
    }
}

/// A number of hundredths as a decimal number with two places.
pub open spec fn two_places(h: int) -> Seq<char> {
    let m = magnitude(h);
    let sign = if h < 0 {
        seq!['-']
    } else {
        Seq::empty()
    };
    sign + text::decimal(m / 100) + seq![
        '.',
        text::digit_char((m / 10 % 10) as int),
        text::digit_char((m % 10) as int),
    ]
}

impl View for Reading {
    type V = Seq<char>;

    /// The reading as a decimal number with two places.
    open spec fn view(&self) -> Seq<char> {
        two_places(self.hundredths as int)
    }
}

impl Reading {
    /// The reading as a decimal number with two places.
    pub fn text(&self) -> (r: String)
        ensures
            r@ == self@,
    {
        let h: i128 = self.hundredths as i128;
        let m: u64 = (if h < 0 {
            -h
        } else {
            h
        }) as u64;
        let mut out = String::new();
        if h < 0 {
            out.push('-');
        }
        out.append(decimal_text(m / 100).as_str());
        out.push('.');
        out.append(decimal_text(m / 10 % 10).as_str());
        out.append(decimal_text(m % 10).as_str());
        assert(out@ =~= two_places(h as int));
        out
    }
}

/// The readings of one cycle.
#[derive(Debug, Clone, Copy)]
pub struct SensorData {
    /// °C
    pub temperature: Option<Reading>,
    /// hPa
    pub pressure: Option<Reading>,
    /// %RH
    pub humidity: Option<Reading>,
    /// V
    pub battery_voltage: Option<Reading>,
}

/// An optional text by what it holds.
pub open spec fn option_view(o: Option<String>) -> Option<Seq<char>> {
    match o {
        Some(s) => Some(s@),
        None => None,
    }
}

/// Minimal BME280 configuration, decoupled from the runtime `Config` struct.
#[derive(Debug, Clone, Copy, PartialEq, Eq, Structural)]
pub struct Bme280Config {
    /// I²C address (0x76 or 0x77).
    pub addr: u8,
    pub send_temperature: bool,
    pub send_pressure: bool,
    pub send_humidity: bool,
}

/// What `c` asks of the sensor.
pub open spec fn bme280_config_of(c: config::ConfigView) -> Bme280Config {
    Bme280Config {
        addr: c.bme280_addr,
        send_temperature: c.send_temperature,
        send_pressure: c.send_pressure,
        send_humidity: c.send_humidity,
    }
}

impl Bme280Config {
    /// What `c` asks of the sensor.
    pub fn from_config(c: &Config) -> (r: Bme280Config)
        ensures
            r == bme280_config_of(c@),
    {
        Bme280Config {
            addr: c.bme280_addr,
            send_temperature: c.send_temperature,
            send_pressure: c.send_pressure,
            send_humidity: c.send_humidity,
        }
    }

    /// A test of every channel, as the portal offers it.
    pub fn all_channels() -> (r: Bme280Config)
        ensures
            r == (Bme280Config {
                addr: config::BME280_ADDR,
                send_temperature: true,
                send_pressure: true,
                send_humidity: true,
            }),
    {
        Bme280Config {
            addr: config::BME280_ADDR,
            send_temperature: true,
            send_pressure: true,
            send_humidity: true,
        }
    }

    /// Whether any channel of the sensor is asked for.
    pub open spec fn any(self) -> bool {
        self.send_temperature || self.send_pressure || self.send_humidity
    }

    /// Whether the I²C bus has to be opened at all.
    pub fn any_channel(&self) -> (r: bool)
        ensures
            r == self.any(),
    {
        self.send_temperature || self.send_pressure || self.send_humidity
    }
}

// ---------------------------------------------------------------------------
// Forced-mode trigger
// ---------------------------------------------------------------------------

/// The register of the humidity oversampling.
pub const REG_CTRL_HUM: u8 = 0xF2;

/// The register of the other oversamplings and the mode.
pub const REG_CTRL_MEAS: u8 = 0xF4;

/// How long a measurement may take, in milliseconds: 2 ms and 2.3 ms for each
/// of three channels are about 9 ms.
pub const MEASURE_MS: u32 = 15;

/// The oversampling field of a channel: once if it is measured, else not at all.
pub open spec fn oversampling(measured: bool) -> int {
    if measured {
        1
    } else {
        0
    }
}

/// The registers that start a measurement, with their values, in order.
/// Temperature is measured with any channel, because the compensation of the
/// others depends on it; the humidity register takes effect with the one
/// written after it.
pub open spec fn forced_mode(cfg: Bme280Config) -> Seq<(u8, u8)> {
    seq![
        (REG_CTRL_HUM, oversampling(cfg.send_humidity) as u8),
        (
            REG_CTRL_MEAS,
            (oversampling(cfg.any()) * 32 + oversampling(cfg.send_pressure) * 4 + 1) as u8,
        ),
    ]
}

/// The registers that start a measurement, with their values, in order.
pub fn trigger_forced(cfg: &Bme280Config) -> (writes: Vec<(u8, u8)>)
    ensures
        writes@ == forced_mode(*cfg),
{
    let osrs_t: u8 = if cfg.any_channel() {
        1
    } else {
        0
    };
    let osrs_p: u8 = if cfg.send_pressure {
        1
    } else {
        0
    };
    let osrs_h: u8 = if cfg.send_humidity {
        1
    } else {
        0
    };
    let mut writes: Vec<(u8, u8)> = Vec::new();
    writes.push((REG_CTRL_HUM, osrs_h));
    writes.push((REG_CTRL_MEAS, osrs_t * 32 + osrs_p * 4 + 1));
    assert(writes@ =~= forced_mode(*cfg));
    writes
}

// ---------------------------------------------------------------------------
// Calibration data
// ---------------------------------------------------------------------------

/// The first register of the temperature and pressure calibration, of 24.
pub const REG_CALIB_TP: u8 = 0x88;

/// The register of the first humidity calibration value.
pub const REG_CALIB_H1: u8 = 0xA1;

/// The first register of the other humidity calibration values, of 7.
pub const REG_CALIB_H: u8 = 0xE1;

/// The calibration values of one sensor.
#[derive(Debug, Clone, Copy, PartialEq, Eq, Structural)]
pub struct Calib {
    pub t1: u16,
    pub t2: i16,
    pub t3: i16,
    pub p1: u16,
    pub p2: i16,
    pub p3: i16,
    pub p4: i16,
    pub p5: i16,
    pub p6: i16,
    pub p7: i16,
    pub p8: i16,
    pub p9: i16,
    pub h1: u8,
    pub h2: i16,
    pub h3: u8,
    pub h4: i16,
    pub h5: i16,
    pub h6: i8,
}

/// Two bytes, the low one first, as a number.
pub open spec fn le16(lo: u8, hi: u8) -> int {
    lo + 256 * hi
}

/// A number of `2 * half` values whose upper half stands for negative ones.
pub open spec fn signed(n: int, half: int) -> int {
    if n < half {
        n
    } else {
        n - 2 * half
    }
}

/// Two bytes, the low one first, as a signed number.
pub open spec fn signed_le16(lo: u8, hi: u8) -> int {
    signed(le16(lo, hi), 0x8000)
}

/// The calibration values in the registers `tp` from 0x88 on, `h1` at 0xA1 and
/// `h` from 0xE1 on. H4 and H5 are signed numbers of 12 bits that share the
/// register 0xE5: H4 has its low half, H5 its high half.
pub open spec fn calibration(tp: Seq<u8>, h1: u8, h: Seq<u8>) -> Calib {
    Calib {
        t1: le16(tp[0], tp[1]) as u16,
        t2: signed_le16(tp[2], tp[3]) as i16,
        t3: signed_le16(tp[4], tp[5]) as i16,
        p1: le16(tp[6], tp[7]) as u16,
        p2: signed_le16(tp[8], tp[9]) as i16,
        p3: signed_le16(tp[10], tp[11]) as i16,
        p4: signed_le16(tp[12], tp[13]) as i16,
        p5: signed_le16(tp[14], tp[15]) as i16,
        p6: signed_le16(tp[16], tp[17]) as i16,
        p7: signed_le16(tp[18], tp[19]) as i16,
        p8: signed_le16(tp[20], tp[21]) as i16,
        p9: signed_le16(tp[22], tp[23]) as i16,
        h1,
        h2: signed_le16(h[0], h[1]) as i16,
        h3: h[2],
        h4: signed(h[3] * 16 + h[4] as int % 16, 0x800) as i16,
        h5: signed(h[5] * 16 + h[4] as int / 16, 0x800) as i16,
        h6: signed(h[6] as int, 0x80) as i8,
    }
}

/// Two bytes, the low one first, as a number.
fn u16le(lo: u8, hi: u8) -> (r: u16)
    ensures
        r == le16(lo, hi),
{
    lo as u16 + 256 * (hi as u16)
}

/// Two bytes, the low one first, as a signed number.
fn i16le(lo: u8, hi: u8) -> (r: i16)
    ensures
        r == signed_le16(lo, hi),
{
    let n: i32 = lo as i32 + 256 * (hi as i32);
    (if n < 0x8000 {
        n
    } else {
        n - 0x10000
    }) as i16
}

/// A number of 12 bits, eight in `high` and four in `low`, as a signed number.
fn i12(high: u8, low: u8) -> (r: i16)
    requires
        low < 16,
    ensures
        r == signed(high * 16 + low, 0x800),
{
    let n: i16 = high as i16 * 16 + low as i16;
    if n < 0x800 {
        n
    } else {
        n - 0x1000
    }
}

/// Reads the calibration values out of their registers.
pub fn decode_calibration(tp: &[u8; 24], h1: u8, h: &[u8; 7]) -> (c: Calib)
    ensures
        c == calibration(tp@, h1, h@),
{
    Calib {
        t1: u16le(tp[0], tp[1]),
        t2: i16le(tp[2], tp[3]),
        t3: i16le(tp[4], tp[5]),
        p1: u16le(tp[6], tp[7]),
        p2: i16le(tp[8], tp[9]),
        p3: i16le(tp[10], tp[11]),
        p4: i16le(tp[12], tp[13]),
        p5: i16le(tp[14], tp[15]),
        p6: i16le(tp[16], tp[17]),
        p7: i16le(tp[18], tp[19]),
        p8: i16le(tp[20], tp[21]),
        p9: i16le(tp[22], tp[23]),
        h1,
        h2: i16le(h[0], h[1]),
        h3: h[2],
        h4: i12(h[3], h[4] % 16),
        h5: i12(h[5], h[4] / 16),
        h6: (if h[6] < 0x80 {
            h[6] as i16
        } else {
            h[6] as i16 - 0x100
        }) as i8,
    }
}

// ---------------------------------------------------------------------------
// Raw samples
// ---------------------------------------------------------------------------

/// The first register of the raw samples, of 8.
pub const REG_RAW: u8 = 0xF7;

/// The raw sample of a pressure or temperature channel that was skipped.
pub const SKIPPED_TP: i32 = 0x80000;

/// The raw sample of a humidity channel that was skipped.
pub const SKIPPED_H: i32 = 0x8000;

/// The raw samples of one measurement.
#[derive(Debug, Clone, Copy, PartialEq, Eq, Structural)]
pub struct Sample {
    /// Pressure, 20 bits.
    pub adc_p: i32,
    /// Temperature, 20 bits.
    pub adc_t: i32,
    /// Humidity, 16 bits.
    pub adc_h: i32,
}

/// 20 bits in two bytes and the upper half of a third.
pub open spec fn be20(a: u8, b: u8, c: u8) -> int {
    a * 4096 + b * 16 + c as int / 16
}

/// The raw samples in the registers `raw` from 0xF7 on.
pub open spec fn sample_of(raw: Seq<u8>) -> Sample {
    Sample {
        adc_p: be20(raw[0], raw[1], raw[2]) as i32,
        adc_t: be20(raw[3], raw[4], raw[5]) as i32,
        adc_h: (raw[6] * 256 + raw[7]) as i32,
    }
}

/// 20 bits in two bytes and the upper half of a third.
fn i20(a: u8, b: u8, c: u8) -> (r: i32)
    ensures
        r == be20(a, b, c),
        0 <= r < 0x100000,
{
    a as i32 * 4096 + b as i32 * 16 + (c / 16) as i32
}

/// Reads the raw samples out of their registers.
pub fn decode_sample(raw: &[u8; 8]) -> (s: Sample)
    ensures
        s == sample_of(raw@),
        0 <= s.adc_p < 0x100000,
        0 <= s.adc_t < 0x100000,
        0 <= s.adc_h < 0x10000,
{
    Sample {
        adc_p: i20(raw[0], raw[1], raw[2]),
        adc_t: i20(raw[3], raw[4], raw[5]),
        adc_h: raw[6] as i32 * 256 + raw[7] as i32,
    }
}

/// The channels of a sample that are compensated and reported.
#[derive(Debug, Clone, Copy, PartialEq, Eq, Structural)]
pub struct Channels {
    pub temperature: bool,
    pub pressure: bool,
    pub humidity: bool,
}

impl Sample {
    /// Whether the sample has a temperature, which the compensation of the
    /// other channels starts from.
    pub fn has_temperature(&self) -> (r: bool)
        ensures
            r == (self.adc_t != SKIPPED_TP),
    {
        self.adc_t != SKIPPED_TP
    }

    /// The channels that are reported: those that were asked for and that the
    /// sensor did not skip.
    pub open spec fn reported(self, cfg: Bme280Config) -> Channels {
        Channels {
            temperature: cfg.send_temperature && self.adc_t != SKIPPED_TP,
            pressure: cfg.send_pressure && self.adc_p != SKIPPED_TP,
            humidity: cfg.send_humidity && self.adc_h != SKIPPED_H,
        }
    }

    /// The channels that are compensated and reported.
    pub fn channels(&self, cfg: &Bme280Config) -> (r: Channels)
        ensures
            r == self.reported(*cfg),
    {
        Channels {
            temperature: cfg.send_temperature && self.adc_t != SKIPPED_TP,
            pressure: cfg.send_pressure && self.adc_p != SKIPPED_TP,
            humidity: cfg.send_humidity && self.adc_h != SKIPPED_H,
        }
    }
}

// ---------------------------------------------------------------------------
// Laws
// ---------------------------------------------------------------------------

/// Whether `s` is a decimal number with two places: perhaps a minus sign, then
/// digits without a needless zero in front, a point and two digits.
pub open spec fn is_two_places(s: Seq<char>) -> bool {
    let t = if s.len() > 0 && s[0] == '-' {
        s.skip(1)
    } else {
        s
    };
    let n = t.len() - 3;
    &&& n >= 1
    &&& text::all_digits(t.take(n))
    &&& n > 1 ==> t[0] != '0'
    &&& t[n] == '.'
    &&& text::is_digit(t[n + 1])
    &&& text::is_digit(t[n + 2])
}

/// A decimal has no needless zero in front.
proof fn lemma_decimal_starts(n: nat)
    ensures
        text::decimal(n).len() > 1 ==> text::decimal(n)[0] != '0',
        n > 0 ==> text::decimal(n)[0] != '0',
    decreases n,
{
    text::lemma_decimal(n);
    if n >= 10 {
        text::lemma_decimal(n / 10);
        lemma_decimal_starts(n / 10);
        assert(text::decimal(n)[0] == text::decimal(n / 10)[0]);
    }
}

/// Every reading is written as a number with two places, which stands for it.
pub proof fn readings_have_two_places(h: int)
    ensures
        is_two_places(two_places(h)),
        h < 0 <==> two_places(h)[0] == '-',
        ({
            let t = if h < 0 {
                two_places(h).skip(1)
            } else {
                two_places(h)
            };
            let n = t.len() - 3;
            text::digits_value(t.take(n)) * 100 + text::digits_value(t.skip(n + 1)) == magnitude(h)
        }),
{
    let m = magnitude(h);
    let s = two_places(h);
    let whole = text::decimal(m / 100);
    let tens = text::digit_char((m / 10 % 10) as int);
    let ones = text::digit_char((m % 10) as int);
    let t = if h < 0 {
        s.skip(1)
    } else {
        s
    };
    text::lemma_decimal(m / 100);
    lemma_decimal_starts(m / 100);
    assert(text::is_digit(whole[0]));
    assert(t =~= whole + seq!['.', tens, ones]);
    let n = t.len() - 3;
    assert(t.take(n) =~= whole);
    assert(t.skip(n + 1) =~= seq![tens, ones]);
    assert(seq![tens, ones].drop_last() =~= seq![tens]);
    assert(seq![tens].drop_last() =~= Seq::<char>::empty());
    reveal_with_fuel(text::digits_value, 3);
    assert(text::digits_value(seq![tens, ones]) == m % 100);
}

/// A reading is written as itself in JSON, with or without quotes.
pub proof fn lemma_reading_in_json(h: int)
    ensures
        json::is_plain(two_places(h)),
        json::is_bare(two_places(h)),
{
    let m = magnitude(h);
    let s = two_places(h);
    let whole = text::decimal(m / 100);
    let k: int = if h < 0 {
        1
    } else {
        0
    };
    text::lemma_decimal(m / 100);
    assert forall|i: int| 0 <= i < s.len() implies text::is_digit(#[trigger] s[i]) || s[i] == '-'
        || s[i] == '.' by {
        if k <= i < k + whole.len() {
            assert(s[i] == whole[i - k]);
        }
    }
}

/// Only what is asked for is measured: the pressure and humidity fields are
/// set exactly for their channels, temperature whenever any channel is on, the
/// mode is one-shot, and the humidity register is written first.
pub proof fn only_enabled_channels_are_measured(cfg: Bme280Config)
    ensures
        forced_mode(cfg).len() == 2,
        forced_mode(cfg)[0].0 == REG_CTRL_HUM,
        forced_mode(cfg)[1].0 == REG_CTRL_MEAS,
        forced_mode(cfg)[0].1 == 1 <==> cfg.send_humidity,
        forced_mode(cfg)[0].1 <= 1,
        (forced_mode(cfg)[1].1 as int / 32) % 8 == oversampling(cfg.any()),
        (forced_mode(cfg)[1].1 as int / 4) % 8 == oversampling(cfg.send_pressure),
        forced_mode(cfg)[1].1 as int % 4 == 1,
{
}

/// A channel is reported exactly if it was asked for and its raw sample is not
/// the one value that marks a skipped channel: 0x80000 of temperature and
/// pressure, 0x8000 of humidity.
pub proof fn measured_channels_are_reported(s: Sample, cfg: Bme280Config)
    ensures
        s.reported(cfg).temperature <==> cfg.send_temperature && s.adc_t != 0x80000,
        s.reported(cfg).pressure <==> cfg.send_pressure && s.adc_p != 0x80000,
        s.reported(cfg).humidity <==> cfg.send_humidity && s.adc_h != 0x8000,
{
}

/// The calibration values are what their registers hold, the low byte first:
/// unsigned values exactly, signed ones up to the 2^16 that tells the sign. H4
/// and H5 have 12 bits and share a register, H6 has 8 bits.
pub proof fn calibration_is_what_the_registers_hold(tp: Seq<u8>, h1: u8, h: Seq<u8>)
    requires
        tp.len() == 24,
        h.len() == 7,
    ensures
        ({
            let c = calibration(tp, h1, h);
            let word = |i: int| tp[i] + 256 * tp[i + 1];
            &&& c.t1 == word(0)
            &&& (c.t2 - word(2)) % 65536 == 0
            &&& (c.t3 - word(4)) % 65536 == 0
            &&& c.p1 == word(6)
            &&& (c.p2 - word(8)) % 65536 == 0
            &&& (c.p3 - word(10)) % 65536 == 0
            &&& (c.p4 - word(12)) % 65536 == 0
            &&& (c.p5 - word(14)) % 65536 == 0
            &&& (c.p6 - word(16)) % 65536 == 0
            &&& (c.p7 - word(18)) % 65536 == 0
            &&& (c.p8 - word(20)) % 65536 == 0
            &&& (c.p9 - word(22)) % 65536 == 0
            &&& c.h1 == h1
            &&& (c.h2 - (h[0] + 256 * h[1])) % 65536 == 0
            &&& c.h3 == h[2]
            &&& -2048 <= c.h4 < 2048
            &&& (c.h4 - (16 * h[3] + h[4] as int % 16)) % 4096 == 0
            &&& -2048 <= c.h5 < 2048
            &&& (c.h5 - (16 * h[5] + h[4] as int / 16)) % 4096 == 0
            &&& (c.h6 - h[6]) % 256 == 0
        }),
{
}

/// The raw samples are what their registers hold, the high byte first: 20 bits of
/// pressure and of temperature, whose last register has four bits more, and 16
/// bits of humidity.
pub proof fn samples_are_what_the_registers_hold(raw: Seq<u8>)
    requires
        raw.len() == 8,
    ensures
        ({
            let s = sample_of(raw);
            let bits = |i: int| raw[i] * 65536 + raw[i + 1] * 256 + raw[i + 2];
            &&& s.adc_p * 16 <= bits(0) < s.adc_p * 16 + 16
            &&& s.adc_t * 16 <= bits(3) < s.adc_t * 16 + 16
            &&& s.adc_h == raw[6] * 256 + raw[7]
        }),
{
}

/// The sensor is asked for exactly what the configuration says.
pub proof fn sensor_is_asked_for_what_is_configured(c: config::ConfigView)
    ensures
        bme280_config_of(c).addr == c.bme280_addr,
        bme280_config_of(c).send_temperature == c.send_temperature,
        bme280_config_of(c).send_pressure == c.send_pressure,
        bme280_config_of(c).send_humidity == c.send_humidity,
        bme280_config_of(c).any() <==> c.send_temperature || c.send_pressure || c.send_humidity,
{
}

/// A measurement writes two registers: first the humidity oversampling, then the
/// one-shot mode with the others. A channel is measured once or not at all.
pub proof fn measurement_takes_two_writes(cfg: Bme280Config)
    ensures
        ({
            let once = |on: bool|
                if on {
                    1int
                } else {
                    0
                };
            &&& forced_mode(cfg).len() == 2
            &&& forced_mode(cfg)[0].0 == 0xF2
            &&& forced_mode(cfg)[0].1 == once(cfg.send_humidity)
            &&& forced_mode(cfg)[1].0 == 0xF4
            &&& forced_mode(cfg)[1].1 == 32 * once(
                cfg.send_temperature || cfg.send_pressure || cfg.send_humidity,
            ) + 4 * once(cfg.send_pressure) + 1
        }),
{
}

} // verus!
