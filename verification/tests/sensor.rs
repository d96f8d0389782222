//! BME280 registers, calibration and samples.
use weathernode::config::Config;
use weathernode::sensor::{
    decode_calibration, decode_sample, trigger_forced, Bme280Config, Channels, Reading, Sample,
};

fn channels(t: bool, p: bool, h: bool) -> Bme280Config {
    Bme280Config { addr: 0x76, send_temperature: t, send_pressure: p, send_humidity: h }
}

#[test]
fn config_of_the_sensor() {
    let c = Config { send_pressure: false, ..Config::default() };
    assert_eq!(Bme280Config::from_config(&c), channels(true, false, true));
    assert_eq!(Bme280Config::all_channels(), channels(true, true, true));
    assert!(channels(false, false, true).any_channel());
    assert!(!channels(false, false, false).any_channel());
}

#[test]
fn only_enabled_channels_are_triggered() {
    assert_eq!(
        trigger_forced(&channels(true, true, true)),
        vec![(0xF2, 0b001), (0xF4, 0b001_001_01)]
    );
    assert_eq!(
        trigger_forced(&channels(false, true, false)),
        vec![(0xF2, 0), (0xF4, 0b001_001_01)]
    );
    assert_eq!(
        trigger_forced(&channels(false, false, true)),
        vec![(0xF2, 1), (0xF4, 0b001_000_01)]
    );
    assert_eq!(
        trigger_forced(&channels(true, false, false)),
        vec![(0xF2, 0), (0xF4, 0b001_000_01)]
    );
    assert_eq!(trigger_forced(&channels(false, false, false)), vec![(0xF2, 0), (0xF4, 1)]);
}

#[test]
fn calibration_values() {
    let tp = [
        0x70, 0x6B, 0x43, 0x67, 0x18, 0xFC, 0x7D, 0x8E, 0x43, 0xD6, 0xD0, 0x0B, 0x27, 0x0B,
        0x8C, 0x00, 0xF9, 0xFF, 0x8C, 0x3C, 0xF8, 0xC6, 0x70, 0x17,
    ];
    let c = decode_calibration(&tp, 75, &[0x6A, 0x01, 0x00, 0x13, 0x2A, 0x03, 0x1E]);
    assert_eq!((c.t1, c.t2, c.t3), (27504, 26435, -1000));
    assert_eq!((c.p1, c.p2, c.p3, c.p4, c.p5), (36477, -10685, 3024, 2855, 140));
    assert_eq!((c.p6, c.p7, c.p8, c.p9), (-7, 15500, -14600, 6000));
    assert_eq!((c.h1, c.h2, c.h3, c.h6), (75, 362, 0, 30));
    assert_eq!((c.h4, c.h5), (0x13A, 0x032));
}

#[test]
fn negative_humidity_calibration() {
    let c = decode_calibration(&[0; 24], 0, &[0, 0x80, 255, 0xFF, 0xEF, 0x80, 0x80]);
    assert_eq!(c.h2, -32768);
    assert_eq!(c.h3, 255);
    assert_eq!(c.h4, -1);
    assert_eq!(c.h5, 0x80E - 0x1000);
    assert_eq!(c.h6, -128);
}

#[test]
fn samples() {
    let s = decode_sample(&[0x65, 0x5A, 0xC0, 0x7E, 0xED, 0x00, 0x6B, 0x12]);
    assert_eq!((s.adc_p, s.adc_t, s.adc_h), (415148, 519888, 27410));
    let s = decode_sample(&[0xFF; 8]);
    assert_eq!((s.adc_p, s.adc_t, s.adc_h), (0xFFFFF, 0xFFFFF, 0xFFFF));
}

#[test]
fn skipped_channels_are_not_reported() {
    let s = decode_sample(&[0x80, 0, 0, 0x80, 0, 0, 0x80, 0]);
    assert_eq!(s, Sample { adc_p: 0x80000, adc_t: 0x80000, adc_h: 0x8000 });
    assert!(!s.has_temperature());
    assert_eq!(
        s.channels(&channels(true, true, true)),
        Channels { temperature: false, pressure: false, humidity: false }
    );
    let s = Sample { adc_p: 1, adc_t: 2, adc_h: 0x8000 };
    assert!(s.has_temperature());
    assert_eq!(
        s.channels(&channels(true, true, true)),
        Channels { temperature: true, pressure: true, humidity: false }
    );
}

#[test]
fn unwanted_channels_are_not_reported() {
    let s = Sample { adc_p: 1, adc_t: 2, adc_h: 3 };
    assert_eq!(
        s.channels(&channels(false, true, false)),
        Channels { temperature: false, pressure: true, humidity: false }
    );
}

#[test]
fn readings_have_two_places() {
    let text = |hundredths| Reading { hundredths }.text();
    assert_eq!(text(2135), "21.35");
    assert_eq!(text(5420), "54.20");
    assert_eq!(text(101325), "1013.25");
    assert_eq!(text(0), "0.00");
    assert_eq!(text(7), "0.07");
    assert_eq!(text(-315), "-3.15");
    assert_eq!(text(-5), "-0.05");
    assert_eq!(text(i64::MAX), "92233720368547758.07");
    assert_eq!(text(i64::MIN), "-92233720368547758.08");
}
