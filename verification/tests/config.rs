//! Configuration: defaults, validation and setup state.
use weathernode::config::{Config, ConfigError, SetupState};

fn problem(c: &Config) -> String {
    match c.validate() {
        Ok(()) => String::new(),
        Err(e) => e.message(),
    }
}

#[test]
fn defaults() {
    let c = Config::default();
    assert_eq!(c.device_name, "weathernode");
    assert_eq!(c.room, "");
    assert_eq!(c.wifi_ssid, "");
    assert_eq!(c.wifi_password, "");
    assert_eq!(c.mqtt_server, "");
    assert_eq!(c.mqtt_port, 1883);
    assert_eq!(c.mqtt_user, "");
    assert_eq!(c.mqtt_password, "");
    assert_eq!(c.mqtt_topic, "/data/nodes");
    assert_eq!(c.sleep_minutes, 5);
    assert_eq!(c.mqtt_qos, 0);
    assert_eq!(c.bme280_addr, 0x76);
    assert_eq!((c.sda_pin, c.scl_pin, c.adc_pin), (21, 22, 33));
    assert!(c.send_temperature && c.send_pressure && c.send_humidity && c.send_battery);
    assert!(c.validate().is_ok());
}

#[test]
fn input_only_pins_are_rejected() {
    let c = Config { sda_pin: 34, scl_pin: 39, ..Config::default() };
    assert_eq!(problem(&c), "invalid config: SDA GPIO34 is input-only on ESP32 (valid: 0–33)");
    let c = Config { scl_pin: 255, ..Config::default() };
    assert_eq!(problem(&c), "invalid config: SCL GPIO255 is input-only on ESP32 (valid: 0–33)");
}

#[test]
fn equal_pins_are_rejected() {
    let c = Config { sda_pin: 0, scl_pin: 0, ..Config::default() };
    assert_eq!(
        problem(&c),
        "invalid config: SDA and SCL must be different pins (both GPIO0)"
    );
}

#[test]
fn other_adc_pins_are_rejected_with_the_battery_on() {
    let c = Config { adc_pin: 31, ..Config::default() };
    assert_eq!(
        problem(&c),
        "invalid config: ADC GPIO31 is not an ADC1 channel (valid: 32–39)"
    );
    let c = Config { adc_pin: 40, ..Config::default() };
    assert_eq!(
        problem(&c),
        "invalid config: ADC GPIO40 is not an ADC1 channel (valid: 32–39)"
    );
    let c = Config { adc_pin: 40, send_battery: false, ..Config::default() };
    assert!(c.validate().is_ok());
}

#[test]
fn conflicting_adc_pins_are_rejected_with_the_battery_on() {
    let c = Config { sda_pin: 33, ..Config::default() };
    assert_eq!(
        problem(&c),
        "invalid config: ADC GPIO33 conflicts with I²C pins (SDA=33 SCL=22)"
    );
    let c = Config { scl_pin: 32, adc_pin: 32, ..Config::default() };
    assert_eq!(
        problem(&c),
        "invalid config: ADC GPIO32 conflicts with I²C pins (SDA=21 SCL=32)"
    );
    let c = Config { sda_pin: 33, send_battery: false, ..Config::default() };
    assert!(c.validate().is_ok());
}

#[test]
fn extreme_pins_are_accepted() {
    for adc_pin in 32..=39 {
        let c = Config { adc_pin, ..Config::default() };
        assert!(c.validate().is_ok());
    }
    let c = Config { sda_pin: 0, scl_pin: 33, adc_pin: 32, ..Config::default() };
    assert!(c.validate().is_ok());
}

#[test]
fn error_messages() {
    assert_eq!(ConfigError::Storage("full".to_string()).message(), "NVS error: full");
    assert_eq!(
        ConfigError::Validation("pins".to_string()).message(),
        "invalid config: pins"
    );
}

#[test]
fn setup_states() {
    let mut c = Config::default();
    assert_eq!(c.setup_state(), SetupState::Incomplete);
    c.mqtt_server = "10.0.0.1".to_string();
    assert_eq!(c.setup_state(), SetupState::Incomplete);
    c.wifi_ssid = "Net".to_string();
    assert_eq!(c.setup_state(), SetupState::Complete);
    c.mqtt_server = String::new();
    assert_eq!(c.setup_state(), SetupState::WifiOnly);
}
