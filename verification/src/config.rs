//! Runtime configuration: its defaults, its validity and how complete it is.
use vstd::prelude::*;
use vstd::string::*;

use crate::text;
use crate::text::decimal_text;

verus! {

// ---------------------------------------------------------------------------
// Config
// ---------------------------------------------------------------------------

/// What the node is told over the portal and keeps in non-volatile storage.
#[derive(Debug, Clone)]
pub struct Config {
    pub device_name: String,
    pub room: String,
    pub wifi_ssid: String,
    pub wifi_password: String,
    pub mqtt_server: String,
    pub mqtt_port: u16,
    pub mqtt_user: String,
    pub mqtt_password: String,
    pub mqtt_topic: String,
    pub sleep_minutes: u32,
    /// MQTT QoS level: 0 = AtMostOnce (default, no ACK), 1 = AtLeastOnce (PUBACK).
    pub mqtt_qos: u8,
    /// I²C address of the BME280.
    pub bme280_addr: u8,
    /// I²C SDA pin.
    pub sda_pin: u8,
    /// I²C SCL pin.
    pub scl_pin: u8,
    /// ADC pin for battery voltage.
    pub adc_pin: u8,
    pub send_temperature: bool,
    pub send_pressure: bool,
    pub send_humidity: bool,
    pub send_battery: bool,
}

/// A configuration by what its texts hold.
pub struct ConfigView {
    pub device_name: Seq<char>,
    pub room: Seq<char>,
    pub wifi_ssid: Seq<char>,
    pub wifi_password: Seq<char>,
    pub mqtt_server: Seq<char>,
    pub mqtt_port: u16,
    pub mqtt_user: Seq<char>,
    pub mqtt_password: Seq<char>,
    pub mqtt_topic: Seq<char>,
    pub sleep_minutes: u32,
    pub mqtt_qos: u8,
    pub bme280_addr: u8,
    pub sda_pin: u8,
    pub scl_pin: u8,
    pub adc_pin: u8,
    pub send_temperature: bool,
    pub send_pressure: bool,
    pub send_humidity: bool,
    pub send_battery: bool,
}

impl View for Config {
    type V = ConfigView;

    open spec fn view(&self) -> ConfigView {
        ConfigView {
            device_name: self.device_name@,
            room: self.room@,
            wifi_ssid: self.wifi_ssid@,
            wifi_password: self.wifi_password@,
            mqtt_server: self.mqtt_server@,
            mqtt_port: self.mqtt_port,
            mqtt_user: self.mqtt_user@,
            mqtt_password: self.mqtt_password@,
            mqtt_topic: self.mqtt_topic@,
            sleep_minutes: self.sleep_minutes,
            mqtt_qos: self.mqtt_qos,
            bme280_addr: self.bme280_addr,
            sda_pin: self.sda_pin,
            scl_pin: self.scl_pin,
            adc_pin: self.adc_pin,
            send_temperature: self.send_temperature,
            send_pressure: self.send_pressure,
            send_humidity: self.send_humidity,
            send_battery: self.send_battery,
        }
    }
}

/// The MQTT port that is used when none is given.
pub const DEFAULT_MQTT_PORT: u16 = 1883;

/// The sleep between two measurements, in minutes, when none is given.
pub const DEFAULT_SLEEP_MINUTES: u32 = 5;

/// The MQTT QoS level that is used when none is given.
pub const DEFAULT_MQTT_QOS: u8 = 0;

/// The I²C address of the BME280.
pub const BME280_ADDR: u8 = 0x76;

/// The SDA pin that is used when none is given.
pub const DEFAULT_SDA_PIN: u8 = 21;

/// The SCL pin that is used when none is given.
pub const DEFAULT_SCL_PIN: u8 = 22;

/// The ADC pin that is used when none is given.
pub const DEFAULT_ADC_PIN: u8 = 33;

/// The device name that is used when none is given.
pub const DEFAULT_DEVICE_NAME: &'static str = "weathernode";

/// The MQTT topic that is used when none is given.
pub const DEFAULT_MQTT_TOPIC: &'static str = "/data/nodes";

/// The configuration of a node that nothing was told yet: no network, no
/// broker, every reading on.
pub open spec fn default_config() -> ConfigView {
    ConfigView {
        device_name: DEFAULT_DEVICE_NAME@,
        room: Seq::empty(),
        wifi_ssid: Seq::empty(),
        wifi_password: Seq::empty(),
        mqtt_server: Seq::empty(),
        mqtt_port: DEFAULT_MQTT_PORT,
        mqtt_user: Seq::empty(),
        mqtt_password: Seq::empty(),
        mqtt_topic: DEFAULT_MQTT_TOPIC@,
        sleep_minutes: DEFAULT_SLEEP_MINUTES,
        mqtt_qos: DEFAULT_MQTT_QOS,
        bme280_addr: BME280_ADDR,
        sda_pin: DEFAULT_SDA_PIN,
        scl_pin: DEFAULT_SCL_PIN,
        adc_pin: DEFAULT_ADC_PIN,
        send_temperature: true,
        send_pressure: true,
        send_humidity: true,
        send_battery: true,
    }
}

impl Default for Config {
    fn default() -> (c: Self)
        ensures
            c@ == default_config(),
    {
        Config {
            device_name: DEFAULT_DEVICE_NAME.to_string(),
            room: String::new(),
            wifi_ssid: String::new(),
            wifi_password: String::new(),
            mqtt_server: String::new(),
            mqtt_port: DEFAULT_MQTT_PORT,
            mqtt_user: String::new(),
            mqtt_password: String::new(),
            mqtt_topic: DEFAULT_MQTT_TOPIC.to_string(),
            sleep_minutes: DEFAULT_SLEEP_MINUTES,
            mqtt_qos: DEFAULT_MQTT_QOS,
            bme280_addr: BME280_ADDR,
            sda_pin: DEFAULT_SDA_PIN,
            scl_pin: DEFAULT_SCL_PIN,
            adc_pin: DEFAULT_ADC_PIN,
            send_temperature: true,
            send_pressure: true,
            send_humidity: true,
            send_battery: true,
        }
    }
}

// ---------------------------------------------------------------------------
// Errors
// ---------------------------------------------------------------------------

/// Why a configuration could not be stored, loaded or used.
#[derive(Debug)]
pub enum ConfigError {
    Storage(String),
    Validation(String),
}

/// A configuration error by what its text holds.
pub enum ConfigErrorView {
    Storage(Seq<char>),
    Validation(Seq<char>),
}

impl View for ConfigError {
    type V = ConfigErrorView;

    open spec fn view(&self) -> ConfigErrorView {
        match self {
            ConfigError::Storage(m) => ConfigErrorView::Storage(m@),
            ConfigError::Validation(m) => ConfigErrorView::Validation(m@),
        }
    }
}

impl ConfigErrorView {
    /// The error as one line of text.
    pub open spec fn message(self) -> Seq<char> {
        match self {
            ConfigErrorView::Storage(m) => "NVS error: "@ + m,
            ConfigErrorView::Validation(m) => "invalid config: "@ + m,
        }
    }
}

impl ConfigError {
    /// The error as one line of text.
    pub fn message(&self) -> (r: String)
        ensures
            r@ == self@.message(),
    {
        match self {
            ConfigError::Storage(m) => "NVS error: ".to_string().concat(m.as_str()),
            ConfigError::Validation(m) => "invalid config: ".to_string().concat(m.as_str()),
        }
    }
}

/// The outcome of loading a configuration, by what its texts hold.
pub open spec fn loaded_view(
    loaded: Result<Option<Config>, ConfigError>,
) -> Result<Option<ConfigView>, ConfigErrorView> {
    match loaded {
        Ok(Some(c)) => Ok(Some(c@)),
        Ok(None) => Ok(None),
        Err(e) => Err(e@),
    }
}

/// The outcome of an action on a configuration, by what its texts hold.
pub open spec fn outcome_view(r: Result<(), ConfigError>) -> Result<(), ConfigErrorView> {
    match r {
        Ok(_) => Ok(()),
        Err(e) => Err(e@),
    }
}

// ---------------------------------------------------------------------------
// Validation
// ---------------------------------------------------------------------------

/// The highest GPIO that can drive an I²C line; those above are input-only.
pub const MAX_I2C_PIN: u8 = 33;

/// The lowest GPIO that is a channel of ADC1.
pub const MIN_ADC_PIN: u8 = 32;

/// The highest GPIO that is a channel of ADC1.
pub const MAX_ADC_PIN: u8 = 39;

/// Whether the pins of `c` can all be driven at once.
pub open spec fn pins_usable(c: ConfigView) -> bool {
    &&& c.sda_pin <= MAX_I2C_PIN
    &&& c.scl_pin <= MAX_I2C_PIN
    &&& c.sda_pin != c.scl_pin
    &&& c.send_battery ==> {
        &&& MIN_ADC_PIN <= c.adc_pin <= MAX_ADC_PIN
        &&& c.adc_pin != c.sda_pin
        &&& c.adc_pin != c.scl_pin
    }
}

/// `before`, the number of `pin`, then `after`.
pub open spec fn pin_text(before: Seq<char>, pin: u8, after: Seq<char>) -> Seq<char> {
    before + text::decimal(pin as nat) + after
}

/// The first thing that is wrong with the pins of `c`.
pub open spec fn pin_problem(c: ConfigView) -> Option<Seq<char>> {
    if c.sda_pin > MAX_I2C_PIN {
        Some(pin_text("SDA GPIO"@, c.sda_pin, " is input-only on ESP32 (valid: 0–33)"@))
    } else if c.scl_pin > MAX_I2C_PIN {
        Some(pin_text("SCL GPIO"@, c.scl_pin, " is input-only on ESP32 (valid: 0–33)"@))
    } else if c.sda_pin == c.scl_pin {
        Some(pin_text("SDA and SCL must be different pins (both GPIO"@, c.sda_pin, ")"@))
    } else if c.send_battery && !(MIN_ADC_PIN <= c.adc_pin <= MAX_ADC_PIN) {
        Some(pin_text("ADC GPIO"@, c.adc_pin, " is not an ADC1 channel (valid: 32–39)"@))
    } else if c.send_battery && (c.adc_pin == c.sda_pin || c.adc_pin == c.scl_pin) {
        Some(
            pin_text(
                pin_text(
                    pin_text("ADC GPIO"@, c.adc_pin, " conflicts with I²C pins (SDA="@),
                    c.sda_pin,
                    " SCL="@,
                ),
                c.scl_pin,
                ")"@,
            ),
        )
    } else {
        None
    }
}

/// A configuration has no pin problem exactly if its pins can be used: both
/// I²C pins can drive a line and differ, and with the battery on its pin is an
/// ADC1 channel apart from them.
pub proof fn no_problem_means_usable(c: ConfigView)
    ensures
        pin_problem(c) is None <==> pins_usable(c),
{
}

/// What validating `c` gives.
pub open spec fn validation(c: ConfigView) -> Result<(), ConfigErrorView> {
    match pin_problem(c) {
        None => Ok(()),
        Some(m) => Err(ConfigErrorView::Validation(m)),
    }
}

/// Writes `before`, the number of `pin`, then `after`.
fn write_pin_text(before: &str, pin: u8, after: &str) -> (r: String)
    ensures
        r@ == pin_text(before@, pin, after@),
{
    before.to_string().concat(decimal_text(pin as u64).as_str()).concat(after)
}

// ---------------------------------------------------------------------------
// Setup state
// ---------------------------------------------------------------------------

/// Describes how complete the device configuration is.
/// Determines which mode the node enters on boot.
#[derive(Debug, Clone, Copy, PartialEq, Eq, Structural)]
pub enum SetupState {
    /// No WiFi network: portal required.
    Incomplete,
    /// A WiFi network, but no MQTT server: portal with warning.
    WifiOnly,
    /// Both WiFi and MQTT configured: measurement mode.
    Complete,
}

/// How complete `c` is.
pub open spec fn setup_state_of(c: ConfigView) -> SetupState {
    if c.wifi_ssid.len() == 0 {
        SetupState::Incomplete
    } else if c.mqtt_server.len() == 0 {
        SetupState::WifiOnly
    } else {
        SetupState::Complete
    }
}

impl Config {
    /// Validates hardware pin assignments.
    /// Must be called once after loading config, before creating any peripheral drivers.
    pub fn validate(&self) -> (r: Result<(), ConfigError>)
        ensures
            outcome_view(r) == validation(self@),
            r is Ok <==> pins_usable(self@),
    {
        if self.sda_pin > MAX_I2C_PIN {
            return Err(
                ConfigError::Validation(
                    write_pin_text(
                        "SDA GPIO",
                        self.sda_pin,
                        " is input-only on ESP32 (valid: 0–33)",
                    ),
                ),
            );
        }
        if self.scl_pin > MAX_I2C_PIN {
            return Err(
                ConfigError::Validation(
                    write_pin_text(
                        "SCL GPIO",
                        self.scl_pin,
                        " is input-only on ESP32 (valid: 0–33)",
                    ),
                ),
            );
        }
        if self.sda_pin == self.scl_pin {
            return Err(
                ConfigError::Validation(
                    write_pin_text(
                        "SDA and SCL must be different pins (both GPIO",
                        self.sda_pin,
                        ")",
                    ),
                ),
            );
        }
        if self.send_battery {
            if self.adc_pin < MIN_ADC_PIN || self.adc_pin > MAX_ADC_PIN {
                return Err(
                    ConfigError::Validation(
                        write_pin_text(
                            "ADC GPIO",
                            self.adc_pin,
                            " is not an ADC1 channel (valid: 32–39)",
                        ),
                    ),
                );
            }
            if self.adc_pin == self.sda_pin || self.adc_pin == self.scl_pin {
                let adc = write_pin_text(
                    "ADC GPIO",
                    self.adc_pin,
                    " conflicts with I²C pins (SDA=",
                );
                let sda = write_pin_text(adc.as_str(), self.sda_pin, " SCL=");
                return Err(
                    ConfigError::Validation(write_pin_text(sda.as_str(), self.scl_pin, ")")),
                );
            }
        }
        Ok(())
    }

    /// How complete the configuration is.
    pub fn setup_state(&self) -> (r: SetupState)
        ensures
            r == setup_state_of(self@),
    {
        if self.wifi_ssid.as_str().is_empty() {
            SetupState::Incomplete
        } else if self.mqtt_server.as_str().is_empty() {
            SetupState::WifiOnly
        } else {
            SetupState::Complete
        }
    }
}

// ---------------------------------------------------------------------------
// Laws
// ---------------------------------------------------------------------------

/// A configuration is valid exactly if both I²C pins are among GPIO 0 to 33 and
/// differ and, with the battery on, its pin is among GPIO 32 to 39 and differs
/// from both. Nothing else matters.
pub proof fn valid_means_usable_pins(c: ConfigView)
    ensures
        validation(c) is Ok <==> {
            &&& c.sda_pin <= 33
            &&& c.scl_pin <= 33
            &&& c.sda_pin != c.scl_pin
            &&& c.send_battery ==> 32 <= c.adc_pin <= 39 && c.adc_pin != c.sda_pin && c.adc_pin
                != c.scl_pin
        },
        pins_usable(c) <==> validation(c) is Ok,
{
}

/// An invalid configuration is reported by its first problem, with the numbers of
/// the pins that it concerns.
pub proof fn first_problem_is_reported(c: ConfigView)
    ensures
        ({
            let input_only = " is input-only on ESP32 (valid: 0–33)"@;
            let sda = text::decimal(c.sda_pin as nat);
            let scl = text::decimal(c.scl_pin as nat);
            let adc = text::decimal(c.adc_pin as nat);
            let i2c = c.sda_pin <= 33 && c.scl_pin <= 33 && c.sda_pin != c.scl_pin;
            let problem = |m: Seq<char>| validation(c)
                == Err::<(), ConfigErrorView>(ConfigErrorView::Validation(m));
            &&& c.sda_pin > 33 ==> problem("SDA GPIO"@ + sda + input_only)
            &&& c.sda_pin <= 33 && c.scl_pin > 33 ==> problem("SCL GPIO"@ + scl + input_only)
            &&& c.sda_pin <= 33 && c.sda_pin == c.scl_pin ==> problem(
                "SDA and SCL must be different pins (both GPIO"@ + sda + ")"@,
            )
            &&& i2c && c.send_battery && !(32 <= c.adc_pin <= 39) ==> problem(
                "ADC GPIO"@ + adc + " is not an ADC1 channel (valid: 32–39)"@,
            )
            &&& i2c && c.send_battery && 32 <= c.adc_pin <= 39 && (c.adc_pin == c.sda_pin
                || c.adc_pin == c.scl_pin) ==> problem(
                "ADC GPIO"@ + adc + " conflicts with I²C pins (SDA="@ + sda + " SCL="@ + scl
                    + ")"@,
            )
        }),
{
}

/// The state of the setup tells which of the network and the broker are missing.
pub proof fn setup_state_tells_what_is_missing(c: ConfigView)
    ensures
        setup_state_of(c) is Incomplete <==> c.wifi_ssid.len() == 0,
        setup_state_of(c) is WifiOnly <==> c.wifi_ssid.len() > 0 && c.mqtt_server.len() == 0,
        setup_state_of(c) is Complete <==> c.wifi_ssid.len() > 0 && c.mqtt_server.len() > 0,
{
}

/// The line of an error is what went wrong, after what kind of error it is.
pub proof fn error_lines_end_with_what_went_wrong(m: Seq<char>)
    ensures
        ConfigErrorView::Storage(m).message() == "NVS error: "@ + m,
        ConfigErrorView::Validation(m).message() == "invalid config: "@ + m,
{
}

} // verus!
