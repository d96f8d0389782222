//! Requests of the portal.
use weathernode::config::{Config, ConfigError};
use weathernode::portal::{
    access_point, battery_pin, chip_id, config_json, finish_form, preserve_credentials,
    save_wifi_reply, sensor_pins, take_form, test_reply, update_reply, MqttForm, WifiForm,
};
use weathernode::probe::TestResult;

fn s(t: &str) -> String {
    t.to_string()
}

fn saved() -> Config {
    Config {
        device_name: s("Küche"),
        room: s("keller"),
        wifi_ssid: s("Net\"z"),
        wifi_password: s("alt"),
        mqtt_server: s("10.0.0.1"),
        mqtt_password: s("mqtt-alt"),
        send_battery: false,
        ..Config::default()
    }
}

#[test]
fn access_point_is_named_after_the_node() {
    let mac = [0x24, 0x0a, 0xc4, 0xa1, 0xb2, 0xc3];
    assert_eq!(chip_id(&mac), "a1b2c3");
    let ap = access_point(&mac);
    assert_eq!(ap.ssid.as_str(), "weathernode-a1b2c3");
    assert!(!ap.hidden && ap.open);
    assert_eq!((ap.channel, ap.max_connections), (6, 4));
    assert_eq!(chip_id(&[0, 0, 0, 0, 1, 0x0f]), "00010f");
}

#[test]
fn config_answer() {
    assert_eq!(
        config_json(&Ok(Some(saved()))),
        r#"{"configured":true,"setup_state":"complete","device_name":"Küche","room":"keller","wifi_ssid":"Net\"z","wifi_password_saved":true,"mqtt_server":"10.0.0.1","mqtt_port":1883,"mqtt_user":"","mqtt_password_saved":true,"mqtt_topic":"/data/nodes","sleep_minutes":5,"mqtt_qos":0,"sda_pin":21,"scl_pin":22,"adc_pin":33,"send_temperature":true,"send_pressure":true,"send_humidity":true,"send_battery":false}"#
    );
}

#[test]
fn config_answer_escapes_control_characters() {
    let json = config_json(&Ok(Some(Config { device_name: s("a\u{1}b"), ..saved() })));
    assert!(json.contains(r#""device_name":"a\u0001b""#));
}

#[test]
fn config_answer_says_what_is_missing() {
    let c = Config { mqtt_server: s(""), wifi_password: s(""), mqtt_password: s(""), ..saved() };
    let json = config_json(&Ok(Some(c)));
    assert!(json.contains(r#""setup_state":"wifi_only""#));
    assert!(json.contains(r#""wifi_password_saved":false"#));
    assert!(json.contains(r#""mqtt_password_saved":false"#));
}

#[test]
fn config_answer_without_config() {
    let none = r#"{"configured":false,"setup_state":"incomplete"}"#;
    assert_eq!(config_json(&Ok(None)), none);
    assert_eq!(config_json(&Err(ConfigError::Storage(s("x")))), none);
}

#[test]
fn config_answer_tells_no_password() {
    let json = config_json(&Ok(Some(saved())));
    assert!(!json.contains("alt"));
    let other = Config { wifi_password: s("neu"), mqtt_password: s("x"), ..saved() };
    assert_eq!(json, config_json(&Ok(Some(other))));
}

#[test]
fn forms_do_not_change_the_network() {
    let form = Config {
        wifi_ssid: s("Anderes"),
        wifi_password: s("neu"),
        mqtt_password: s("mqtt-neu"),
        room: s("dach"),
        ..Config::default()
    };
    let c = preserve_credentials(form, &Ok(Some(saved())));
    assert_eq!(c.wifi_ssid, "Net\"z");
    assert_eq!(c.wifi_password, "alt");
    assert_eq!(c.mqtt_password, "mqtt-neu");
    assert_eq!(c.room, "dach");
}

#[test]
fn blank_mqtt_password_keeps_the_saved_one() {
    let c = preserve_credentials(Config::default(), &Ok(Some(saved())));
    assert_eq!(c.mqtt_password, "mqtt-alt");
}

#[test]
fn first_form_is_taken_as_it_is() {
    let form = Config { wifi_ssid: s("Neu"), mqtt_password: s("m"), ..Config::default() };
    for nothing in [Ok(None), Err(ConfigError::Storage(s("x")))] {
        let c = preserve_credentials(form.clone(), &nothing);
        assert_eq!(c.wifi_ssid, "Neu");
        assert_eq!(c.mqtt_password, "m");
    }
}

#[test]
fn usable_form_is_taken() {
    let c = take_form("device_name=n&sda_pin=4&scl_pin=5").unwrap();
    assert_eq!((c.sda_pin, c.scl_pin), (4, 5));
    assert_eq!(c.device_name, "n");
}

#[test]
fn unusable_form_gives_a_page() {
    let page = take_form("sda_pin=5&scl_pin=5").err().unwrap();
    assert!(page.contains(
        "<p>invalid config: SDA and SCL must be different pins (both GPIO5)</p>"
    ));
}

#[test]
fn form_is_finished_with_what_is_saved() {
    let form = Config { wifi_ssid: s("x"), ..Config::default() };
    let c = finish_form(form, &Ok(Some(saved()))).unwrap();
    assert_eq!(c.wifi_ssid, "Net\"z");
    let bad = Config { sda_pin: 40, ..Config::default() };
    assert_eq!(
        finish_form(bad, &Ok(None)).err().unwrap().message(),
        "invalid config: SDA GPIO40 is input-only on ESP32 (valid: 0–33)"
    );
}

#[test]
fn update_replies() {
    assert_eq!(update_reply(&Ok(())), r#"{"ok":true,"msg":"Gespeichert"}"#);
    assert_eq!(
        update_reply(&Err(ConfigError::Storage(s("a \"b\"")))),
        r#"{"ok":false,"msg":"NVS error: a \"b\""}"#
    );
    assert_eq!(
        save_wifi_reply(&Ok(())),
        r#"{"ok":true,"msg":"WLAN gespeichert und verifiziert ✓"}"#
    );
    assert_eq!(
        save_wifi_reply(&Err(ConfigError::Validation(s("x")))),
        r#"{"ok":false,"msg":"invalid config: x"}"#
    );
}

#[test]
fn network_without_a_name_is_refused() {
    let w = WifiForm::parse("wifi_password=x");
    assert_eq!(
        w.refused(),
        Some(s(r#"{"ok":false,"msg":"SSID darf nicht leer sein"}"#))
    );
    assert_eq!(WifiForm::parse("wifi_ssid=N").refused(), None);
}

#[test]
fn blank_network_password_is_the_saved_one() {
    let w = WifiForm::parse("wifi_ssid=N&wifi_password=").or_saved_password(&Ok(Some(saved())));
    assert_eq!((w.ssid.as_str(), w.password.as_str()), ("N", "alt"));
    let w = WifiForm::parse("wifi_ssid=N&wifi_password=z").or_saved_password(&Ok(Some(saved())));
    assert_eq!(w.password, "z");
    let w = WifiForm::parse("wifi_ssid=N").or_saved_password(&Ok(None));
    assert_eq!(w.password, "");
}

#[test]
fn credentials_change_only_the_network() {
    let c = WifiForm::parse("wifi_ssid=N&wifi_password=z").applied_to(Ok(Some(saved())));
    assert_eq!((c.wifi_ssid.as_str(), c.wifi_password.as_str()), ("N", "z"));
    assert_eq!(c.mqtt_server, "10.0.0.1");
    assert_eq!(c.device_name, "Küche");
    for nothing in [Ok(None), Err(ConfigError::Storage(s("x")))] {
        let c = WifiForm::parse("wifi_ssid=N").applied_to(nothing);
        assert_eq!(c.wifi_ssid, "N");
        assert_eq!(c.device_name, "weathernode");
    }
}

#[test]
fn test_replies() {
    assert_eq!(
        test_reply(&TestResult { ok: true, msg: s("Verbunden! IP: 10.0.0.2") }),
        r#"{"ok":true,"msg":"Verbunden! IP: 10.0.0.2"}"#
    );
    assert_eq!(
        test_reply(&TestResult { ok: false, msg: s("Fehler: \"x\" – ü\n") }),
        r#"{"ok":false,"msg":"Fehler: \"x\" – ü\n"}"#
    );
    assert_eq!(
        test_reply(&TestResult { ok: false, msg: s("\u{1}\0") }),
        r#"{"ok":false,"msg":"\u0001\u0000"}"#
    );
}

#[test]
fn mqtt_test_form() {
    let m = MqttForm::parse("mqtt_server=h&mqtt_port=1884&mqtt_user=u&mqtt_password=p");
    assert_eq!(
        (m.server.as_str(), m.port, m.user.as_str(), m.password.as_str()),
        ("h", 1884, "u", "p")
    );
    assert_eq!(MqttForm::parse("mqtt_port=x").port, 1883);
}

#[test]
fn pins_of_test_forms() {
    assert_eq!(battery_pin("adc_pin=35"), 35);
    assert_eq!(battery_pin(""), 33);
    assert_eq!(battery_pin("adc_pin=256"), 33);
    assert_eq!(sensor_pins("sda_pin=4&scl_pin=5"), (4, 5));
    assert_eq!(sensor_pins("scl_pin=y"), (21, 22));
}
