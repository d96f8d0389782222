//! Saving over the portal, step by step.
use weathernode::config::{Config, ConfigError};
use weathernode::html::FORM_TAKEN_PAGE;
use weathernode::probe::TestResult;
use weathernode::saving::{
    SaveForm, SaveFormAction, SaveFormEvent, SaveWifi, SaveWifiAction, SaveWifiEvent, Update,
    UpdateAction,
};

fn s(t: &str) -> String {
    t.to_string()
}

fn saved() -> Config {
    Config {
        wifi_ssid: s("Alt"),
        wifi_password: s("alt"),
        mqtt_server: s("10.0.0.1"),
        mqtt_password: s("mqtt-alt"),
        ..Config::default()
    }
}

fn tested(ok: bool) -> SaveWifiEvent {
    SaveWifiEvent::Tested(TestResult { ok, msg: s("Timeout \"15 s\"") })
}

fn answer(state: &SaveWifi) -> String {
    match state.action() {
        SaveWifiAction::Answer(a) => a.to_string(),
        _ => panic!("no answer"),
    }
}

#[test]
fn credentials_are_tested_then_written() {
    let state = SaveWifi::begin("wifi_ssid=Neu&wifi_password=neu");
    match state.action() {
        SaveWifiAction::Test(w) => {
            assert_eq!((w.ssid.as_str(), w.password.as_str()), ("Neu", "neu"));
        }
        _ => panic!("no test"),
    }
    let state = state.next(tested(true));
    assert!(matches!(state.action(), SaveWifiAction::Load));
    let state = state.next(SaveWifiEvent::Loaded(Ok(Some(saved()))));
    match state.action() {
        SaveWifiAction::Write(c) => {
            assert_eq!((c.wifi_ssid.as_str(), c.wifi_password.as_str()), ("Neu", "neu"));
            assert_eq!(c.mqtt_server, "10.0.0.1");
        }
        _ => panic!("nothing to write"),
    }
    let state = state.next(SaveWifiEvent::Written(Ok(())));
    assert_eq!(answer(&state), r#"{"ok":true,"msg":"WLAN gespeichert und verifiziert ✓"}"#);
}

#[test]
fn blank_password_is_recalled_and_tested() {
    let state = SaveWifi::begin("wifi_ssid=Neu");
    assert!(matches!(state.action(), SaveWifiAction::Load));
    let state = state.next(SaveWifiEvent::Loaded(Ok(Some(saved()))));
    match state.action() {
        SaveWifiAction::Test(w) => {
            assert_eq!((w.ssid.as_str(), w.password.as_str()), ("Neu", "alt"));
        }
        _ => panic!("no test"),
    }
    let state = SaveWifi::begin("wifi_ssid=Neu")
        .next(SaveWifiEvent::Loaded(Err(ConfigError::Storage(s("x")))));
    match state.action() {
        SaveWifiAction::Test(w) => assert_eq!(w.password, ""),
        _ => panic!("no test"),
    }
}

#[test]
fn credentials_without_a_name_end_at_once() {
    let state = SaveWifi::begin("wifi_password=x");
    assert_eq!(answer(&state), r#"{"ok":false,"msg":"SSID darf nicht leer sein"}"#);
    let state = state.next(tested(true)).next(SaveWifiEvent::Loaded(Ok(None)));
    assert_eq!(answer(&state), r#"{"ok":false,"msg":"SSID darf nicht leer sein"}"#);
}

#[test]
fn failed_test_writes_nothing() {
    let state = SaveWifi::begin("wifi_ssid=Neu&wifi_password=neu").next(tested(false));
    assert_eq!(answer(&state), r#"{"ok":false,"msg":"Timeout \"15 s\""}"#);
    let state = state
        .next(tested(true))
        .next(SaveWifiEvent::Loaded(Ok(Some(saved()))));
    assert_eq!(answer(&state), r#"{"ok":false,"msg":"Timeout \"15 s\""}"#);
}

#[test]
fn untested_credentials_are_not_written() {
    let state = SaveWifi::begin("wifi_ssid=Neu&wifi_password=neu")
        .next(SaveWifiEvent::Loaded(Ok(Some(saved()))))
        .next(SaveWifiEvent::Written(Ok(())));
    assert!(matches!(state.action(), SaveWifiAction::Test(_)));
}

#[test]
fn failed_write_of_credentials_is_answered() {
    let state = SaveWifi::begin("wifi_ssid=Neu&wifi_password=neu")
        .next(tested(true))
        .next(SaveWifiEvent::Loaded(Ok(None)))
        .next(SaveWifiEvent::Written(Err(ConfigError::Storage(s("voll")))));
    assert_eq!(answer(&state), r#"{"ok":false,"msg":"NVS error: voll"}"#);
}

#[test]
fn form_is_written_before_the_restart() {
    let state = SaveForm::begin("room=flur&wifi_ssid=Neu");
    assert!(matches!(state.action(), SaveFormAction::Load));
    let state = state.next(SaveFormEvent::Loaded(Ok(Some(saved()))));
    match state.action() {
        SaveFormAction::Write(c) => {
            assert_eq!(c.room, "flur");
            assert_eq!((c.wifi_ssid.as_str(), c.wifi_password.as_str()), ("Alt", "alt"));
            assert_eq!(c.mqtt_password, "mqtt-alt");
        }
        _ => panic!("nothing to write"),
    }
    let state = state.next(SaveFormEvent::Written(Ok(())));
    assert!(matches!(state.action(), SaveFormAction::Restart));
}

#[test]
fn failed_write_of_a_form_does_not_restart() {
    let state = SaveForm::begin("room=flur")
        .next(SaveFormEvent::Loaded(Ok(None)))
        .next(SaveFormEvent::Written(Err(ConfigError::Storage(s("voll")))))
        .next(SaveFormEvent::Written(Ok(())));
    match state.action() {
        SaveFormAction::End(e) => assert_eq!(e.message(), "NVS error: voll"),
        _ => panic!("no end"),
    }
}

#[test]
fn rejected_form_is_answered() {
    let state = SaveForm::begin("sda_pin=40");
    let page = state.answer().unwrap().to_string();
    assert!(page.contains(
        "<p>invalid config: SDA GPIO40 is input-only on ESP32 (valid: 0–33)</p>"
    ));
    assert!(matches!(state.action(), SaveFormAction::Forget));
    let state = state.next(SaveFormEvent::Loaded(Ok(Some(saved()))));
    assert!(matches!(state.action(), SaveFormAction::Forget));
}

#[test]
fn taken_form_is_answered() {
    let state = SaveForm::begin("room=flur");
    assert_eq!(state.answer(), Some(FORM_TAKEN_PAGE));
    assert!(FORM_TAKEN_PAGE.starts_with("<!DOCTYPE html>\n<html><head>"));
    assert!(FORM_TAKEN_PAGE.contains("<h2>Konfiguration gespeichert</h2>"));
    assert!(FORM_TAKEN_PAGE.ends_with("</body></html>"));
    let state = state.next(SaveFormEvent::Loaded(Ok(None)));
    assert_eq!(state.answer(), None);
}

#[test]
fn form_that_cannot_be_used_is_dropped() {
    let state = SaveForm::Taken(Config { scl_pin: 21, ..Config::default() })
        .next(SaveFormEvent::Loaded(Ok(None)));
    match state.action() {
        SaveFormAction::Wait(e) => assert_eq!(
            e.message(),
            "invalid config: SDA and SCL must be different pins (both GPIO21)"
        ),
        _ => panic!("not dropped"),
    }
}

#[test]
fn form_does_not_restart_unwritten() {
    let state = SaveForm::begin("room=flur").next(SaveFormEvent::Written(Ok(())));
    assert!(matches!(state.action(), SaveFormAction::Load));
}

#[test]
fn form_is_updated() {
    let state = Update::begin("room=flur&wifi_ssid=x&mqtt_port=1884");
    assert!(matches!(state.action(), UpdateAction::Load));
    let state = state.next(SaveFormEvent::Loaded(Ok(Some(saved()))));
    match state.action() {
        UpdateAction::Write(c) => {
            assert_eq!(c.room, "flur");
            assert_eq!(c.wifi_ssid, "Alt");
            assert_eq!(c.mqtt_port, 1884);
            assert_eq!(c.mqtt_password, "mqtt-alt");
        }
        _ => panic!("nothing to write"),
    }
    match state.next(SaveFormEvent::Written(Ok(()))).action() {
        UpdateAction::Answer(a) => assert_eq!(a, r#"{"ok":true,"msg":"Gespeichert"}"#),
        _ => panic!("no answer"),
    }
}

#[test]
fn update_that_fails_is_answered() {
    match Update::begin("sda_pin=50").next(SaveFormEvent::Loaded(Ok(Some(saved())))).action() {
        UpdateAction::Answer(a) => assert_eq!(
            a,
            r#"{"ok":false,"msg":"invalid config: SDA GPIO50 is input-only on ESP32 (valid: 0–33)"}"#
        ),
        _ => panic!("no answer"),
    }
    let state = Update::begin("")
        .next(SaveFormEvent::Loaded(Ok(None)))
        .next(SaveFormEvent::Written(Err(ConfigError::Storage(s("voll")))));
    match state.action() {
        UpdateAction::Answer(a) => assert_eq!(a, r#"{"ok":false,"msg":"NVS error: voll"}"#),
        _ => panic!("no answer"),
    }
}
