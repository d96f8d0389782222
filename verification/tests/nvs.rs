//! Loading and saving against a storage in memory.
use std::collections::BTreeMap;

use weathernode::config::{Config, ConfigError};
use weathernode::nvs::{load_from_nvs, save_to_nvs, LoadStep, SaveStep, KEY_COUNT, NVS_NS};

type Store = BTreeMap<String, String>;

fn load(store: &Store) -> (Result<Option<Config>, ConfigError>, Vec<String>) {
    let mut replies = Vec::new();
    let mut keys = Vec::new();
    loop {
        match load_from_nvs(&replies) {
            LoadStep::Read(key) => {
                keys.push(key.to_string());
                replies.push(Ok(store.get(key).cloned()));
            }
            LoadStep::Done(r) => return (r, keys),
        }
    }
}

fn save(c: &Config, store: &mut Store) -> Result<(), ConfigError> {
    let mut replies = Vec::new();
    loop {
        match save_to_nvs(c, &replies) {
            SaveStep::Write(key, value) => {
                assert!(key.len() <= 15);
                store.insert(key.to_string(), value);
                replies.push(Ok(()));
            }
            SaveStep::Done(r) => return r,
        }
    }
}

fn sample() -> Config {
    Config {
        device_name: "Küche".to_string(),
        room: "keller".to_string(),
        wifi_ssid: "Net".to_string(),
        wifi_password: "geheim".to_string(),
        mqtt_server: "10.0.0.1".to_string(),
        mqtt_port: 8883,
        mqtt_user: "u".to_string(),
        mqtt_password: "p".to_string(),
        mqtt_topic: "/t".to_string(),
        sleep_minutes: 4294967295,
        mqtt_qos: 1,
        bme280_addr: 0x76,
        sda_pin: 4,
        scl_pin: 5,
        adc_pin: 36,
        send_temperature: true,
        send_pressure: false,
        send_humidity: true,
        send_battery: false,
    }
}

fn assert_same(a: &Config, b: &Config) {
    assert_eq!(format!("{:?}", a), format!("{:?}", b));
}

#[test]
fn first_boot_has_no_config() {
    let (r, keys) = load(&Store::new());
    assert!(matches!(r, Ok(None)));
    assert_eq!(keys, vec!["wifi_ssid"]);
}

#[test]
fn empty_network_name_is_no_config() {
    let mut store = Store::new();
    store.insert("wifi_ssid".to_string(), String::new());
    store.insert("mqtt_server".to_string(), "10.0.0.1".to_string());
    let (r, _) = load(&store);
    assert!(matches!(r, Ok(None)));
}

#[test]
fn missing_entries_give_defaults_with_everything_on() {
    let mut store = Store::new();
    store.insert("wifi_ssid".to_string(), "Net".to_string());
    let (r, keys) = load(&store);
    let c = r.unwrap().unwrap();
    assert_eq!(keys.len(), KEY_COUNT);
    assert_same(&c, &Config { wifi_ssid: "Net".to_string(), ..Config::default() });
}

#[test]
fn unreadable_entries_give_defaults() {
    let mut store = Store::new();
    store.insert("wifi_ssid".to_string(), "Net".to_string());
    store.insert("device_name".to_string(), String::new());
    store.insert("mqtt_port".to_string(), "65536".to_string());
    store.insert("sleep_mins".to_string(), "bald".to_string());
    store.insert("mqtt_qos".to_string(), "7".to_string());
    store.insert("sda_pin".to_string(), "300".to_string());
    store.insert("send_temp".to_string(), "0".to_string());
    store.insert("send_pres".to_string(), "00".to_string());
    let c = load(&store).0.unwrap().unwrap();
    assert_eq!(c.device_name, "");
    assert_eq!(c.mqtt_port, 1883);
    assert_eq!(c.sleep_minutes, 5);
    assert_eq!(c.mqtt_qos, 7);
    assert_eq!(c.sda_pin, 21);
    assert!(!c.send_temperature);
    assert!(c.send_pressure);
}

#[test]
fn saved_config_is_loaded() {
    let mut store = Store::new();
    assert!(save(&sample(), &mut store).is_ok());
    assert_eq!(store.len(), KEY_COUNT);
    let c = load(&store).0.unwrap().unwrap();
    assert_same(&c, &sample());
}

#[test]
fn saving_overwrites() {
    let mut store = Store::new();
    assert!(save(&Config { wifi_ssid: "A".to_string(), ..Config::default() }, &mut store).is_ok());
    assert!(save(&sample(), &mut store).is_ok());
    assert_same(&load(&store).0.unwrap().unwrap(), &sample());
}

#[test]
fn stored_texts() {
    let mut store = Store::new();
    assert!(save(&sample(), &mut store).is_ok());
    assert_eq!(store["mqtt_port"], "8883");
    assert_eq!(store["sleep_mins"], "4294967295");
    assert_eq!(store["send_temp"], "1");
    assert_eq!(store["send_pres"], "0");
    assert_eq!(store["adc_pin"], "36");
    assert_eq!(NVS_NS, "wnode_cfg");
}

#[test]
fn failed_read_ends_loading() {
    let replies = vec![Ok(Some("Net".to_string())), Err("ESP_FAIL".to_string())];
    match load_from_nvs(&replies) {
        LoadStep::Done(Err(e)) => assert_eq!(e.message(), "NVS error: ESP_FAIL"),
        _ => panic!("loading goes on"),
    }
    match load_from_nvs(&vec![Err("first".to_string())]) {
        LoadStep::Done(Err(e)) => assert_eq!(e.message(), "NVS error: first"),
        _ => panic!("loading goes on"),
    }
}

#[test]
fn failed_write_ends_saving() {
    let replies = vec![Ok(()), Ok(()), Err("no space".to_string())];
    match save_to_nvs(&sample(), &replies) {
        SaveStep::Done(Err(e)) => assert_eq!(e.message(), "NVS error: no space"),
        _ => panic!("saving goes on"),
    }
}

#[test]
fn entries_are_written_in_order() {
    let mut replies = Vec::new();
    let mut keys = Vec::new();
    loop {
        match save_to_nvs(&sample(), &replies) {
            SaveStep::Write(key, _) => {
                keys.push(key);
                replies.push(Ok(()));
            }
            SaveStep::Done(r) => {
                assert!(r.is_ok());
                break;
            }
        }
    }
    assert_eq!(
        keys,
        vec![
            "device_name", "room", "wifi_ssid", "wifi_password", "mqtt_server", "mqtt_port",
            "mqtt_user", "mqtt_password", "mqtt_topic", "sleep_mins", "mqtt_qos", "sda_pin",
            "scl_pin", "adc_pin", "send_temp", "send_pres", "send_humi", "send_bat",
        ]
    );
}
