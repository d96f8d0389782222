//! Joining the network, publishing and the payload.
use weathernode::config::Config;
use weathernode::network::{
    build_payload, config_credentials, connect_step, credentials, mqtt_options, signal_of,
    ConnectStep, MqttEvent, PublishAction, PublishEvent, Publishing, Signal, TooLong,
};
use weathernode::sensor::{Reading, SensorData};

fn reading(v: f32) -> Option<Reading> {
    Some(Reading { hundredths: (v as f64 * 100.0).round() as i64 })
}

fn data_full() -> SensorData {
    SensorData {
        temperature: reading(21.50),
        pressure: reading(1013.25),
        humidity: reading(55.00),
        battery_voltage: reading(3.80),
    }
}

fn data_empty() -> SensorData {
    SensorData { temperature: None, pressure: None, humidity: None, battery_voltage: None }
}

#[test]
fn build_payload_full() {
    let p = build_payload("node1", "living", &data_full());
    assert_eq!(
        p,
        r#"{"ESPName":"node1","room":"living","temp":21.50,"pres":1013.25,"humi":55.00,"batvoltvin":3.80}"#
    );
}

#[test]
fn build_payload_no_room() {
    let p = build_payload("node1", "", &data_empty());
    assert_eq!(p, r#"{"ESPName":"node1"}"#);
}

#[test]
fn build_payload_room_escaped() {
    let p = build_payload("n", r#"room\1"#, &data_empty());
    assert!(p.contains(r#"room\\1"#), "room must be escaped: {p}");
}

#[test]
fn build_payload_name_with_quote() {
    let p = build_payload(r#"evil"device"#, "", &data_empty());
    assert_eq!(p, r#"{"ESPName":"evil\"device"}"#);
}

#[test]
fn build_payload_only_readings_that_there_are() {
    let mut data = data_empty();
    data.humidity = reading(54.20);
    assert_eq!(
        build_payload("weathernode", "keller", &data),
        r#"{"ESPName":"weathernode","room":"keller","humi":54.20}"#
    );
    data.temperature = reading(-3.15);
    assert_eq!(
        build_payload("w", "", &data),
        r#"{"ESPName":"w","temp":-3.15,"humi":54.20}"#
    );
}

#[test]
fn credentials_fit() {
    let c = credentials("Netz", "geheim").unwrap();
    assert_eq!(c.ssid.as_str(), "Netz");
    assert_eq!(c.password.as_str(), "geheim");
    let c = credentials(&"s".repeat(32), &"p".repeat(64)).unwrap();
    assert_eq!(c.ssid.len(), 32);
    assert_eq!(c.password.len(), 64);
    assert_eq!(credentials("", "").unwrap().ssid.as_str(), "");
}

#[test]
fn credentials_too_long() {
    assert!(matches!(credentials(&"s".repeat(33), ""), Err(TooLong::Ssid)));
    assert!(matches!(credentials("s", &"p".repeat(65)), Err(TooLong::Password)));
    assert!(matches!(
        credentials(&"s".repeat(33), &"p".repeat(65)),
        Err(TooLong::Ssid)
    ));
    // 17 umlauts take 34 bytes.
    assert!(matches!(credentials(&"ä".repeat(17), ""), Err(TooLong::Ssid)));
    assert_eq!(credentials(&"ä".repeat(16), "").unwrap().ssid.as_str(), "ä".repeat(16));
}

#[test]
fn config_credentials_say_what_is_wrong() {
    let mut c = Config::default();
    c.wifi_ssid = "Netz".to_string();
    c.wifi_password = "geheim".to_string();
    let k = config_credentials(&c).unwrap();
    assert_eq!((k.ssid.as_str(), k.password.as_str()), ("Netz", "geheim"));
    c.wifi_password = "p".repeat(65);
    assert_eq!(
        config_credentials(&c).err().unwrap(),
        "WiFi password too long (max 64 bytes)"
    );
    c.wifi_ssid = "s".repeat(33);
    assert_eq!(config_credentials(&c).err().unwrap(), "WiFi SSID too long (max 32 bytes)");
}

#[test]
fn connecting_waits_for_fifty_seconds() {
    let limit: u128 = 50_000_000_000;
    assert!(matches!(connect_step(Ok(true), 0), ConnectStep::Joined));
    assert!(matches!(connect_step(Ok(true), 2 * limit), ConnectStep::Joined));
    assert!(matches!(connect_step(Ok(false), 0), ConnectStep::Wait(250)));
    assert!(matches!(connect_step(Ok(false), limit - 1), ConnectStep::Wait(250)));
    match connect_step(Ok(false), limit) {
        ConnectStep::Failed(m) => assert_eq!(m, "WiFi connect timeout (50 s)"),
        _ => panic!("still waiting"),
    }
    match connect_step(Err("ESP_FAIL".to_string()), 0) {
        ConnectStep::Failed(m) => assert_eq!(m, "ESP_FAIL"),
        _ => panic!("still waiting"),
    }
}

#[test]
fn client_options() {
    let o = mqtt_options("broker.local", 1883, "node", "", "");
    assert_eq!(o.broker, "mqtt://broker.local:1883");
    assert_eq!(o.client_id, "node");
    assert!(o.username.is_none() && o.password.is_none());
    let o = mqtt_options("h", 65535, "n", "u", "p");
    assert_eq!(o.broker, "mqtt://h:65535");
    assert_eq!(o.username.as_deref(), Some("u"));
    assert_eq!(o.password.as_deref(), Some("p"));
}

#[test]
fn client_signals() {
    let s = |connected, published, stop| Signal { connected, published, stop };
    assert_eq!(signal_of(MqttEvent::Connected), s(Some(true), false, false));
    assert_eq!(signal_of(MqttEvent::Published), s(None, true, true));
    assert_eq!(signal_of(MqttEvent::Disconnected), s(None, false, true));
    assert_eq!(signal_of(MqttEvent::Broken), s(Some(false), false, true));
    assert_eq!(signal_of(MqttEvent::Error), s(None, false, false));
    assert_eq!(signal_of(MqttEvent::Other), s(None, false, false));
}

fn outcome(events: Vec<PublishEvent>) -> Option<Result<(), String>> {
    let mut p = Publishing::Opening;
    for ev in events {
        p = p.next(ev);
    }
    match p {
        Publishing::Over(r) => Some(r),
        _ => None,
    }
}

#[test]
fn publishing_succeeds() {
    for confirmed in [true, false] {
        assert_eq!(
            outcome(vec![
                PublishEvent::Opened(Ok(())),
                PublishEvent::Answered(Some(true)),
                PublishEvent::Sent(Ok(())),
                PublishEvent::Confirmed(confirmed),
            ]),
            Some(Ok(()))
        );
    }
}

#[test]
fn publishing_fails() {
    assert_eq!(
        outcome(vec![PublishEvent::Opened(Err("no memory".to_string()))]),
        Some(Err("no memory".to_string()))
    );
    assert_eq!(
        outcome(vec![PublishEvent::Opened(Ok(())), PublishEvent::Answered(Some(false))]),
        Some(Err("MQTT broker refused connection".to_string()))
    );
    assert_eq!(
        outcome(vec![PublishEvent::Opened(Ok(())), PublishEvent::Answered(None)]),
        Some(Err("MQTT connection timeout (10 s)".to_string()))
    );
    assert_eq!(
        outcome(vec![
            PublishEvent::Opened(Ok(())),
            PublishEvent::Answered(Some(true)),
            PublishEvent::Sent(Err("outbox full".to_string())),
        ]),
        Some(Err("MQTT publish".to_string()))
    );
}

#[test]
fn publishing_needs_the_broker() {
    assert_eq!(
        outcome(vec![
            PublishEvent::Sent(Ok(())),
            PublishEvent::Confirmed(true),
            PublishEvent::Opened(Ok(())),
            PublishEvent::Confirmed(true),
        ]),
        None
    );
}

#[test]
fn publishing_actions() {
    let mut c = Config::default();
    c.mqtt_server = "h".to_string();
    c.mqtt_user = "u".to_string();
    match Publishing::Opening.action(&c, &data_empty()) {
        PublishAction::Open(o) => {
            assert_eq!(o.broker, "mqtt://h:1883");
            assert_eq!(o.client_id, "weathernode");
            assert_eq!(o.username.as_deref(), Some("u"));
            assert!(o.password.is_none());
        }
        _ => panic!("no client"),
    }
    assert!(matches!(
        Publishing::Connecting.action(&c, &data_empty()),
        PublishAction::AwaitAnswer(10)
    ));
    match Publishing::Sending.action(&c, &data_full()) {
        PublishAction::Send(m) => {
            assert_eq!(m.topic, "/data/nodes");
            assert!(m.at_least_once && !m.retain);
            assert_eq!(
                m.payload,
                r#"{"ESPName":"weathernode","temp":21.50,"pres":1013.25,"humi":55.00,"batvoltvin":3.80}"#
            );
        }
        _ => panic!("no message"),
    }
    assert!(matches!(
        Publishing::Confirming.action(&c, &data_empty()),
        PublishAction::AwaitConfirmation(5)
    ));
    assert!(matches!(
        Publishing::Over(Ok(())).action(&c, &data_empty()),
        PublishAction::Close
    ));
}
