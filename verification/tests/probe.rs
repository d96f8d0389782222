//! Tests that the portal offers.
use weathernode::network::MqttEvent;
use weathernode::probe::{
    answer_of, battery_busy, battery_pin_refused, battery_reply, sensor_busy,
    sensor_pins_refused, sensor_reply, MqttTest, MqttTestAction, MqttTestEvent, TestResult,
    WifiTest, WifiTestAction, WifiTestEvent,
};
use weathernode::sensor::Reading;

fn s(t: &str) -> String {
    t.to_string()
}

fn wifi(events: Vec<WifiTestEvent>) -> WifiTest {
    let mut t = WifiTest::Reserving;
    for ev in events {
        t = t.next(ev);
    }
    t
}

fn wifi_result(events: Vec<WifiTestEvent>) -> (bool, String) {
    match wifi(events) {
        WifiTest::Over(TestResult { ok, msg }) => (ok, msg),
        _ => panic!("not over"),
    }
}

fn joining() -> Vec<WifiTestEvent> {
    vec![
        WifiTestEvent::Reserved(true),
        WifiTestEvent::Configured(Ok(())),
        WifiTestEvent::Started(Ok(())),
    ]
}

fn leasing() -> Vec<WifiTestEvent> {
    let mut events = joining();
    events.push(WifiTestEvent::Status(Ok(true), 1));
    events
}

#[test]
fn wifi_test_refuses_bad_credentials() {
    let refused = |ssid: &str, pass: &str| match WifiTest::begin(ssid, pass) {
        Err(TestResult { ok, msg }) => {
            assert!(!ok);
            msg
        }
        Ok(_) => panic!("begun"),
    };
    assert_eq!(refused("", ""), "Kein SSID angegeben");
    assert_eq!(refused(&"s".repeat(33), ""), "SSID zu lang (max 32 Zeichen)");
    assert_eq!(refused("s", &"p".repeat(65)), "Passwort zu lang (max 64 Zeichen)");
}

#[test]
fn wifi_test_begins() {
    match WifiTest::begin("Netz", "geheim") {
        Ok((t, c)) => {
            assert!(matches!(t, WifiTest::Reserving));
            assert_eq!(c.ssid.as_str(), "Netz");
            assert_eq!(c.password.as_str(), "geheim");
        }
        Err(_) => panic!("refused"),
    }
}

#[test]
fn wifi_test_fails_on_the_way() {
    assert_eq!(
        wifi_result(vec![WifiTestEvent::Reserved(false)]),
        (false, s("Ein Test läuft bereits, bitte warten"))
    );
    assert_eq!(
        wifi_result(vec![
            WifiTestEvent::Reserved(true),
            WifiTestEvent::Configured(Err(s("E1"))),
        ]),
        (false, s("Konfigurationsfehler: E1"))
    );
    assert_eq!(
        wifi_result(vec![
            WifiTestEvent::Reserved(true),
            WifiTestEvent::Configured(Ok(())),
            WifiTestEvent::Started(Err(s("E2"))),
        ]),
        (false, s("Verbindungsversuch fehlgeschlagen: E2"))
    );
    let mut events = joining();
    events.push(WifiTestEvent::Status(Err(s("E3")), 0));
    assert_eq!(wifi_result(events), (false, s("Statusabfrage: E3")));
}

#[test]
fn wifi_test_times_out() {
    let mut events = joining();
    events.push(WifiTestEvent::Status(Ok(false), 15_000_000_000));
    assert!(matches!(wifi(events), WifiTest::Joining(true)));
    let mut events = joining();
    events.push(WifiTestEvent::Status(Ok(false), 15_000_000_001));
    assert_eq!(
        wifi_result(events),
        (false, s("Timeout (15 s) – WLAN nicht erreichbar oder Passwort falsch"))
    );
}

#[test]
fn wifi_test_succeeds() {
    let mut events = leasing();
    events.push(WifiTestEvent::Address(Some(s("0.0.0.0")), 6_000_000_000));
    events.push(WifiTestEvent::Address(None, 1));
    events.push(WifiTestEvent::Address(Some(s("192.168.1.7")), 7_000_000_000));
    assert_eq!(wifi_result(events), (true, s("Verbunden! IP: 192.168.1.7")));
}

#[test]
fn wifi_test_succeeds_without_an_address() {
    let mut events = leasing();
    events.push(WifiTestEvent::Address(None, 6_000_000_001));
    assert_eq!(
        wifi_result(events),
        (true, s("Verbunden – keine DHCP-Antwort (statische IP?)"))
    );
}

#[test]
fn wifi_test_ignores_what_does_not_belong() {
    assert!(matches!(
        wifi(vec![WifiTestEvent::Status(Ok(true), 0), WifiTestEvent::Address(Some(s("1")), 0)]),
        WifiTest::Reserving
    ));
    let mut events = leasing();
    events.push(WifiTestEvent::Address(Some(s("10.0.0.2")), 0));
    events.push(WifiTestEvent::Status(Err(s("late")), 0));
    assert_eq!(wifi_result(events), (true, s("Verbunden! IP: 10.0.0.2")));
}

#[test]
fn wifi_test_actions() {
    assert_eq!(WifiTest::Reserving.action(), WifiTestAction::Reserve);
    assert_eq!(WifiTest::Configuring.action(), WifiTestAction::Configure(200));
    assert_eq!(WifiTest::Starting.action(), WifiTestAction::Start);
    assert_eq!(WifiTest::Joining(false).action(), WifiTestAction::LookAtStatus(0));
    assert_eq!(WifiTest::Joining(true).action(), WifiTestAction::LookAtStatus(500));
    assert_eq!(WifiTest::Leasing.action(), WifiTestAction::LookForAddress(300));
    assert_eq!(
        WifiTest::Over(TestResult { ok: true, msg: s("") }).action(),
        WifiTestAction::Report
    );
}

fn mqtt(server: &str, events: Vec<MqttTestEvent>) -> (bool, String) {
    let mut t = MqttTest::Checking;
    for ev in events {
        t = t.next(server, ev);
    }
    match t {
        MqttTest::Over(TestResult { ok, msg }) => (ok, msg),
        _ => panic!("not over"),
    }
}

fn online() -> MqttTestEvent {
    MqttTestEvent::Network(Some(Ok(true)))
}

#[test]
fn mqtt_test_needs_a_network() {
    assert_eq!(
        mqtt("h", vec![MqttTestEvent::Network(None)]),
        (false, s("WiFi-Test läuft noch, bitte warten"))
    );
    assert_eq!(
        mqtt("h", vec![MqttTestEvent::Network(Some(Ok(false)))]),
        (false, s("WLAN nicht verbunden – zuerst WLAN testen"))
    );
    assert_eq!(
        mqtt("h", vec![MqttTestEvent::Network(Some(Err(s("E"))))]),
        (false, s("WLAN-Status: E"))
    );
}

#[test]
fn mqtt_test_needs_a_server() {
    assert_eq!(mqtt("", vec![online()]), (false, s("Kein MQTT-Server angegeben")));
}

#[test]
fn mqtt_test_fails_on_the_way() {
    assert_eq!(
        mqtt("h", vec![online(), MqttTestEvent::Opened(Err(s("E1")))]),
        (false, s("Client-Erstellung: E1"))
    );
    assert_eq!(
        mqtt(
            "h",
            vec![online(), MqttTestEvent::Opened(Ok(())), MqttTestEvent::Listening(Err(s("E2")))]
        ),
        (false, s("Thread-Fehler: E2"))
    );
}

#[test]
fn mqtt_test_reports_the_answer() {
    let answered = |a| {
        mqtt(
            "h",
            vec![
                online(),
                MqttTestEvent::Opened(Ok(())),
                MqttTestEvent::Listening(Ok(())),
                MqttTestEvent::Answered(a),
            ],
        )
    };
    assert_eq!(answered(Some(true)), (true, s("MQTT-Verbindung erfolgreich!")));
    assert_eq!(answered(Some(false)), (false, s("Broker hat Verbindung abgelehnt")));
    assert_eq!(answered(None), (false, s("Timeout (10 s) – Broker nicht erreichbar")));
}

#[test]
fn mqtt_test_actions() {
    let action = |t: MqttTest| t.action("h", 1884, "u", "");
    assert!(matches!(action(MqttTest::Checking), MqttTestAction::LookAtNetwork));
    match action(MqttTest::Opening) {
        MqttTestAction::Open(o) => {
            assert_eq!(o.broker, "mqtt://h:1884");
            assert_eq!(o.client_id, "wnode-test");
            assert_eq!(o.username.as_deref(), Some("u"));
            assert!(o.password.is_none());
        }
        _ => panic!("no client"),
    }
    assert!(matches!(action(MqttTest::Listening), MqttTestAction::Listen));
    assert!(matches!(action(MqttTest::Awaiting), MqttTestAction::AwaitAnswer(10)));
    assert!(matches!(
        action(MqttTest::Over(TestResult { ok: false, msg: s("") })),
        MqttTestAction::Report
    ));
}

#[test]
fn mqtt_test_answers() {
    assert_eq!(answer_of(MqttEvent::Connected), Some(true));
    assert_eq!(answer_of(MqttEvent::Disconnected), Some(false));
    assert_eq!(answer_of(MqttEvent::Error), Some(false));
    assert_eq!(answer_of(MqttEvent::Broken), Some(false));
    assert_eq!(answer_of(MqttEvent::Published), None);
    assert_eq!(answer_of(MqttEvent::Other), None);
}

#[test]
fn sensor_test_replies() {
    let refusal = Some(s(
        r#"{"ok":false,"msg":"Ungültige Pin-Nummern (SDA/SCL max GPIO 33)"}"#,
    ));
    assert_eq!(sensor_pins_refused(34, 22), refusal);
    assert_eq!(sensor_pins_refused(21, 34), refusal);
    assert_eq!(sensor_pins_refused(33, 0), None);
    assert_eq!(sensor_busy(), r#"{"ok":false,"msg":"Sensor wird bereits verwendet"}"#);
    assert_eq!(
        sensor_reply(&Ok((
            Some(Reading { hundredths: 2135 }),
            None,
            Some(Reading { hundredths: 5420 })
        ))),
        r#"{"ok":true,"temp":"21.35","pres":"n/a","humi":"54.20"}"#
    );
    assert_eq!(
        sensor_reply(&Err(s(r#"I²C "init" failed"#))),
        r#"{"ok":false,"msg":"I²C 'init' failed"}"#
    );
    assert_eq!(
        sensor_reply(&Err(s("a\\b\n\u{1}"))),
        r#"{"ok":false,"msg":"a\\b\n\u0001"}"#
    );
}

#[test]
fn battery_test_replies() {
    let refusal = Some(s(r#"{"ok":false,"msg":"Ungültiger ADC-Pin (gültig: 32–39)"}"#));
    assert_eq!(battery_pin_refused(31), refusal);
    assert_eq!(battery_pin_refused(40), refusal);
    assert_eq!(battery_pin_refused(32), None);
    assert_eq!(battery_pin_refused(39), None);
    assert_eq!(battery_busy(), r#"{"ok":false,"msg":"ADC wird bereits verwendet"}"#);
    assert_eq!(
        battery_reply(&Ok((Reading { hundredths: 384 }, 3752))),
        r#"{"ok":true,"msg":"3.84 V (raw 3752)"}"#
    );
    assert_eq!(
        battery_reply(&Err(s("say \"no\"\n"))),
        r#"{"ok":false,"msg":"say \"no\"\n"}"#
    );
}
