//! Boot mode and measurement cycle.
use weathernode::boot::{
    boot_mode, sleep_micros, wakeup_reason, BootMode, Cycle, CycleAction, CycleEvent,
    PortalReason, WakeupCause,
};
use weathernode::config::{Config, ConfigError, SetupState};
use weathernode::sensor::{Bme280Config, Reading, SensorData};

fn s(t: &str) -> String {
    t.to_string()
}

fn complete() -> Config {
    Config { wifi_ssid: s("Net"), mqtt_server: s("10.0.0.1"), ..Config::default() }
}

#[test]
fn complete_config_measures() {
    match boot_mode(Ok(Some(complete()))) {
        BootMode::Measurement(c) => assert_eq!(c.wifi_ssid, "Net"),
        BootMode::Portal(_) => panic!("portal"),
    }
}

#[test]
fn anything_else_opens_the_portal() {
    assert!(matches!(boot_mode(Ok(None)), BootMode::Portal(PortalReason::NoConfig)));
    match boot_mode(Err(ConfigError::Storage(s("x")))) {
        BootMode::Portal(PortalReason::LoadFailed(e)) => assert_eq!(e.message(), "NVS error: x"),
        _ => panic!("no portal"),
    }
    match boot_mode(Ok(Some(Config { sda_pin: 22, ..complete() }))) {
        BootMode::Portal(PortalReason::Invalid(e)) => assert_eq!(
            e.message(),
            "invalid config: SDA and SCL must be different pins (both GPIO22)"
        ),
        _ => panic!("no portal"),
    }
    assert!(matches!(
        boot_mode(Ok(Some(Config { mqtt_server: s(""), ..complete() }))),
        BootMode::Portal(PortalReason::NotComplete(SetupState::WifiOnly))
    ));
    assert!(matches!(
        boot_mode(Ok(Some(Config::default()))),
        BootMode::Portal(PortalReason::NotComplete(SetupState::Incomplete))
    ));
}

#[test]
fn wakeup_reasons() {
    assert_eq!(wakeup_reason(WakeupCause::Ext0), "EXT0 (RTC_IO)");
    assert_eq!(wakeup_reason(WakeupCause::Ext1), "EXT1 (RTC_CNTL)");
    assert_eq!(wakeup_reason(WakeupCause::Timer), "deep-sleep timer");
    assert_eq!(wakeup_reason(WakeupCause::Touchpad), "touchpad");
    assert_eq!(wakeup_reason(WakeupCause::Ulp), "ULP co-processor");
    assert_eq!(wakeup_reason(WakeupCause::Other), "power-on / undefined");
}

#[test]
fn sleep_times() {
    assert_eq!(sleep_micros(0), 0);
    assert_eq!(sleep_micros(5), 300_000_000);
    assert_eq!(sleep_micros(u32::MAX), 257_698_037_700_000_000);
}

fn reading(hundredths: i64) -> Option<Reading> {
    Some(Reading { hundredths })
}

fn readings() -> CycleEvent {
    CycleEvent::SensorRead(Some((reading(2135), None, reading(5420))))
}

fn run(cfg: &Config, events: Vec<CycleEvent>) -> Cycle {
    let mut c = Cycle::start(cfg);
    for ev in events {
        c = c.next(cfg, ev);
    }
    c
}

#[test]
fn cycle_runs_through() {
    let cfg = complete();
    let c = Cycle::start(&cfg);
    assert_eq!(c.action(&cfg), CycleAction::ReadBattery(33));
    let c = c.next(&cfg, CycleEvent::BatteryRead(reading(384)));
    assert_eq!(
        c.action(&cfg),
        CycleAction::ReadSensor(Bme280Config::all_channels(), 21, 22)
    );
    let c = c.next(&cfg, readings());
    assert_eq!(c.action(&cfg), CycleAction::JoinNetwork);
    let c = c.next(&cfg, CycleEvent::NetworkJoined(true));
    assert_eq!(c.action(&cfg), CycleAction::Publish);
    match &c {
        Cycle::Publish(SensorData { temperature, pressure, humidity, battery_voltage }) => {
            assert_eq!(*temperature, reading(2135));
            assert_eq!(*pressure, None);
            assert_eq!(*humidity, reading(5420));
            assert_eq!(*battery_voltage, reading(384));
        }
        _ => panic!("nothing to publish"),
    }
    let c = c.next(&cfg, CycleEvent::Published(true));
    assert_eq!(c.action(&cfg), CycleAction::Sleep(300_000_000));
}

#[test]
fn failed_battery_does_not_matter() {
    let cfg = complete();
    let c = run(
        &cfg,
        vec![CycleEvent::BatteryRead(None), readings(), CycleEvent::NetworkJoined(true)],
    );
    match c {
        Cycle::Publish(d) => assert!(d.battery_voltage.is_none()),
        _ => panic!("nothing to publish"),
    }
}

#[test]
fn battery_is_left_alone_when_off() {
    let cfg = Config { send_battery: false, ..complete() };
    assert!(matches!(Cycle::start(&cfg), Cycle::Sensor(None)));
}

#[test]
fn failures_end_in_sleep() {
    let cfg = Config { sleep_minutes: 1, ..complete() };
    let asleep = |events| {
        assert_eq!(run(&cfg, events).action(&cfg), CycleAction::Sleep(60_000_000));
    };
    asleep(vec![CycleEvent::BatteryRead(None), CycleEvent::SensorRead(None)]);
    asleep(vec![
        CycleEvent::BatteryRead(None),
        readings(),
        CycleEvent::NetworkJoined(false),
    ]);
    asleep(vec![
        CycleEvent::BatteryRead(None),
        readings(),
        CycleEvent::NetworkJoined(true),
        CycleEvent::Published(false),
    ]);
}

#[test]
fn input_only_pins_end_in_sleep() {
    let cfg = Config { sda_pin: 34, send_battery: false, ..complete() };
    assert!(matches!(Cycle::start(&cfg), Cycle::Sleep));
    let cfg = Config { scl_pin: 39, ..complete() };
    assert!(matches!(run(&cfg, vec![CycleEvent::BatteryRead(reading(384))]), Cycle::Sleep));
}

#[test]
fn sleep_is_the_end() {
    let cfg = complete();
    let c = run(
        &cfg,
        vec![
            CycleEvent::BatteryRead(None),
            CycleEvent::SensorRead(None),
            CycleEvent::NetworkJoined(true),
            CycleEvent::Published(true),
        ],
    );
    assert!(matches!(c, Cycle::Sleep));
}
