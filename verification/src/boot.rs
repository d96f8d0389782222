//! What the node does when it wakes up: which mode it enters, and how a
//! measurement cycle runs until the next deep sleep.
use vstd::prelude::*;

use crate::config;
use crate::config::{Config, ConfigError, SetupState};
use crate::sensor;
use crate::sensor::{Bme280Config, Reading, SensorData};

verus! {

// ---------------------------------------------------------------------------
// Boot mode
// ---------------------------------------------------------------------------

/// Why the node opens the portal.
pub enum PortalReason {
    /// The configuration could not be loaded.
    LoadFailed(ConfigError),
    /// There is no configuration.
    NoConfig,
    /// The configuration cannot be used.
    Invalid(ConfigError),
    /// The configuration is not complete.
    NotComplete(SetupState),
}

/// Why the node opens the portal, by what the texts hold.
pub enum PortalReasonView {
    LoadFailed(config::ConfigErrorView),
    NoConfig,
    Invalid(config::ConfigErrorView),
    NotComplete(SetupState),
}

impl View for PortalReason {
    type V = PortalReasonView;

    open spec fn view(&self) -> PortalReasonView {
        match self {
            PortalReason::LoadFailed(e) => PortalReasonView::LoadFailed(e@),
            PortalReason::NoConfig => PortalReasonView::NoConfig,
            PortalReason::Invalid(e) => PortalReasonView::Invalid(e@),
            PortalReason::NotComplete(s) => PortalReasonView::NotComplete(*s),
        }
    }
}

/// What the node does after a boot.
pub enum BootMode {
    /// It measures.
    Measurement(Config),
    /// It opens the portal.
    Portal(PortalReason),
}

/// What the node does after a boot, by what the texts hold.
pub enum BootModeView {
    Measurement(config::ConfigView),
    Portal(PortalReasonView),
}

impl View for BootMode {
    type V = BootModeView;

    open spec fn view(&self) -> BootModeView {
        match self {
            BootMode::Measurement(c) => BootModeView::Measurement(c@),
            BootMode::Portal(r) => BootModeView::Portal(r@),
        }
    }
}

/// What the node does with what was loaded: it measures with a configuration
/// that can be used and is complete, and opens the portal in every other case.
pub open spec fn mode_for(
    loaded: Result<Option<config::ConfigView>, config::ConfigErrorView>,
) -> BootModeView {
    match loaded {
        Err(e) => BootModeView::Portal(PortalReasonView::LoadFailed(e)),
        Ok(None) => BootModeView::Portal(PortalReasonView::NoConfig),
        Ok(Some(c)) => match config::validation(c) {
            Err(e) => BootModeView::Portal(PortalReasonView::Invalid(e)),
            Ok(_) => if config::setup_state_of(c) == SetupState::Complete {
                BootModeView::Measurement(c)
            } else {
                BootModeView::Portal(PortalReasonView::NotComplete(config::setup_state_of(c)))
            },
        },
    }
}

/// Decides what the node does after a boot.
pub fn boot_mode(loaded: Result<Option<Config>, ConfigError>) -> (r: BootMode)
    ensures
        r@ == mode_for(config::loaded_view(loaded)),
{
    match loaded {
        Err(e) => BootMode::Portal(PortalReason::LoadFailed(e)),
        Ok(None) => BootMode::Portal(PortalReason::NoConfig),
        Ok(Some(c)) => match c.validate() {
            Err(e) => BootMode::Portal(PortalReason::Invalid(e)),
            Ok(_) => {
                let state = c.setup_state();
                if state == SetupState::Complete {
                    BootMode::Measurement(c)
                } else {
                    BootMode::Portal(PortalReason::NotComplete(state))
                }
            },
        },
    }
}

// ---------------------------------------------------------------------------
// Waking and sleeping
// ---------------------------------------------------------------------------

/// What woke the node up.
#[derive(Debug, Clone, Copy, PartialEq, Eq, Structural)]
pub enum WakeupCause {
    Ext0,
    Ext1,
    Timer,
    Touchpad,
    Ulp,
    Other,
}

/// What woke the node up, in words.
pub open spec fn wakeup_text(cause: WakeupCause) -> Seq<char> {
    match cause {
        WakeupCause::Ext0 => "EXT0 (RTC_IO)"@,
        WakeupCause::Ext1 => "EXT1 (RTC_CNTL)"@,
        WakeupCause::Timer => "deep-sleep timer"@,
        WakeupCause::Touchpad => "touchpad"@,
        WakeupCause::Ulp => "ULP co-processor"@,
        WakeupCause::Other => "power-on / undefined"@,
    }
}

/// What woke the node up, in words.
pub fn wakeup_reason(cause: WakeupCause) -> (r: &'static str)
    ensures
        r@ == wakeup_text(cause),
{
    match cause {
        WakeupCause::Ext0 => "EXT0 (RTC_IO)",
        WakeupCause::Ext1 => "EXT1 (RTC_CNTL)",
        WakeupCause::Timer => "deep-sleep timer",
        WakeupCause::Touchpad => "touchpad",
        WakeupCause::Ulp => "ULP co-processor",
        WakeupCause::Other => "power-on / undefined",
    }
}

/// How long to sleep, in microseconds.
pub fn sleep_micros(minutes: u32) -> (us: u64)
    ensures
        us == minutes * 60 * 1_000_000,
{
    minutes as u64 * 60 * 1_000_000
}

// ---------------------------------------------------------------------------
// Measurement cycle
// ---------------------------------------------------------------------------

/// How far a measurement cycle has come.
#[derive(Debug, Clone, Copy)]
pub enum Cycle {
    /// The battery is to be read.
    Battery,
    /// The sensor is to be read; with what the battery gave.
    Sensor(Option<Reading>),
    /// The network is to be joined; with the readings.
    Network(SensorData),
    /// The readings are to be published.
    Publish(SensorData),
    /// The node is to go to sleep.
    Sleep,
}

/// What happened in a measurement cycle.
#[derive(Debug, Clone, Copy)]
pub enum CycleEvent {
    /// The battery was read, or could not be.
    BatteryRead(Option<Reading>),
    /// The sensor was read (temperature, pressure and humidity as far as they
    /// are wanted), or could not be (nothing).
    SensorRead(Option<(Option<Reading>, Option<Reading>, Option<Reading>)>),
    /// The network was joined, or could not be.
    NetworkJoined(bool),
    /// The readings were published, or could not be.
    Published(bool),
}

/// What is to be done next in a measurement cycle.
#[derive(Debug, Clone, Copy, PartialEq, Eq, Structural)]
pub enum CycleAction {
    /// Read the battery over this ADC pin.
    ReadBattery(u8),
    /// Read the sensor over these SDA and SCL pins.
    ReadSensor(Bme280Config, u8, u8),
    JoinNetwork,
    Publish,
    /// Sleep for this many microseconds.
    Sleep(u64),
}

/// How the cycle goes on once the battery is dealt with: to the sensor, unless
/// one of its pins is input-only, which ends the cycle.
pub open spec fn after_battery(
    c: config::ConfigView,
    battery: Option<Reading>,
) -> Cycle {
    if c.sda_pin > config::MAX_I2C_PIN || c.scl_pin > config::MAX_I2C_PIN {
        Cycle::Sleep
    } else {
        Cycle::Sensor(battery)
    }
}

/// How a cycle begins: with the battery, if it is wanted.
pub open spec fn cycle_start(c: config::ConfigView) -> Cycle {
    if c.send_battery {
        Cycle::Battery
    } else {
        after_battery(c, None)
    }
}

/// How far the cycle has come after an event. A failure of the sensor or the
/// network ends it; one of the battery or of publishing does not matter. An
/// event that does not belong to the state changes nothing.
pub open spec fn cycle_next(
    s: Cycle,
    c: config::ConfigView,
    ev: CycleEvent,
) -> Cycle {
    match (s, ev) {
        (Cycle::Battery, CycleEvent::BatteryRead(b)) => after_battery(c, b),
        (Cycle::Sensor(b), CycleEvent::SensorRead(Some(v))) => Cycle::Network(
            SensorData {
                temperature: v.0,
                pressure: v.1,
                humidity: v.2,
                battery_voltage: b,
            },
        ),
        (Cycle::Sensor(_), CycleEvent::SensorRead(None)) => Cycle::Sleep,
        (Cycle::Network(d), CycleEvent::NetworkJoined(true)) => Cycle::Publish(d),
        (Cycle::Network(_), CycleEvent::NetworkJoined(false)) => Cycle::Sleep,
        (Cycle::Publish(_), CycleEvent::Published(_)) => Cycle::Sleep,
        _ => s,
    }
}

/// What is to be done in a state of the cycle.
pub open spec fn cycle_action(s: Cycle, c: config::ConfigView) -> CycleAction {
    match s {
        Cycle::Battery => CycleAction::ReadBattery(c.adc_pin),
        Cycle::Sensor(_) => CycleAction::ReadSensor(
            sensor::bme280_config_of(c),
            c.sda_pin,
            c.scl_pin,
        ),
        Cycle::Network(_) => CycleAction::JoinNetwork,
        Cycle::Publish(_) => CycleAction::Publish,
        Cycle::Sleep => CycleAction::Sleep((c.sleep_minutes * 60 * 1_000_000) as u64),
    }
}

impl Cycle {
    /// How the cycle goes on once the battery is dealt with.
    fn to_sensor(cfg: &Config, battery: Option<Reading>) -> (r: Cycle)
        ensures
            r == after_battery(cfg@, battery),
    {
        if cfg.sda_pin > config::MAX_I2C_PIN || cfg.scl_pin > config::MAX_I2C_PIN {
            Cycle::Sleep
        } else {
            Cycle::Sensor(battery)
        }
    }

    /// Begins a cycle.
    pub fn start(cfg: &Config) -> (r: Cycle)
        ensures
            r == cycle_start(cfg@),
    {
        if cfg.send_battery {
            Cycle::Battery
        } else {
            Cycle::to_sensor(cfg, None)
        }
    }

    /// How far the cycle has come after an event.
    pub fn next(self, cfg: &Config, ev: CycleEvent) -> (r: Cycle)
        ensures
            r == cycle_next(self, cfg@, ev),
    {
        match (self, ev) {
            (Cycle::Battery, CycleEvent::BatteryRead(b)) => Cycle::to_sensor(cfg, b),
            (Cycle::Sensor(b), CycleEvent::SensorRead(Some(v))) => Cycle::Network(
                SensorData {
                    temperature: v.0,
                    pressure: v.1,
                    humidity: v.2,
                    battery_voltage: b,
                },
            ),
            (Cycle::Sensor(_), CycleEvent::SensorRead(None)) => Cycle::Sleep,
            (Cycle::Network(d), CycleEvent::NetworkJoined(true)) => Cycle::Publish(d),
            (Cycle::Network(_), CycleEvent::NetworkJoined(false)) => Cycle::Sleep,
            (Cycle::Publish(_), CycleEvent::Published(_)) => Cycle::Sleep,
            (state, _) => state,
        }
    }

    /// What is to be done next.
    pub fn action(&self, cfg: &Config) -> (r: CycleAction)
        ensures
            r == cycle_action(*self, cfg@),
    {
        match self {
            Cycle::Battery => CycleAction::ReadBattery(cfg.adc_pin),
            Cycle::Sensor(_) => CycleAction::ReadSensor(
                Bme280Config::from_config(cfg),
                cfg.sda_pin,
                cfg.scl_pin,
            ),
            Cycle::Network(_) => CycleAction::JoinNetwork,
            Cycle::Publish(_) => CycleAction::Publish,
            Cycle::Sleep => CycleAction::Sleep(sleep_micros(cfg.sleep_minutes)),
        }
    }
}

// ---------------------------------------------------------------------------
// Laws
// ---------------------------------------------------------------------------

/// The node measures exactly with pins that can be used, a network and a
/// broker, and with nothing but the configuration that was loaded.
pub proof fn measuring_needs_a_usable_config(
    loaded: Result<Option<config::ConfigView>, config::ConfigErrorView>,
)
    ensures
        mode_for(loaded) is Measurement <==> (loaded matches Ok(Some(c)) && config::pins_usable(
            c,
        ) && c.wifi_ssid.len() > 0 && c.mqtt_server.len() > 0),
        mode_for(loaded) matches BootModeView::Measurement(c) ==> loaded == Ok::<
            Option<config::ConfigView>,
            config::ConfigErrorView,
        >(Some(c)),
{
}

/// How far a cycle has come after several events.
pub open spec fn cycle_after(c: config::ConfigView, events: Seq<CycleEvent>) -> Cycle
    decreases events.len(),
{
    if events.len() == 0 {
        cycle_start(c)
    } else {
        cycle_next(cycle_after(c, events.drop_last()), c, events.last())
    }
}

/// Whether an event is the outcome of what is to be done in a state.
pub open spec fn is_outcome(s: Cycle, ev: CycleEvent) -> bool {
    match s {
        Cycle::Battery => ev is BatteryRead,
        Cycle::Sensor(_) => ev is SensorRead,
        Cycle::Network(_) => ev is NetworkJoined,
        Cycle::Publish(_) => ev is Published,
        Cycle::Sleep => true,
    }
}

/// How many actions at most are left before the node sleeps.
pub open spec fn actions_left(s: Cycle) -> nat {
    match s {
        Cycle::Battery => 4,
        Cycle::Sensor(_) => 3,
        Cycle::Network(_) => 2,
        Cycle::Publish(_) => 1,
        Cycle::Sleep => 0,
    }
}

/// Every outcome brings the node closer to sleep.
pub proof fn every_outcome_is_progress(s: Cycle, c: config::ConfigView, ev: CycleEvent)
    requires
        is_outcome(s, ev),
    ensures
        !(s is Sleep) ==> actions_left(cycle_next(s, c, ev)) < actions_left(s),
        s is Sleep ==> cycle_next(s, c, ev) is Sleep,
{
}

/// Every cycle ends in deep sleep, whatever fails: after at most four actions.
pub proof fn every_cycle_ends_in_sleep(c: config::ConfigView, outcomes: Seq<CycleEvent>)
    requires
        forall|i: int|
            0 <= i < outcomes.len() ==> is_outcome(
                cycle_after(c, outcomes.take(i)),
                #[trigger] outcomes[i],
            ),
    ensures
        actions_left(cycle_after(c, outcomes)) + outcomes.len() <= 4 || cycle_after(
            c,
            outcomes,
        ) is Sleep,
        outcomes.len() >= 4 ==> cycle_after(c, outcomes) is Sleep,
    decreases outcomes.len(),
{
    if outcomes.len() > 0 {
        let earlier = outcomes.drop_last();
        let n = outcomes.len() - 1;
        assert forall|i: int| 0 <= i < earlier.len() implies is_outcome(
            cycle_after(c, earlier.take(i)),
            #[trigger] earlier[i],
        ) by {
            assert(earlier.take(i) =~= outcomes.take(i));
            assert(is_outcome(cycle_after(c, outcomes.take(i)), outcomes[i]));
        }
        every_cycle_ends_in_sleep(c, earlier);
        assert(outcomes.take(n) =~= earlier);
        assert(is_outcome(cycle_after(c, outcomes.take(n)), outcomes[n]));
        every_outcome_is_progress(cycle_after(c, earlier), c, outcomes[n]);
    }
}

/// The sleep lasts as long as configured.
pub proof fn sleep_lasts_as_configured(c: config::ConfigView)
    ensures
        cycle_action(Cycle::Sleep, c) matches CycleAction::Sleep(us) && us
            == c.sleep_minutes * 60 * 1_000_000,
{
}

/// A battery that cannot be read stops nothing: the readings of the sensor are
/// published without it.
pub proof fn battery_failure_is_not_fatal(
    c: config::ConfigView,
    battery: Option<Reading>,
    readings: (Option<Reading>, Option<Reading>, Option<Reading>),
)
    requires
        config::pins_usable(c),
        c.send_battery,
    ensures
        cycle_after(
            c,
            seq![
                CycleEvent::BatteryRead(battery),
                CycleEvent::SensorRead(Some(readings)),
                CycleEvent::NetworkJoined(true),
            ],
        ) == Cycle::Publish(
            SensorData {
                temperature: readings.0,
                pressure: readings.1,
                humidity: readings.2,
                battery_voltage: battery,
            },
        ),
{
    let e0 = CycleEvent::BatteryRead(battery);
    let e1 = CycleEvent::SensorRead(Some(readings));
    let e2 = CycleEvent::NetworkJoined(true);
    assert(seq![e0, e1, e2].drop_last() =~= seq![e0, e1]);
    assert(seq![e0, e1].drop_last() =~= seq![e0]);
    assert(seq![e0].drop_last() =~= Seq::<CycleEvent>::empty());
    assert(cycle_after(c, Seq::<CycleEvent>::empty()) == Cycle::Battery);
    assert(cycle_after(c, seq![e0]) == Cycle::Sensor(battery));
    assert(cycle_after(c, seq![e0, e1]) is Network);
}

/// Without the battery the ADC is not touched, and no battery reading is
/// published.
pub proof fn unwanted_battery_is_left_alone(
    c: config::ConfigView,
    events: Seq<CycleEvent>,
)
    requires
        !c.send_battery,
    ensures
        !(cycle_after(c, events) is Battery),
        cycle_after(c, events) matches Cycle::Sensor(b) ==> b is None,
        cycle_after(c, events) matches Cycle::Network(d) ==> d.battery_voltage is None,
        cycle_after(c, events) matches Cycle::Publish(d) ==> d.battery_voltage is None,
    decreases events.len(),
{
    if events.len() > 0 {
        unwanted_battery_is_left_alone(c, events.drop_last());
    }
}

/// Nothing is published before the sensor was read and the network was joined.
pub proof fn nothing_is_published_without_a_network(
    c: config::ConfigView,
    events: Seq<CycleEvent>,
)
    ensures
        cycle_after(c, events) is Network || cycle_after(c, events) is Publish ==> exists|i: int|
            0 <= i < events.len() && (#[trigger] events[i] matches CycleEvent::SensorRead(
                Some(_),
            )),
        cycle_after(c, events) is Publish ==> exists|i: int|
            0 <= i < events.len() && #[trigger] events[i] == CycleEvent::NetworkJoined(true),
    decreases events.len(),
{
    if events.len() > 0 {
        let earlier = events.drop_last();
        nothing_is_published_without_a_network(c, earlier);
        assert(forall|i: int| 0 <= i < earlier.len() ==> #[trigger] earlier[i] == events[i]);
        assert(events[events.len() - 1] == events.last());
    }
}

/// The portal is opened for the reason that there is: what failed to load, what
/// is wrong with the pins, or what is missing.
pub proof fn portal_is_opened_for_a_reason(
    e: config::ConfigErrorView,
    c: config::ConfigView,
)
    ensures
        mode_for(Err(e)) == BootModeView::Portal(PortalReasonView::LoadFailed(e)),
        mode_for(Ok(None)) == BootModeView::Portal(PortalReasonView::NoConfig),
        !config::pins_usable(c) ==> (mode_for(Ok(Some(c))) matches BootModeView::Portal(
            PortalReasonView::Invalid(why),
        ) && config::validation(c) == Err::<(), config::ConfigErrorView>(why)),
        config::pins_usable(c) && c.wifi_ssid.len() == 0 ==> mode_for(Ok(Some(c)))
            == BootModeView::Portal(PortalReasonView::NotComplete(SetupState::Incomplete)),
        config::pins_usable(c) && c.wifi_ssid.len() > 0 && c.mqtt_server.len() == 0 ==> mode_for(
            Ok(Some(c)),
        ) == BootModeView::Portal(PortalReasonView::NotComplete(SetupState::WifiOnly)),
        config::pins_usable(c) && c.wifi_ssid.len() > 0 && c.mqtt_server.len() > 0 ==> mode_for(
            Ok(Some(c)),
        ) == BootModeView::Measurement(c),
{
}

/// A node that does not read its battery publishes all that its sensor gives.
pub proof fn node_without_battery_publishes(
    c: config::ConfigView,
    readings: (Option<Reading>, Option<Reading>, Option<Reading>),
)
    requires
        config::pins_usable(c),
        !c.send_battery,
    ensures
        cycle_after(c, Seq::empty()) == Cycle::Sensor(None),
        cycle_after(
            c,
            seq![CycleEvent::SensorRead(Some(readings)), CycleEvent::NetworkJoined(true)],
        ) == Cycle::Publish(
            SensorData {
                temperature: readings.0,
                pressure: readings.1,
                humidity: readings.2,
                battery_voltage: None,
            },
        ),
{
    let e0 = CycleEvent::SensorRead(Some(readings));
    let e1 = CycleEvent::NetworkJoined(true);
    assert(seq![e0, e1].drop_last() =~= seq![e0]);
    assert(seq![e0].drop_last() =~= Seq::<CycleEvent>::empty());
    assert(cycle_after(c, Seq::<CycleEvent>::empty()) == Cycle::Sensor(None));
    assert(cycle_after(c, seq![e0]) is Network);
}

/// The readings that wait for the network are the ones that are published, and
/// nothing is lost or changed on the way, whatever is configured.
pub proof fn readings_reach_the_broker(
    c: config::ConfigView,
    battery: Option<Reading>,
    readings: (Option<Reading>, Option<Reading>, Option<Reading>),
    data: SensorData,
    sent: bool,
)
    ensures
        cycle_next(Cycle::Sensor(battery), c, CycleEvent::SensorRead(Some(readings)))
            == Cycle::Network(
            SensorData {
                temperature: readings.0,
                pressure: readings.1,
                humidity: readings.2,
                battery_voltage: battery,
            },
        ),
        cycle_next(Cycle::Network(data), c, CycleEvent::NetworkJoined(true)) == Cycle::Publish(
            data,
        ),
        cycle_next(Cycle::Publish(data), c, CycleEvent::Published(sent)) is Sleep,
{
}

/// A sensor that cannot be read, or a network that cannot be joined, ends the
/// cycle at once, whatever is configured.
pub proof fn fatal_failures_end_the_cycle(
    c: config::ConfigView,
    battery: Option<Reading>,
    data: SensorData,
)
    ensures
        cycle_next(Cycle::Sensor(battery), c, CycleEvent::SensorRead(None)) is Sleep,
        cycle_next(Cycle::Network(data), c, CycleEvent::NetworkJoined(false)) is Sleep,
{
}

/// The cycle begins with the battery exactly if it is wanted; then, whatever the
/// battery gave, it goes on to the sensor exactly if both of its pins are among
/// GPIO 0 to 33, and sleeps otherwise.
pub proof fn sensor_follows_the_battery(c: config::ConfigView, battery: Option<Reading>)
    ensures
        cycle_after(c, Seq::empty()) is Battery <==> c.send_battery,
        ({
            let given = if c.send_battery {
                battery
            } else {
                None
            };
            let s = if c.send_battery {
                cycle_next(Cycle::Battery, c, CycleEvent::BatteryRead(battery))
            } else {
                cycle_after(c, Seq::empty())
            };
            &&& c.sda_pin <= 33 && c.scl_pin <= 33 ==> s == Cycle::Sensor(given)
            &&& c.sda_pin > 33 || c.scl_pin > 33 ==> s is Sleep
        }),
{
}

/// What is not the outcome of what was to be done changes nothing.
pub proof fn stray_events_do_not_disturb_the_cycle(
    s: Cycle,
    c: config::ConfigView,
    ev: CycleEvent,
)
    requires
        !is_outcome(s, ev),
    ensures
        cycle_next(s, c, ev) == s,
{
}

/// What is done in a cycle is what the configuration says: the battery is read
/// over its pin, the sensor over its two pins, at its address and for the wanted
/// channels, and the node sleeps for the configured minutes.
pub proof fn cycle_acts_as_configured(
    c: config::ConfigView,
    battery: Option<Reading>,
    data: SensorData,
)
    ensures
        cycle_action(Cycle::Battery, c) == CycleAction::ReadBattery(c.adc_pin),
        cycle_action(Cycle::Sensor(battery), c) matches CycleAction::ReadSensor(what, sda, scl) && {
            &&& what.addr == c.bme280_addr
            &&& what.send_temperature == c.send_temperature
            &&& what.send_pressure == c.send_pressure
            &&& what.send_humidity == c.send_humidity
            &&& sda == c.sda_pin
            &&& scl == c.scl_pin
        },
        cycle_action(Cycle::Network(data), c) == CycleAction::JoinNetwork,
        cycle_action(Cycle::Publish(data), c) == CycleAction::Publish,
        cycle_action(Cycle::Sleep, c) matches CycleAction::Sleep(us) && us == c.sleep_minutes
            * 60_000_000,
{
}

} // verus!
