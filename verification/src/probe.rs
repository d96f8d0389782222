//! Tests that the portal offers: joining a network, reaching a broker, reading
//! the sensor and the battery.
use vstd::prelude::*;
use vstd::string::*;

use crate::config;
use crate::json;
use crate::json::{json_str, write_bool_member, write_object, write_reply, write_text_member};
use crate::network;
use crate::network::{credentials, mqtt_options, Credentials, MqttEvent, MqttOptions, TooLong};
use crate::sensor;
use crate::sensor::Reading;
use crate::text;
use crate::text::{decimal_text, replaced};

verus! {

/// How a test ended.
pub struct TestResult {
    pub ok: bool,
    pub msg: String,
}

/// How a test ended, by what the text holds.
pub struct TestResultView {
    pub ok: bool,
    pub msg: Seq<char>,
}

impl View for TestResult {
    type V = TestResultView;

    open spec fn view(&self) -> TestResultView {
        TestResultView { ok: self.ok, msg: self.msg@ }
    }
}

/// A test that failed.
pub open spec fn failure(msg: Seq<char>) -> TestResultView {
    TestResultView { ok: false, msg }
}

/// A test that succeeded.
pub open spec fn success(msg: Seq<char>) -> TestResultView {
    TestResultView { ok: true, msg }
}

/// A test that failed.
fn failed(msg: &str) -> (r: TestResult)
    ensures
        r@ == failure(msg@),
{
    TestResult { ok: false, msg: msg.to_string() }
}

/// A test that failed for a reason.
fn failed_with(what: &str, why: &str) -> (r: TestResult)
    ensures
        r@ == failure(what@ + why@),
{
    TestResult { ok: false, msg: what.to_string().concat(why) }
}

/// A test that succeeded.
fn succeeded(msg: &str) -> (r: TestResult)
    ensures
        r@ == success(msg@),
{
    TestResult { ok: true, msg: msg.to_string() }
}

// ---------------------------------------------------------------------------
// WiFi test
// ---------------------------------------------------------------------------

/// How long joining may take in a test, in nanoseconds.
pub const JOIN_TIMEOUT_NS: u128 = 15_000_000_000;

/// How long an address may take in a test, in nanoseconds.
pub const LEASE_TIMEOUT_NS: u128 = 6_000_000_000;

/// The pause between two looks at the connection in a test, in milliseconds.
pub const JOIN_POLL_MS: u32 = 500;

/// The pause before each look for an address in a test, in milliseconds.
pub const LEASE_POLL_MS: u32 = 300;

/// The pause after leaving a network, before a test of another, in milliseconds.
pub const LEAVE_MS: u32 = 200;

/// The address of an interface that has none.
pub const NO_IP: &'static str = "0.0.0.0";

/// How far a WiFi test has come.
pub enum WifiTest {
    /// The radio is to be reserved for the test.
    Reserving,
    /// The credentials are to be handed to the driver.
    Configuring,
    /// The attempt is to be started.
    Starting,
    /// The network is to be joined; whether it was looked for already.
    Joining(bool),
    /// An address is to be assigned.
    Leasing,
    /// It is over.
    Over(TestResult),
}

/// How far a WiFi test has come, by what the text holds.
pub enum WifiTestView {
    Reserving,
    Configuring,
    Starting,
    Joining(bool),
    Leasing,
    Over(TestResultView),
}

impl View for WifiTest {
    type V = WifiTestView;

    open spec fn view(&self) -> WifiTestView {
        match self {
            WifiTest::Reserving => WifiTestView::Reserving,
            WifiTest::Configuring => WifiTestView::Configuring,
            WifiTest::Starting => WifiTestView::Starting,
            WifiTest::Joining(again) => WifiTestView::Joining(*again),
            WifiTest::Leasing => WifiTestView::Leasing,
            WifiTest::Over(r) => WifiTestView::Over(r@),
        }
    }
}

/// What happened in a WiFi test.
pub enum WifiTestEvent {
    /// The radio is reserved, or another test has it.
    Reserved(bool),
    /// The driver took the credentials, or not.
    Configured(Result<(), String>),
    /// The attempt was started, or not.
    Started(Result<(), String>),
    /// A look at the connection, this many nanoseconds after the start.
    Status(Result<bool, String>, u128),
    /// A look for an address, this many nanoseconds after the network was
    /// joined.
    Address(Option<String>, u128),
}

/// What happened in a WiFi test, by what the texts hold.
pub enum WifiTestEventView {
    Reserved(bool),
    Configured(Result<(), Seq<char>>),
    Started(Result<(), Seq<char>>),
    Status(Result<bool, Seq<char>>, nat),
    Address(Option<Seq<char>>, nat),
}

impl View for WifiTestEvent {
    type V = WifiTestEventView;

    open spec fn view(&self) -> WifiTestEventView {
        match self {
            WifiTestEvent::Reserved(b) => WifiTestEventView::Reserved(*b),
            WifiTestEvent::Configured(r) => WifiTestEventView::Configured(network::done_view(*r)),
            WifiTestEvent::Started(r) => WifiTestEventView::Started(network::done_view(*r)),
            WifiTestEvent::Status(r, t) => WifiTestEventView::Status(
                network::status_view(*r),
                *t as nat,
            ),
            WifiTestEvent::Address(a, t) => WifiTestEventView::Address(
                sensor::option_view(*a),
                *t as nat,
            ),
        }
    }
}

/// What is to be done next in a WiFi test.
#[derive(Debug, Clone, Copy, PartialEq, Eq, Structural)]
pub enum WifiTestAction {
    /// Reserve the radio, without waiting for it.
    Reserve,
    /// Leave any network, pause for this many milliseconds, then hand the
    /// credentials to the driver.
    Configure(u32),
    /// Start the attempt.
    Start,
    /// Look at the connection after this many milliseconds.
    LookAtStatus(u32),
    /// Look for an address after this many milliseconds.
    LookForAddress(u32),
    /// Report.
    Report,
}

/// Why a WiFi test does not begin at all.
pub open spec fn wifi_test_refused(
    ssid: Seq<char>,
    password: Seq<char>,
) -> Option<TestResultView> {
    if ssid.len() == 0 {
        Some(failure("Kein SSID angegeben"@))
    } else {
        match network::too_long(ssid, password) {
            Some(TooLong::Ssid) => Some(failure("SSID zu lang (max 32 Zeichen)"@)),
            Some(TooLong::Password) => Some(failure("Passwort zu lang (max 64 Zeichen)"@)),
            None => None,
        }
    }
}

/// How far a WiFi test has come after an event. The network counts as reached
/// once it is joined, with or without an address. An event that does not
/// belong to the state changes nothing.
pub open spec fn wifi_test_next(s: WifiTestView, ev: WifiTestEventView) -> WifiTestView {
    match (s, ev) {
        (WifiTestView::Reserving, WifiTestEventView::Reserved(true)) => WifiTestView::Configuring,
        (WifiTestView::Reserving, WifiTestEventView::Reserved(false)) => WifiTestView::Over(
            failure("Ein Test läuft bereits, bitte warten"@),
        ),
        (WifiTestView::Configuring, WifiTestEventView::Configured(Ok(_))) => {
            WifiTestView::Starting
        },
        (WifiTestView::Configuring, WifiTestEventView::Configured(Err(e))) => WifiTestView::Over(
            failure("Konfigurationsfehler: "@ + e),
        ),
        (WifiTestView::Starting, WifiTestEventView::Started(Ok(_))) => WifiTestView::Joining(
            false,
        ),
        (WifiTestView::Starting, WifiTestEventView::Started(Err(e))) => WifiTestView::Over(
            failure("Verbindungsversuch fehlgeschlagen: "@ + e),
        ),
        (WifiTestView::Joining(_), WifiTestEventView::Status(status, elapsed)) => match status {
            Ok(true) => WifiTestView::Leasing,
            Ok(false) => if elapsed > JOIN_TIMEOUT_NS {
                WifiTestView::Over(
                    failure("Timeout (15 s) – WLAN nicht erreichbar oder Passwort falsch"@),
                )
            } else {
                WifiTestView::Joining(true)
            },
            Err(e) => WifiTestView::Over(failure("Statusabfrage: "@ + e)),
        },
        (WifiTestView::Leasing, WifiTestEventView::Address(address, elapsed)) => {
            if address matches Some(ip) && ip != NO_IP@ {
                WifiTestView::Over(success("Verbunden! IP: "@ + address->0))
            } else if elapsed > LEASE_TIMEOUT_NS {
                WifiTestView::Over(
                    success("Verbunden – keine DHCP-Antwort (statische IP?)"@),
                )
            } else {
                WifiTestView::Leasing
            }
        },
        _ => s,
    }
}

/// What is to be done in a state of a WiFi test.
pub open spec fn wifi_test_action(s: WifiTestView) -> WifiTestAction {
    match s {
        WifiTestView::Reserving => WifiTestAction::Reserve,
        WifiTestView::Configuring => WifiTestAction::Configure(LEAVE_MS),
        WifiTestView::Starting => WifiTestAction::Start,
        WifiTestView::Joining(again) => WifiTestAction::LookAtStatus(
            if again {
                JOIN_POLL_MS
            } else {
                0
            },
        ),
        WifiTestView::Leasing => WifiTestAction::LookForAddress(LEASE_POLL_MS),
        WifiTestView::Over(_) => WifiTestAction::Report,
    }
}

impl WifiTest {
    /// Begins a test of the given credentials, or says why not.
    pub fn begin(ssid: &str, password: &str) -> (r: Result<(WifiTest, Credentials), TestResult>)
        ensures
            match r {
                Ok(t) => {
                    &&& wifi_test_refused(ssid@, password@) is None
                    &&& t.0@ == WifiTestView::Reserving
                    &&& network::holds(t.1, ssid@, password@)
                },
                Err(e) => wifi_test_refused(ssid@, password@) == Some(e@),
            },
    {
        if ssid.is_empty() {
            return Err(failed("Kein SSID angegeben"));
        }
        match credentials(ssid, password) {
            Ok(c) => Ok((WifiTest::Reserving, c)),
            Err(TooLong::Ssid) => Err(failed("SSID zu lang (max 32 Zeichen)")),
            Err(TooLong::Password) => Err(failed("Passwort zu lang (max 64 Zeichen)")),
        }
    }

    /// How far the test has come after an event.
    pub fn next(self, ev: WifiTestEvent) -> (r: WifiTest)
        ensures
            r@ == wifi_test_next(self@, ev@),
    {
        match (self, ev) {
            (WifiTest::Reserving, WifiTestEvent::Reserved(true)) => WifiTest::Configuring,
            (WifiTest::Reserving, WifiTestEvent::Reserved(false)) => WifiTest::Over(
                failed("Ein Test läuft bereits, bitte warten"),
            ),
            (WifiTest::Configuring, WifiTestEvent::Configured(Ok(_))) => WifiTest::Starting,
            (WifiTest::Configuring, WifiTestEvent::Configured(Err(e))) => WifiTest::Over(
                failed_with("Konfigurationsfehler: ", e.as_str()),
            ),
            (WifiTest::Starting, WifiTestEvent::Started(Ok(_))) => WifiTest::Joining(false),
            (WifiTest::Starting, WifiTestEvent::Started(Err(e))) => WifiTest::Over(
                failed_with("Verbindungsversuch fehlgeschlagen: ", e.as_str()),
            ),
            (WifiTest::Joining(_), WifiTestEvent::Status(status, elapsed)) => match status {
                Ok(true) => WifiTest::Leasing,
                Ok(false) => if elapsed > JOIN_TIMEOUT_NS {
                    WifiTest::Over(
                        failed("Timeout (15 s) – WLAN nicht erreichbar oder Passwort falsch"),
                    )
                } else {
                    WifiTest::Joining(true)
                },
                Err(e) => WifiTest::Over(failed_with("Statusabfrage: ", e.as_str())),
            },
            (WifiTest::Leasing, WifiTestEvent::Address(address, elapsed)) => {
                if let Some(ip) = address {
                    if ip != NO_IP.to_string() {
                        return WifiTest::Over(
                            TestResult {
                                ok: true,
                                msg: "Verbunden! IP: ".to_string().concat(ip.as_str()),
                            },
                        );
                    }
                }
                if elapsed > LEASE_TIMEOUT_NS {
                    WifiTest::Over(
                        succeeded("Verbunden – keine DHCP-Antwort (statische IP?)"),
                    )
                } else {
                    WifiTest::Leasing
                }
            },
            (state, _) => state,
        }
    }

    /// What is to be done next.
    pub fn action(&self) -> (r: WifiTestAction)
        ensures
            r == wifi_test_action(self@),
    {
        match self {
            WifiTest::Reserving => WifiTestAction::Reserve,
            WifiTest::Configuring => WifiTestAction::Configure(LEAVE_MS),
            WifiTest::Starting => WifiTestAction::Start,
            WifiTest::Joining(again) => WifiTestAction::LookAtStatus(
                if *again {
                    JOIN_POLL_MS
                } else {
                    0
                },
            ),
            WifiTest::Leasing => WifiTestAction::LookForAddress(LEASE_POLL_MS),
            WifiTest::Over(_) => WifiTestAction::Report,
        }
    }
}

// ---------------------------------------------------------------------------
// MQTT test
// ---------------------------------------------------------------------------

/// The client name of a test.
pub const TEST_CLIENT_ID: &'static str = "wnode-test";

/// How long a broker may take to answer a test, in seconds.
pub const BROKER_TIMEOUT_S: u64 = 10;

/// How far an MQTT test has come.
pub enum MqttTest {
    /// The network is to be looked at.
    Checking,
    /// The client is to be opened.
    Opening,
    /// The reader of its events is to be started.
    Listening,
    /// The broker is to answer.
    Awaiting,
    /// It is over.
    Over(TestResult),
}

/// How far an MQTT test has come, by what the text holds.
pub enum MqttTestView {
    Checking,
    Opening,
    Listening,
    Awaiting,
    Over(TestResultView),
}

impl View for MqttTest {
    type V = MqttTestView;

    open spec fn view(&self) -> MqttTestView {
        match self {
            MqttTest::Checking => MqttTestView::Checking,
            MqttTest::Opening => MqttTestView::Opening,
            MqttTest::Listening => MqttTestView::Listening,
            MqttTest::Awaiting => MqttTestView::Awaiting,
            MqttTest::Over(r) => MqttTestView::Over(r@),
        }
    }
}

/// What happened in an MQTT test.
pub enum MqttTestEvent {
    /// A look at the network; nothing if a WiFi test has the radio.
    Network(Option<Result<bool, String>>),
    /// The client was opened, or not.
    Opened(Result<(), String>),
    /// The reader was started, or not.
    Listening(Result<(), String>),
    /// The broker answered, or did not within the time.
    Answered(Option<bool>),
}

/// What happened in an MQTT test, by what the texts hold.
pub enum MqttTestEventView {
    Network(Option<Result<bool, Seq<char>>>),
    Opened(Result<(), Seq<char>>),
    Listening(Result<(), Seq<char>>),
    Answered(Option<bool>),
}

impl View for MqttTestEvent {
    type V = MqttTestEventView;

    open spec fn view(&self) -> MqttTestEventView {
        match self {
            MqttTestEvent::Network(None) => MqttTestEventView::Network(None),
            MqttTestEvent::Network(Some(r)) => MqttTestEventView::Network(
                Some(network::status_view(*r)),
            ),
            MqttTestEvent::Opened(r) => MqttTestEventView::Opened(network::done_view(*r)),
            MqttTestEvent::Listening(r) => MqttTestEventView::Listening(network::done_view(*r)),
            MqttTestEvent::Answered(a) => MqttTestEventView::Answered(*a),
        }
    }
}

/// What is to be done next in an MQTT test.
pub enum MqttTestAction {
    /// Look at the network, without waiting for a WiFi test.
    LookAtNetwork,
    Open(MqttOptions),
    /// Start the reader of the client's events.
    Listen,
    /// Wait for the broker to answer, at most this many seconds.
    AwaitAnswer(u64),
    /// Close the client, if there is one, and report.
    Report,
}

/// What is to be done next in an MQTT test, by what the texts hold.
pub enum MqttTestActionView {
    LookAtNetwork,
    Open(network::MqttOptionsView),
    Listen,
    AwaitAnswer(u64),
    Report,
}

impl View for MqttTestAction {
    type V = MqttTestActionView;

    open spec fn view(&self) -> MqttTestActionView {
        match self {
            MqttTestAction::LookAtNetwork => MqttTestActionView::LookAtNetwork,
            MqttTestAction::Open(o) => MqttTestActionView::Open(o@),
            MqttTestAction::Listen => MqttTestActionView::Listen,
            MqttTestAction::AwaitAnswer(s) => MqttTestActionView::AwaitAnswer(*s),
            MqttTestAction::Report => MqttTestActionView::Report,
        }
    }
}

/// What is to be done in a state of an MQTT test; `options` is how its client
/// is opened.
pub open spec fn mqtt_test_action(
    s: MqttTestView,
    options: network::MqttOptionsView,
) -> MqttTestActionView {
    match s {
        MqttTestView::Checking => MqttTestActionView::LookAtNetwork,
        MqttTestView::Opening => MqttTestActionView::Open(options),
        MqttTestView::Listening => MqttTestActionView::Listen,
        MqttTestView::Awaiting => MqttTestActionView::AwaitAnswer(BROKER_TIMEOUT_S),
        MqttTestView::Over(_) => MqttTestActionView::Report,
    }
}

/// How far an MQTT test of `server` has come after an event. An event that
/// does not belong to the state changes nothing.
pub open spec fn mqtt_test_next(
    s: MqttTestView,
    server: Seq<char>,
    ev: MqttTestEventView,
) -> MqttTestView {
    match (s, ev) {
        (MqttTestView::Checking, MqttTestEventView::Network(status)) => match status {
            None => MqttTestView::Over(failure("WiFi-Test läuft noch, bitte warten"@)),
            Some(Ok(false)) => MqttTestView::Over(
                failure("WLAN nicht verbunden – zuerst WLAN testen"@),
            ),
            Some(Err(e)) => MqttTestView::Over(failure("WLAN-Status: "@ + e)),
            Some(Ok(true)) => if server.len() == 0 {
                MqttTestView::Over(failure("Kein MQTT-Server angegeben"@))
            } else {
                MqttTestView::Opening
            },
        },
        (MqttTestView::Opening, MqttTestEventView::Opened(Ok(_))) => MqttTestView::Listening,
        (MqttTestView::Opening, MqttTestEventView::Opened(Err(e))) => MqttTestView::Over(
            failure("Client-Erstellung: "@ + e),
        ),
        (MqttTestView::Listening, MqttTestEventView::Listening(Ok(_))) => MqttTestView::Awaiting,
        (MqttTestView::Listening, MqttTestEventView::Listening(Err(e))) => MqttTestView::Over(
            failure("Thread-Fehler: "@ + e),
        ),
        (MqttTestView::Awaiting, MqttTestEventView::Answered(answer)) => match answer {
            Some(true) => MqttTestView::Over(success("MQTT-Verbindung erfolgreich!"@)),
            Some(false) => MqttTestView::Over(failure("Broker hat Verbindung abgelehnt"@)),
            None => MqttTestView::Over(failure("Timeout (10 s) – Broker nicht erreichbar"@)),
        },
        _ => s,
    }
}

impl MqttTest {
    /// How far the test of `server` has come after an event.
    pub fn next(self, server: &str, ev: MqttTestEvent) -> (r: MqttTest)
        ensures
            r@ == mqtt_test_next(self@, server@, ev@),
    {
        match (self, ev) {
            (MqttTest::Checking, MqttTestEvent::Network(status)) => match status {
                None => MqttTest::Over(failed("WiFi-Test läuft noch, bitte warten")),
                Some(Ok(false)) => MqttTest::Over(
                    failed("WLAN nicht verbunden – zuerst WLAN testen"),
                ),
                Some(Err(e)) => MqttTest::Over(failed_with("WLAN-Status: ", e.as_str())),
                Some(Ok(true)) => if server.is_empty() {
                    MqttTest::Over(failed("Kein MQTT-Server angegeben"))
                } else {
                    MqttTest::Opening
                },
            },
            (MqttTest::Opening, MqttTestEvent::Opened(Ok(_))) => MqttTest::Listening,
            (MqttTest::Opening, MqttTestEvent::Opened(Err(e))) => MqttTest::Over(
                failed_with("Client-Erstellung: ", e.as_str()),
            ),
            (MqttTest::Listening, MqttTestEvent::Listening(Ok(_))) => MqttTest::Awaiting,
            (MqttTest::Listening, MqttTestEvent::Listening(Err(e))) => MqttTest::Over(
                failed_with("Thread-Fehler: ", e.as_str()),
            ),
            (MqttTest::Awaiting, MqttTestEvent::Answered(answer)) => match answer {
                Some(true) => MqttTest::Over(succeeded("MQTT-Verbindung erfolgreich!")),
                Some(false) => MqttTest::Over(failed("Broker hat Verbindung abgelehnt")),
                None => MqttTest::Over(failed("Timeout (10 s) – Broker nicht erreichbar")),
            },
            (state, _) => state,
        }
    }

    /// What is to be done next in the test of a server and an account.
    pub fn action(&self, server: &str, port: u16, user: &str, password: &str) -> (r: MqttTestAction)
        ensures
            r@ == mqtt_test_action(
                self@,
                network::options_of(server@, port, TEST_CLIENT_ID@, user@, password@),
            ),
    {
        match self {
            MqttTest::Checking => MqttTestAction::LookAtNetwork,
            MqttTest::Opening => MqttTestAction::Open(
                mqtt_options(server, port, TEST_CLIENT_ID, user, password),
            ),
            MqttTest::Listening => MqttTestAction::Listen,
            MqttTest::Awaiting => MqttTestAction::AwaitAnswer(BROKER_TIMEOUT_S),
            MqttTest::Over(_) => MqttTestAction::Report,
        }
    }
}

/// What an event of a test client says of the broker; nothing if it says
/// neither yes nor no.
pub open spec fn broker_answer(ev: MqttEvent) -> Option<bool> {
    match ev {
        MqttEvent::Connected => Some(true),
        MqttEvent::Disconnected | MqttEvent::Error | MqttEvent::Broken => Some(false),
        MqttEvent::Published | MqttEvent::Other => None,
    }
}

/// What an event of a test client says of the broker.
pub fn answer_of(ev: MqttEvent) -> (r: Option<bool>)
    ensures
        r == broker_answer(ev),
{
    match ev {
        MqttEvent::Connected => Some(true),
        MqttEvent::Disconnected | MqttEvent::Error | MqttEvent::Broken => Some(false),
        MqttEvent::Published | MqttEvent::Other => None,
    }
}

// ---------------------------------------------------------------------------
// Sensor test
// ---------------------------------------------------------------------------

/// The text of a reading, or `n/a` if there is none.
pub open spec fn or_na(v: Option<Reading>) -> Seq<char> {
    match v {
        Some(r) => r@,
        None => "n/a"@,
    }
}

/// The members of the reply to a sensor test that gave readings.
pub open spec fn sensor_parts(
    temp: Option<Reading>,
    pres: Option<Reading>,
    humi: Option<Reading>,
) -> Seq<Seq<char>> {
    seq![
        json::bare_member("ok"@, json::bool_text(true)),
        json::text_member("temp"@, or_na(temp)),
        json::text_member("pres"@, or_na(pres)),
        json::text_member("humi"@, or_na(humi)),
    ]
}

/// The text of a reading, or `n/a` if there is none.
fn text_or_na(v: Option<Reading>) -> (r: String)
    ensures
        r@ == or_na(v),
{
    match v {
        Some(r) => r.text(),
        None => "n/a".to_string(),
    }
}

/// What is said of pins that cannot drive I²C lines.
pub const SENSOR_PINS_REFUSED: &'static str = "Ungültige Pin-Nummern (SDA/SCL max GPIO 33)";

/// Whether the sensor cannot be read over these pins, with the reply that says
/// so: the pins above 33 are input-only and cannot drive I²C lines.
pub fn sensor_pins_refused(sda_pin: u8, scl_pin: u8) -> (r: Option<String>)
    ensures
        r is Some <==> sda_pin > config::MAX_I2C_PIN || scl_pin > config::MAX_I2C_PIN,
        r matches Some(s) ==> s@ == json::object_text(
            json::reply_parts(false, SENSOR_PINS_REFUSED@),
        ),
{
    if sda_pin > config::MAX_I2C_PIN || scl_pin > config::MAX_I2C_PIN {
        Some(write_reply(false, SENSOR_PINS_REFUSED))
    } else {
        None
    }
}

/// What is said while another sensor test runs.
pub const SENSOR_BUSY: &'static str = "Sensor wird bereits verwendet";

/// The reply to a sensor test while another one runs.
pub fn sensor_busy() -> (r: String)
    ensures
        r@ == json::object_text(json::reply_parts(false, SENSOR_BUSY@)),
{
    write_reply(false, SENSOR_BUSY)
}

/// The reply to a sensor test that failed: quotes become apostrophes, and what
/// else JSON does not admit is escaped.
pub open spec fn sensor_failure(e: Seq<char>) -> Seq<char> {
    json::object_text(
        json::reply_parts(false, json::json_str_text(text::replace_char(e, '"', '\''))),
    )
}

/// The reply to a sensor test: the readings as numbers with two places, or why
/// there are none. Quotes in a failure become apostrophes.
pub fn sensor_reply(
    reading: &Result<(Option<Reading>, Option<Reading>, Option<Reading>), String>,
) -> (r: String)
    ensures
        r@ == match reading {
            Ok(v) => json::object_text(
                sensor_parts(v.0, v.1, v.2),
            ),
            Err(e) => sensor_failure(e@),
        },
{
    match reading {
        Ok(v) => {
            let mut parts: Vec<String> = Vec::new();
            parts.push(write_bool_member("ok", true));
            parts.push(write_text_member("temp", text_or_na(v.0).as_str()));
            parts.push(write_text_member("pres", text_or_na(v.1).as_str()));
            parts.push(write_text_member("humi", text_or_na(v.2).as_str()));
            assert(json::views(parts@) =~= sensor_parts(v.0, v.1, v.2));
            write_object(&parts)
        },
        Err(e) => write_reply(
            false,
            json_str(replaced(e.as_str(), '"', '\'').as_str()).as_str(),
        ),
    }
}

// ---------------------------------------------------------------------------
// Battery test
// ---------------------------------------------------------------------------

/// What is said of a pin that is no channel of ADC1.
pub const BATTERY_PIN_REFUSED: &'static str = "Ungültiger ADC-Pin (gültig: 32–39)";

/// Whether the battery cannot be read over this pin, with the reply that says
/// so: only the pins 32 to 39 are channels of ADC1.
pub fn battery_pin_refused(pin: u8) -> (r: Option<String>)
    ensures
        r is Some <==> !(config::MIN_ADC_PIN <= pin <= config::MAX_ADC_PIN),
        r matches Some(s) ==> s@ == json::object_text(
            json::reply_parts(false, BATTERY_PIN_REFUSED@),
        ),
{
    if pin < config::MIN_ADC_PIN || pin > config::MAX_ADC_PIN {
        Some(write_reply(false, BATTERY_PIN_REFUSED))
    } else {
        None
    }
}

/// What is said while another battery test runs.
pub const BATTERY_BUSY: &'static str = "ADC wird bereits verwendet";

/// The reply to a battery test while another one runs.
pub fn battery_busy() -> (r: String)
    ensures
        r@ == json::object_text(json::reply_parts(false, BATTERY_BUSY@)),
{
    write_reply(false, BATTERY_BUSY)
}

/// What a battery test says of a reading.
pub open spec fn battery_text(volts: Reading, raw: u16) -> Seq<char> {
    volts@ + " V (raw "@ + text::decimal(raw as nat) + seq![')']
}

/// The reply to a battery test: the voltage as a number with two places and
/// the raw reading that it comes from, or why there is none.
pub fn battery_reply(reading: &Result<(Reading, u16), String>) -> (r: String)
    ensures
        r@ == match reading {
            Ok(v) => json::object_text(json::reply_parts(true, battery_text(v.0, v.1))),
            Err(e) => json::object_text(json::reply_parts(false, json::json_str_text(e@))),
        },
{
    match reading {
        Ok(v) => {
            let mut msg = v.0.text();
            msg.append(" V (raw ");
            msg.append(decimal_text(v.1 as u64).as_str());
            msg.push(')');
            assert(msg@ =~= battery_text(v.0, v.1));
            write_reply(true, msg.as_str())
        },
        Err(e) => write_reply(false, json_str(e.as_str()).as_str()),
    }
}

// ---------------------------------------------------------------------------
// Laws
// ---------------------------------------------------------------------------

/// How far a WiFi test has come after several events.
pub open spec fn wifi_test_after(events: Seq<WifiTestEventView>) -> WifiTestView
    decreases events.len(),
{
    if events.len() == 0 {
        WifiTestView::Reserving
    } else {
        wifi_test_next(wifi_test_after(events.drop_last()), events.last())
    }
}

/// Whether an event says that the network is joined.
pub open spec fn says_joined(ev: WifiTestEventView) -> bool {
    ev matches WifiTestEventView::Status(Ok(joined), _) && joined
}

/// A WiFi test succeeds only if the network was joined, whatever happens.
pub proof fn wifi_test_needs_the_network(events: Seq<WifiTestEventView>)
    ensures
        (wifi_test_after(events) matches WifiTestView::Over(r) && r.ok) || wifi_test_after(
            events,
        ) is Leasing ==> exists|i: int|
            0 <= i < events.len() && says_joined(#[trigger] events[i]),
    decreases events.len(),
{
    if events.len() > 0 {
        let earlier = events.drop_last();
        wifi_test_needs_the_network(earlier);
        assert(forall|i: int| 0 <= i < earlier.len() ==> #[trigger] earlier[i] == events[i]);
        assert(events[events.len() - 1] == events.last());
    }
}

/// A WiFi test does not hang: a look at the connection after 15 seconds does
/// not lead to another one, and a look for an address after 6 seconds ends the
/// test.
pub proof fn wifi_test_ends(
    again: bool,
    status: Result<bool, Seq<char>>,
    address: Option<Seq<char>>,
    elapsed: nat,
)
    ensures
        elapsed > JOIN_TIMEOUT_NS ==> !(wifi_test_next(
            WifiTestView::Joining(again),
            WifiTestEventView::Status(status, elapsed),
        ) is Joining),
        elapsed > LEASE_TIMEOUT_NS ==> wifi_test_next(
            WifiTestView::Leasing,
            WifiTestEventView::Address(address, elapsed),
        ) is Over,
{
}

/// How far an MQTT test of `server` has come after several events.
pub open spec fn mqtt_test_after(
    server: Seq<char>,
    events: Seq<MqttTestEventView>,
) -> MqttTestView
    decreases events.len(),
{
    if events.len() == 0 {
        MqttTestView::Checking
    } else {
        mqtt_test_next(mqtt_test_after(server, events.drop_last()), server, events.last())
    }
}

/// Whether an event says that the network is up.
pub open spec fn says_online(ev: MqttTestEventView) -> bool {
    ev matches MqttTestEventView::Network(Some(Ok(up))) && up
}

/// Whether an event says that the broker accepted the connection.
pub open spec fn says_accepted(ev: MqttTestEventView) -> bool {
    ev == MqttTestEventView::Answered(Some(true))
}

/// An MQTT test opens a client only for a server that was given, once the
/// network is up; and it succeeds only if the broker accepted the connection.
pub proof fn mqtt_test_needs_the_broker(server: Seq<char>, events: Seq<MqttTestEventView>)
    ensures
        ({
            let s = mqtt_test_after(server, events);
            let ok = s matches MqttTestView::Over(r) && r.ok;
            &&& ok || s is Opening || s is Listening || s is Awaiting ==> server.len() > 0
                && exists|i: int| 0 <= i < events.len() && says_online(#[trigger] events[i])
            &&& ok ==> exists|i: int|
                0 <= i < events.len() && says_accepted(#[trigger] events[i])
        }),
    decreases events.len(),
{
    if events.len() > 0 {
        let earlier = events.drop_last();
        mqtt_test_needs_the_broker(server, earlier);
        assert(forall|i: int| 0 <= i < earlier.len() ==> #[trigger] earlier[i] == events[i]);
        assert(events[events.len() - 1] == events.last());
    }
}

/// What is over stays over, in either test.
pub proof fn finished_tests_stay_finished(
    r: TestResultView,
    server: Seq<char>,
    wifi_event: WifiTestEventView,
    mqtt_event: MqttTestEventView,
)
    ensures
        wifi_test_next(WifiTestView::Over(r), wifi_event) == WifiTestView::Over(r),
        mqtt_test_next(MqttTestView::Over(r), server, mqtt_event) == MqttTestView::Over(r),
{
}

/// The member of a reading reads back.
proof fn lemma_reading_member(key: Seq<char>, reading: Option<Reading>)
    requires
        json::is_plain(key),
    ensures
        json::reads_as(
            json::text_member(key, or_na(reading)),
            (key, json::JsonValue::Text(or_na(reading))),
        ),
{
    reveal_strlit("n/a");
    if let Some(v) = reading {
        sensor::lemma_reading_in_json(v.hundredths as int);
    }
    json::lemma_plain_member_reads(key, or_na(reading));
}

/// A browser finds in the answer to a sensor test the three readings, and
/// `n/a` for one that there is not.
pub proof fn sensor_answer_reads_back(
    temp: Option<Reading>,
    pres: Option<Reading>,
    humi: Option<Reading>,
)
    ensures
        json::read_object(json::object_text(sensor_parts(temp, pres, humi))) == Some(
            seq![
                ("ok"@, json::JsonValue::Bare(json::bool_text(true))),
                ("temp"@, json::JsonValue::Text(or_na(temp))),
                ("pres"@, json::JsonValue::Text(or_na(pres))),
                ("humi"@, json::JsonValue::Text(or_na(humi))),
            ],
        ),
{
    reveal_strlit("ok");
    reveal_strlit("temp");
    reveal_strlit("pres");
    reveal_strlit("humi");
    json::lemma_bool_is_bare(true);
    json::lemma_bare_member_reads("ok"@, json::bool_text(true));
    lemma_reading_member("temp"@, temp);
    lemma_reading_member("pres"@, pres);
    lemma_reading_member("humi"@, humi);
    let parts = sensor_parts(temp, pres, humi);
    let members = seq![
        ("ok"@, json::JsonValue::Bare(json::bool_text(true))),
        ("temp"@, json::JsonValue::Text(or_na(temp))),
        ("pres"@, json::JsonValue::Text(or_na(pres))),
        ("humi"@, json::JsonValue::Text(or_na(humi))),
    ];
    json::lemma_object_reads_back(parts, members);
}

/// A browser finds in the answer to a sensor test that failed what went wrong,
/// with apostrophes in place of quotes.
pub proof fn sensor_failure_reads_back(e: Seq<char>)
    ensures
        json::read_object(sensor_failure(e)) == Some(
            json::reply_members(false, text::replace_char(e, '"', '\'')),
        ),
{
    json::reply_reads_back(false, text::replace_char(e, '"', '\''));
}

/// A browser finds in the answer to a battery test the voltage and the raw
/// reading.
pub proof fn battery_answer_reads_back(volts: Reading, raw: u16)
    ensures
        json::read_object(json::object_text(json::reply_parts(true, battery_text(volts, raw))))
            == Some(json::reply_members(true, battery_text(volts, raw))),
{
    let msg = battery_text(volts, raw);
    let digits = text::decimal(raw as nat);
    let n = volts@.len() as int;
    sensor::lemma_reading_in_json(volts.hundredths as int);
    text::lemma_decimal(raw as nat);
    reveal_strlit(" V (raw ");
    assert forall|i: int| 0 <= i < msg.len() implies (#[trigger] msg[i]) != '"' && msg[i] != '\\'
        && !json::is_control(msg[i]) by {
        if i < n {
            assert(msg[i] == volts@[i]);
        } else if i < n + 8 {
            assert(msg[i] == " V (raw "@[i - n]);
        } else if i < n + 8 + digits.len() {
            assert(msg[i] == digits[i - n - 8]);
            assert(text::is_digit(digits[i - n - 8]));
        }
    }
    json::plain_reply_reads_back(true, msg);
}

/// A browser finds in the answer to a battery test that failed what went wrong.
pub proof fn battery_failure_reads_back(e: Seq<char>)
    ensures
        json::read_object(json::object_text(json::reply_parts(false, json::json_str_text(e))))
            == Some(json::reply_members(false, e)),
{
    json::reply_reads_back(false, e);
}

/// A browser finds in the answer to a sensor test over unusable pins why it was
/// refused.
pub proof fn sensor_refusal_reads_back()
    ensures
        json::read_object(json::object_text(json::reply_parts(false, SENSOR_PINS_REFUSED@))) == Some(
            json::reply_members(false, SENSOR_PINS_REFUSED@),
        ),
{
    assert(json::is_plain(SENSOR_PINS_REFUSED@)) by {
        reveal_strlit("Ungültige Pin-Nummern (SDA/SCL max GPIO 33)");
    }
    json::plain_reply_reads_back(false, SENSOR_PINS_REFUSED@);
}

/// A browser finds in the answer to a sensor test that has to wait why.
pub proof fn sensor_busy_reads_back()
    ensures
        json::read_object(json::object_text(json::reply_parts(false, SENSOR_BUSY@))) == Some(
            json::reply_members(false, SENSOR_BUSY@),
        ),
{
    assert(json::is_plain(SENSOR_BUSY@)) by {
        reveal_strlit("Sensor wird bereits verwendet");
    }
    json::plain_reply_reads_back(false, SENSOR_BUSY@);
}

/// A browser finds in the answer to a battery test over an unusable pin why it
/// was refused.
pub proof fn battery_refusal_reads_back()
    ensures
        json::read_object(json::object_text(json::reply_parts(false, BATTERY_PIN_REFUSED@))) == Some(
            json::reply_members(false, BATTERY_PIN_REFUSED@),
        ),
{
    assert(json::is_plain(BATTERY_PIN_REFUSED@)) by {
        reveal_strlit("Ungültiger ADC-Pin (gültig: 32–39)");
    }
    json::plain_reply_reads_back(false, BATTERY_PIN_REFUSED@);
}

/// A browser finds in the answer to a battery test that has to wait why.
pub proof fn battery_busy_reads_back()
    ensures
        json::read_object(json::object_text(json::reply_parts(false, BATTERY_BUSY@))) == Some(
            json::reply_members(false, BATTERY_BUSY@),
        ),
{
    assert(json::is_plain(BATTERY_BUSY@)) by {
        reveal_strlit("ADC wird bereits verwendet");
    }
    json::plain_reply_reads_back(false, BATTERY_BUSY@);
}

/// A WiFi test is refused exactly without a name, with a name of more than 32
/// bytes or with a password of more than 64, and says which.
pub proof fn wifi_test_is_refused_for_a_reason(ssid: Seq<char>, password: Seq<char>)
    ensures
        ({
            let n = vstd::utf8::encode_utf8(ssid).len();
            let m = vstd::utf8::encode_utf8(password).len();
            let refused = |why: Seq<char>| wifi_test_refused(ssid, password) == Some(
                TestResultView { ok: false, msg: why },
            );
            &&& ssid.len() == 0 ==> refused("Kein SSID angegeben"@)
            &&& ssid.len() > 0 && n > 32 ==> refused("SSID zu lang (max 32 Zeichen)"@)
            &&& ssid.len() > 0 && n <= 32 && m > 64 ==> refused(
                "Passwort zu lang (max 64 Zeichen)"@,
            )
            &&& ssid.len() > 0 && n <= 32 && m <= 64 ==> wifi_test_refused(ssid, password) is None
        }),
{
}

/// A WiFi test goes on as long as it may: a look that finds no connection and no
/// failure leads to another one exactly while 15 seconds are not over, however
/// often the network was looked for; and a joined network counts at any time.
pub proof fn wifi_test_is_patient(again: bool, e: Seq<char>, elapsed: nat)
    ensures
        ({
            let look = |status: Result<bool, Seq<char>>| wifi_test_next(
                WifiTestView::Joining(again),
                WifiTestEventView::Status(status, elapsed),
            );
            &&& elapsed <= 15_000_000_000 ==> look(Ok(false)) == WifiTestView::Joining(true)
            &&& elapsed > 15_000_000_000 ==> look(Ok(false)) == WifiTestView::Over(
                TestResultView {
                    ok: false,
                    msg: "Timeout (15 s) – WLAN nicht erreichbar oder Passwort falsch"@,
                },
            )
            &&& look(Ok(true)) == WifiTestView::Leasing
            &&& look(Err(e)) == WifiTestView::Over(
                TestResultView { ok: false, msg: "Statusabfrage: "@ + e },
            )
        }),
{
}

/// A joined network is a success in any case: with its address as soon as there
/// is one, and without after 6 seconds; before that the test goes on.
pub proof fn joined_network_is_a_success(address: Option<Seq<char>>, elapsed: nat)
    ensures
        ({
            let s = wifi_test_next(
                WifiTestView::Leasing,
                WifiTestEventView::Address(address, elapsed),
            );
            let assigned = address is Some && address->0 != "0.0.0.0"@;
            &&& assigned ==> s == WifiTestView::Over(
                TestResultView { ok: true, msg: "Verbunden! IP: "@ + address->0 },
            )
            &&& !assigned && elapsed > 6_000_000_000 ==> s == WifiTestView::Over(
                TestResultView {
                    ok: true,
                    msg: "Verbunden – keine DHCP-Antwort (statische IP?)"@,
                },
            )
            &&& !assigned && elapsed <= 6_000_000_000 ==> s is Leasing
        }),
{
}

/// A WiFi test takes one step after the other, and ends with what went wrong if
/// one fails.
pub proof fn wifi_test_goes_step_by_step(e: Seq<char>)
    ensures
        ({
            let reserved = WifiTestEventView::Reserved(true);
            let configured = WifiTestEventView::Configured(Ok(()));
            let started = WifiTestEventView::Started(Ok(()));
            let failed = |m: Seq<char>| WifiTestView::Over(TestResultView { ok: false, msg: m });
            &&& wifi_test_after(seq![reserved, configured, started]) == WifiTestView::Joining(
                false,
            )
            &&& wifi_test_after(seq![WifiTestEventView::Reserved(false)]) == failed(
                "Ein Test läuft bereits, bitte warten"@,
            )
            &&& wifi_test_after(seq![reserved, WifiTestEventView::Configured(Err(e))]) == failed(
                "Konfigurationsfehler: "@ + e,
            )
            &&& wifi_test_after(seq![reserved, configured, WifiTestEventView::Started(Err(e))])
                == failed("Verbindungsversuch fehlgeschlagen: "@ + e)
        }),
{
    let reserved = WifiTestEventView::Reserved(true);
    let busy = WifiTestEventView::Reserved(false);
    let configured = WifiTestEventView::Configured(Ok(()));
    let started = WifiTestEventView::Started(Ok(()));
    let bad_config = WifiTestEventView::Configured(Err(e));
    let bad_start = WifiTestEventView::Started(Err(e));
    let none = Seq::<WifiTestEventView>::empty();
    assert(wifi_test_after(none) is Reserving);
    assert(seq![reserved].drop_last() =~= none);
    assert(seq![busy].drop_last() =~= none);
    assert(wifi_test_after(seq![reserved]) is Configuring);
    assert(seq![reserved, configured].drop_last() =~= seq![reserved]);
    assert(seq![reserved, bad_config].drop_last() =~= seq![reserved]);
    assert(wifi_test_after(seq![reserved, configured]) is Starting);
    assert(seq![reserved, configured, started].drop_last() =~= seq![reserved, configured]);
    assert(seq![reserved, configured, bad_start].drop_last() =~= seq![reserved, configured]);
}

/// A network that is joined within 15 seconds is reported with its address,
/// however often it was looked for in vain before.
pub proof fn slow_network_is_found(
    again: bool,
    misses: Seq<nat>,
    joined_at: nat,
    address: Seq<char>,
    leased_at: nat,
)
    requires
        forall|i: int| 0 <= i < misses.len() ==> #[trigger] misses[i] <= 15_000_000_000,
        address != "0.0.0.0"@,
    ensures
        ({
            let looking = after_misses(WifiTestView::Joining(again), misses);
            let joined = wifi_test_next(looking, WifiTestEventView::Status(Ok(true), joined_at));
            &&& wifi_test_next(joined, WifiTestEventView::Address(Some(address), leased_at))
                == WifiTestView::Over(
                TestResultView { ok: true, msg: "Verbunden! IP: "@ + address },
            )
        }),
    decreases misses.len(),
{
    lemma_still_joining(again, misses);
}

/// How far a WiFi test has come after several looks that found no connection.
pub open spec fn after_misses(s: WifiTestView, misses: Seq<nat>) -> WifiTestView
    decreases misses.len(),
{
    if misses.len() == 0 {
        s
    } else {
        wifi_test_next(
            after_misses(s, misses.drop_last()),
            WifiTestEventView::Status(Ok(false), misses.last()),
        )
    }
}

/// Looks in vain do not end the test within 15 seconds.
proof fn lemma_still_joining(again: bool, misses: Seq<nat>)
    requires
        forall|i: int| 0 <= i < misses.len() ==> #[trigger] misses[i] <= 15_000_000_000,
    ensures
        after_misses(WifiTestView::Joining(again), misses) is Joining,
    decreases misses.len(),
{
    if misses.len() > 0 {
        let earlier = misses.drop_last();
        assert forall|i: int| 0 <= i < earlier.len() implies #[trigger] earlier[i]
            <= 15_000_000_000 by {
            assert(earlier[i] == misses[i]);
        }
        lemma_still_joining(again, earlier);
        assert(misses[misses.len() - 1] <= 15_000_000_000);
    }
}

/// What does not belong to the state of a WiFi test changes nothing.
pub proof fn stray_events_do_not_disturb_a_wifi_test(s: WifiTestView, ev: WifiTestEventView)
    requires
        match s {
            WifiTestView::Reserving => !(ev is Reserved),
            WifiTestView::Configuring => !(ev is Configured),
            WifiTestView::Starting => !(ev is Started),
            WifiTestView::Joining(_) => !(ev is Status),
            WifiTestView::Leasing => !(ev is Address),
            WifiTestView::Over(_) => true,
        },
    ensures
        wifi_test_next(s, ev) == s,
{
}

/// An MQTT test takes one step after the other: it looks at the network, opens a
/// client for the server that was given, and reports what the broker said.
pub proof fn mqtt_test_goes_step_by_step(server: Seq<char>, e: Seq<char>)
    ensures
        ({
            let online = MqttTestEventView::Network(Some(Ok(true)));
            let failed = |m: Seq<char>| MqttTestView::Over(TestResultView { ok: false, msg: m });
            let check = |status: Option<Result<bool, Seq<char>>>| mqtt_test_next(
                MqttTestView::Checking,
                server,
                MqttTestEventView::Network(status),
            );
            let answer = |a: Option<bool>| mqtt_test_next(
                MqttTestView::Awaiting,
                server,
                MqttTestEventView::Answered(a),
            );
            &&& check(None) == failed("WiFi-Test läuft noch, bitte warten"@)
            &&& check(Some(Ok(false))) == failed("WLAN nicht verbunden – zuerst WLAN testen"@)
            &&& check(Some(Err(e))) == failed("WLAN-Status: "@ + e)
            &&& server.len() == 0 ==> check(Some(Ok(true))) == failed(
                "Kein MQTT-Server angegeben"@,
            )
            &&& server.len() > 0 ==> check(Some(Ok(true))) is Opening
            &&& mqtt_test_next(MqttTestView::Opening, server, MqttTestEventView::Opened(Ok(()))) is Listening
            &&& mqtt_test_next(MqttTestView::Opening, server, MqttTestEventView::Opened(Err(e)))
                == failed("Client-Erstellung: "@ + e)
            &&& mqtt_test_next(
                MqttTestView::Listening,
                server,
                MqttTestEventView::Listening(Ok(())),
            ) is Awaiting
            &&& mqtt_test_next(
                MqttTestView::Listening,
                server,
                MqttTestEventView::Listening(Err(e)),
            ) == failed("Thread-Fehler: "@ + e)
            &&& answer(Some(true)) == MqttTestView::Over(
                TestResultView { ok: true, msg: "MQTT-Verbindung erfolgreich!"@ },
            )
            &&& answer(Some(false)) == failed("Broker hat Verbindung abgelehnt"@)
            &&& answer(None) == failed("Timeout (10 s) – Broker nicht erreichbar"@)
        }),
{
}

/// What does not belong to the state of an MQTT test changes nothing.
pub proof fn stray_events_do_not_disturb_an_mqtt_test(
    s: MqttTestView,
    server: Seq<char>,
    ev: MqttTestEventView,
)
    requires
        match s {
            MqttTestView::Checking => !(ev is Network),
            MqttTestView::Opening => !(ev is Opened),
            MqttTestView::Listening => !(ev is Listening),
            MqttTestView::Awaiting => !(ev is Answered),
            MqttTestView::Over(_) => true,
        },
    ensures
        mqtt_test_next(s, server, ev) == s,
{
}

/// An MQTT test opens its client as it was told, and waits 10 seconds for the
/// broker.
pub proof fn mqtt_test_acts_as_told(options: network::MqttOptionsView, r: TestResultView)
    ensures
        mqtt_test_action(MqttTestView::Checking, options) is LookAtNetwork,
        mqtt_test_action(MqttTestView::Opening, options) == MqttTestActionView::Open(options),
        mqtt_test_action(MqttTestView::Listening, options) is Listen,
        mqtt_test_action(MqttTestView::Awaiting, options) == MqttTestActionView::AwaitAnswer(10),
        mqtt_test_action(MqttTestView::Over(r), options) is Report,
{
}

/// A WiFi test leaves the network and waits a moment before it tries another, and
/// looks at once, then every half second; for an address every 300 milliseconds.
pub proof fn wifi_test_pauses(r: TestResultView)
    ensures
        wifi_test_action(WifiTestView::Reserving) == WifiTestAction::Reserve,
        wifi_test_action(WifiTestView::Configuring) == WifiTestAction::Configure(200),
        wifi_test_action(WifiTestView::Starting) == WifiTestAction::Start,
        wifi_test_action(WifiTestView::Joining(false)) == WifiTestAction::LookAtStatus(0),
        wifi_test_action(WifiTestView::Joining(true)) == WifiTestAction::LookAtStatus(500),
        wifi_test_action(WifiTestView::Leasing) == WifiTestAction::LookForAddress(300),
        wifi_test_action(WifiTestView::Over(r)) == WifiTestAction::Report,
{
}

/// The answer to a battery test says the voltage with two places and the raw
/// reading, whatever they are.
pub proof fn battery_answer_says_the_voltage(hundredths: i64, raw: u16)
    ensures
        battery_text(Reading { hundredths }, raw) == sensor::two_places(hundredths as int)
            + " V (raw "@ + text::decimal(raw as nat) + seq![')'],
        or_na(Some(Reading { hundredths })) == sensor::two_places(hundredths as int),
        or_na(None) == "n/a"@,
{
}

/// A sensor test that failed is answered with the failure, in which only quotes
/// are replaced, by apostrophes.
pub proof fn sensor_failure_says_what_went_wrong(e: Seq<char>)
    ensures
        ({
            let said = Seq::new(
                e.len(),
                |i: int|
                    if e[i] == '"' {
                        '\''
                    } else {
                        e[i]
                    },
            );
            json::read_object(sensor_failure(e)) == Some(json::reply_members(false, said))
        }),
{
    let said = Seq::new(
        e.len(),
        |i: int|
            if e[i] == '"' {
                '\''
            } else {
                e[i]
            },
    );
    assert(text::replace_char(e, '"', '\'') =~= said);
    sensor_failure_reads_back(e);
}

} // verus!
