//! Joining the WiFi network and publishing the readings over MQTT.
use vstd::prelude::*;
use vstd::string::*;
use vstd::utf8;

use crate::config;
use crate::config::Config;
use crate::json;
use crate::json::{json_escape, write_bare_member, write_object, write_text_member};
use crate::sensor;
use crate::sensor::{Reading, SensorData};
use crate::text;
use crate::text::decimal_text;

verus! {

// ---------------------------------------------------------------------------
// Credentials
// ---------------------------------------------------------------------------

/// `heapless::String`, a text in a buffer of `N` bytes.
#[verifier::external_type_specification]
#[verifier::external_body]
pub struct ExFixedText<const N: usize>(heapless::String<N>);

/// The text in a buffer of the size of a network name.
pub uninterp spec fn ssid_text(s: heapless::String<32>) -> Seq<char>;

/// The text in a buffer of the size of a network password.
pub uninterp spec fn password_text(s: heapless::String<64>) -> Seq<char>;

/// How many bytes a text takes in UTF-8.
pub open spec fn byte_len(s: Seq<char>) -> nat {
    utf8::encode_utf8(s).len()
}

/// The longest network name, in bytes.
pub const MAX_SSID: usize = 32;

/// The longest network password, in bytes.
pub const MAX_PASSWORD: usize = 64;

/// Calls `heapless::String::try_from` for a network name: it gives a buffer
/// with the text if its UTF-8 bytes fit into the 32 of the buffer, and fails
/// otherwise.
#[verifier::external_body]
pub(crate) fn ssid_buffer(s: &str) -> (r: Result<heapless::String<32>, ()>)
    ensures
        r is Ok <==> byte_len(s@) <= MAX_SSID,
        r matches Ok(h) ==> ssid_text(h) == s@,
{
    heapless::String::try_from(s)
}

/// Calls `heapless::String::try_from` for a network password: it gives a
/// buffer with the text if its UTF-8 bytes fit into the 64 of the buffer, and
/// fails otherwise.
#[verifier::external_body]
fn password_buffer(s: &str) -> (r: Result<heapless::String<64>, ()>)
    ensures
        r is Ok <==> byte_len(s@) <= MAX_PASSWORD,
        r matches Ok(h) ==> password_text(h) == s@,
{
    heapless::String::try_from(s)
}

/// What the WiFi driver needs to join a network.
pub struct Credentials {
    pub ssid: heapless::String<32>,
    pub password: heapless::String<64>,
}

/// Which part of the credentials does not fit.
#[derive(Debug, Clone, Copy, PartialEq, Eq, Structural)]
pub enum TooLong {
    Ssid,
    Password,
}

/// Which part of the credentials does not fit, the name first.
pub open spec fn too_long(ssid: Seq<char>, password: Seq<char>) -> Option<TooLong> {
    if byte_len(ssid) > MAX_SSID {
        Some(TooLong::Ssid)
    } else if byte_len(password) > MAX_PASSWORD {
        Some(TooLong::Password)
    } else {
        None
    }
}

/// Whether `c` holds exactly this name and password.
pub open spec fn holds(c: Credentials, ssid: Seq<char>, password: Seq<char>) -> bool {
    ssid_text(c.ssid) == ssid && password_text(c.password) == password
}

/// Puts a name and a password into the buffers of the WiFi driver.
pub fn credentials(ssid: &str, password: &str) -> (r: Result<Credentials, TooLong>)
    ensures
        match r {
            Ok(c) => too_long(ssid@, password@) is None && holds(c, ssid@, password@),
            Err(e) => too_long(ssid@, password@) == Some(e),
        },
{
    let ssid = match ssid_buffer(ssid) {
        Ok(s) => s,
        Err(_) => {
            return Err(TooLong::Ssid);
        },
    };
    let password = match password_buffer(password) {
        Ok(s) => s,
        Err(_) => {
            return Err(TooLong::Password);
        },
    };
    Ok(Credentials { ssid, password })
}

/// What is reported of credentials that do not fit.
pub open spec fn too_long_message(e: TooLong) -> Seq<char> {
    match e {
        TooLong::Ssid => "WiFi SSID too long (max 32 bytes)"@,
        TooLong::Password => "WiFi password too long (max 64 bytes)"@,
    }
}

/// The credentials of a configuration.
pub fn config_credentials(cfg: &Config) -> (r: Result<Credentials, String>)
    ensures
        match r {
            Ok(c) => too_long(cfg@.wifi_ssid, cfg@.wifi_password) is None && holds(
                c,
                cfg@.wifi_ssid,
                cfg@.wifi_password,
            ),
            Err(m) => too_long(cfg@.wifi_ssid, cfg@.wifi_password) matches Some(e) && m@
                == too_long_message(e),
        },
{
    match credentials(cfg.wifi_ssid.as_str(), cfg.wifi_password.as_str()) {
        Ok(c) => Ok(c),
        Err(TooLong::Ssid) => Err("WiFi SSID too long (max 32 bytes)".to_string()),
        Err(TooLong::Password) => Err("WiFi password too long (max 64 bytes)".to_string()),
    }
}

// ---------------------------------------------------------------------------
// Joining the network
// ---------------------------------------------------------------------------

/// How long the node tries to join the network, in nanoseconds.
pub const CONNECT_TIMEOUT_NS: u128 = 50_000_000_000;

/// The pause between two looks at the connection, in milliseconds.
pub const CONNECT_POLL_MS: u32 = 250;

/// What to do after a look at the connection.
pub enum ConnectStep {
    /// The network is joined.
    Joined,
    /// Look again after this many milliseconds.
    Wait(u32),
    /// Give up.
    Failed(String),
}

/// A step of joining, by what its text holds.
pub enum ConnectStepView {
    Joined,
    Wait(u32),
    Failed(Seq<char>),
}

impl View for ConnectStep {
    type V = ConnectStepView;

    open spec fn view(&self) -> ConnectStepView {
        match self {
            ConnectStep::Joined => ConnectStepView::Joined,
            ConnectStep::Wait(ms) => ConnectStepView::Wait(*ms),
            ConnectStep::Failed(m) => ConnectStepView::Failed(m@),
        }
    }
}

/// A truth value or a failure, by what its text holds.
pub open spec fn status_view(r: Result<bool, String>) -> Result<bool, Seq<char>> {
    match r {
        Ok(b) => Ok(b),
        Err(e) => Err(e@),
    }
}

/// The outcome of an action, by what its text holds.
pub open spec fn done_view(r: Result<(), String>) -> Result<(), Seq<char>> {
    match r {
        Ok(_) => Ok(()),
        Err(e) => Err(e@),
    }
}

/// What to do after a look at the connection, `elapsed` nanoseconds after the
/// attempt began: a joined network counts even after the time is up.
pub open spec fn connect_next(
    status: Result<bool, Seq<char>>,
    elapsed: nat,
) -> ConnectStepView {
    match status {
        Err(e) => ConnectStepView::Failed(e),
        Ok(true) => ConnectStepView::Joined,
        Ok(false) => if elapsed >= CONNECT_TIMEOUT_NS {
            ConnectStepView::Failed("WiFi connect timeout (50 s)"@)
        } else {
            ConnectStepView::Wait(CONNECT_POLL_MS)
        },
    }
}

/// What to do after a look at the connection.
pub fn connect_step(status: Result<bool, String>, elapsed_ns: u128) -> (step: ConnectStep)
    ensures
        step@ == connect_next(status_view(status), elapsed_ns as nat),
{
    match status {
        Err(e) => ConnectStep::Failed(e),
        Ok(true) => ConnectStep::Joined,
        Ok(false) => if elapsed_ns >= CONNECT_TIMEOUT_NS {
            ConnectStep::Failed("WiFi connect timeout (50 s)".to_string())
        } else {
            ConnectStep::Wait(CONNECT_POLL_MS)
        },
    }
}

// ---------------------------------------------------------------------------
// MQTT client
// ---------------------------------------------------------------------------

/// How an MQTT client is opened.
pub struct MqttOptions {
    pub broker: String,
    pub client_id: String,
    pub username: Option<String>,
    pub password: Option<String>,
}

/// How an MQTT client is opened, by what the texts hold.
pub struct MqttOptionsView {
    pub broker: Seq<char>,
    pub client_id: Seq<char>,
    pub username: Option<Seq<char>>,
    pub password: Option<Seq<char>>,
}

impl View for MqttOptions {
    type V = MqttOptionsView;

    open spec fn view(&self) -> MqttOptionsView {
        MqttOptionsView {
            broker: self.broker@,
            client_id: self.client_id@,
            username: sensor::option_view(self.username),
            password: sensor::option_view(self.password),
        }
    }
}

/// The address of a broker.
pub open spec fn broker_url(server: Seq<char>, port: u16) -> Seq<char> {
    "mqtt://"@ + server + seq![':'] + text::decimal(port as nat)
}

/// A text, or nothing if it is empty.
pub open spec fn nonempty(s: Seq<char>) -> Option<Seq<char>> {
    if s.len() == 0 {
        None
    } else {
        Some(s)
    }
}

/// How a client for the given broker and account is opened.
pub open spec fn options_of(
    server: Seq<char>,
    port: u16,
    client_id: Seq<char>,
    user: Seq<char>,
    password: Seq<char>,
) -> MqttOptionsView {
    MqttOptionsView {
        broker: broker_url(server, port),
        client_id,
        username: nonempty(user),
        password: nonempty(password),
    }
}

/// A text, or nothing if it is empty.
fn some_text(s: &str) -> (r: Option<String>)
    ensures
        sensor::option_view(r) == nonempty(s@),
{
    if s.is_empty() {
        None
    } else {
        Some(s.to_string())
    }
}

/// How a client for the given broker and account is opened.
pub fn mqtt_options(
    server: &str,
    port: u16,
    client_id: &str,
    user: &str,
    password: &str,
) -> (r: MqttOptions)
    ensures
        r@ == options_of(server@, port, client_id@, user@, password@),
{
    let mut broker = "mqtt://".to_string();
    broker.append(server);
    broker.push(':');
    broker.append(decimal_text(port as u64).as_str());
    assert(broker@ =~= broker_url(server@, port));
    MqttOptions {
        broker,
        client_id: client_id.to_string(),
        username: some_text(user),
        password: some_text(password),
    }
}

/// What an MQTT connection reports.
#[derive(Debug, Clone, Copy, PartialEq, Eq, Structural)]
pub enum MqttEvent {
    Connected,
    Published,
    Disconnected,
    /// The client reports an error.
    Error,
    /// The events themselves cannot be read any more.
    Broken,
    Other,
}

/// What to signal for an event, and whether to go on reading events.
#[derive(Debug, Clone, Copy, PartialEq, Eq, Structural)]
pub struct Signal {
    /// Whether the broker accepted the connection, once that is known.
    pub connected: Option<bool>,
    /// Whether the broker confirmed the message.
    pub published: bool,
    /// Whether to stop.
    pub stop: bool,
}

/// What an event of a publishing client signals.
pub open spec fn publish_signal(ev: MqttEvent) -> Signal {
    match ev {
        MqttEvent::Connected => Signal { connected: Some(true), published: false, stop: false },
        MqttEvent::Published => Signal { connected: None, published: true, stop: true },
        MqttEvent::Disconnected => Signal { connected: None, published: false, stop: true },
        MqttEvent::Broken => Signal { connected: Some(false), published: false, stop: true },
        MqttEvent::Error | MqttEvent::Other => Signal {
            connected: None,
            published: false,
            stop: false,
        },
    }
}

/// What an event of a publishing client signals.
pub fn signal_of(ev: MqttEvent) -> (r: Signal)
    ensures
        r == publish_signal(ev),
{
    match ev {
        MqttEvent::Connected => Signal { connected: Some(true), published: false, stop: false },
        MqttEvent::Published => Signal { connected: None, published: true, stop: true },
        MqttEvent::Disconnected => Signal { connected: None, published: false, stop: true },
        MqttEvent::Broken => Signal { connected: Some(false), published: false, stop: true },
        MqttEvent::Error | MqttEvent::Other => Signal {
            connected: None,
            published: false,
            stop: false,
        },
    }
}

// ---------------------------------------------------------------------------
// Publishing
// ---------------------------------------------------------------------------

/// How long to wait for the broker to accept the connection, in seconds.
pub const ACCEPT_TIMEOUT_S: u64 = 10;

/// How long to wait for the broker to confirm the message, in seconds.
pub const PUBACK_TIMEOUT_S: u64 = 5;

/// How far publishing has come.
pub enum Publishing {
    /// The client is to be opened.
    Opening,
    /// The broker is to accept the connection.
    Connecting,
    /// The message is to be handed to the client.
    Sending,
    /// The broker is to confirm the message.
    Confirming,
    /// It is over, and the client is to be closed.
    Over(Result<(), String>),
}

/// How far publishing has come, by what the text holds.
pub enum PublishingView {
    Opening,
    Connecting,
    Sending,
    Confirming,
    Over(Result<(), Seq<char>>),
}

impl View for Publishing {
    type V = PublishingView;

    open spec fn view(&self) -> PublishingView {
        match self {
            Publishing::Opening => PublishingView::Opening,
            Publishing::Connecting => PublishingView::Connecting,
            Publishing::Sending => PublishingView::Sending,
            Publishing::Confirming => PublishingView::Confirming,
            Publishing::Over(r) => PublishingView::Over(done_view(*r)),
        }
    }
}

/// What happened while publishing.
pub enum PublishEvent {
    /// The client was opened, or could not be.
    Opened(Result<(), String>),
    /// The broker answered, or did not within the time.
    Answered(Option<bool>),
    /// The message was handed to the client, or could not be.
    Sent(Result<(), String>),
    /// The wait for the confirmation is over, with or without it.
    Confirmed(bool),
}

/// What happened while publishing, by what the text holds.
pub enum PublishEventView {
    Opened(Result<(), Seq<char>>),
    Answered(Option<bool>),
    Sent(Result<(), Seq<char>>),
    Confirmed(bool),
}

impl View for PublishEvent {
    type V = PublishEventView;

    open spec fn view(&self) -> PublishEventView {
        match self {
            PublishEvent::Opened(r) => PublishEventView::Opened(done_view(*r)),
            PublishEvent::Answered(a) => PublishEventView::Answered(*a),
            PublishEvent::Sent(r) => PublishEventView::Sent(done_view(*r)),
            PublishEvent::Confirmed(b) => PublishEventView::Confirmed(*b),
        }
    }
}

/// How far publishing has come after an event. A missing confirmation is no
/// failure. An event that does not belong to the state changes nothing.
pub open spec fn publishing_next(s: PublishingView, ev: PublishEventView) -> PublishingView {
    match (s, ev) {
        (PublishingView::Opening, PublishEventView::Opened(Ok(_))) => PublishingView::Connecting,
        (PublishingView::Opening, PublishEventView::Opened(Err(e))) => PublishingView::Over(
            Err(e),
        ),
        (PublishingView::Connecting, PublishEventView::Answered(Some(true))) => {
            PublishingView::Sending
        },
        (PublishingView::Connecting, PublishEventView::Answered(Some(false))) => {
            PublishingView::Over(Err("MQTT broker refused connection"@))
        },
        (PublishingView::Connecting, PublishEventView::Answered(None)) => PublishingView::Over(
            Err("MQTT connection timeout (10 s)"@),
        ),
        (PublishingView::Sending, PublishEventView::Sent(Ok(_))) => PublishingView::Confirming,
        (PublishingView::Sending, PublishEventView::Sent(Err(_))) => PublishingView::Over(
            Err("MQTT publish"@),
        ),
        (PublishingView::Confirming, PublishEventView::Confirmed(_)) => PublishingView::Over(
            Ok(()),
        ),
        _ => s,
    }
}

/// A message for the broker.
pub struct Message {
    pub topic: String,
    /// The broker has to confirm it.
    pub at_least_once: bool,
    pub retain: bool,
    pub payload: String,
}

/// A message for the broker, by what the texts hold.
pub struct MessageView {
    pub topic: Seq<char>,
    pub at_least_once: bool,
    pub retain: bool,
    pub payload: Seq<char>,
}

impl View for Message {
    type V = MessageView;

    open spec fn view(&self) -> MessageView {
        MessageView {
            topic: self.topic@,
            at_least_once: self.at_least_once,
            retain: self.retain,
            payload: self.payload@,
        }
    }
}

/// What is to be done next while publishing.
pub enum PublishAction {
    Open(MqttOptions),
    /// Wait for the broker to accept, at most this many seconds.
    AwaitAnswer(u64),
    Send(Message),
    /// Wait for the confirmation, at most this many seconds.
    AwaitConfirmation(u64),
    Close,
}

/// What is to be done next while publishing, by what the texts hold.
pub enum PublishActionView {
    Open(MqttOptionsView),
    AwaitAnswer(u64),
    Send(MessageView),
    AwaitConfirmation(u64),
    Close,
}

impl View for PublishAction {
    type V = PublishActionView;

    open spec fn view(&self) -> PublishActionView {
        match self {
            PublishAction::Open(o) => PublishActionView::Open(o@),
            PublishAction::AwaitAnswer(s) => PublishActionView::AwaitAnswer(*s),
            PublishAction::Send(m) => PublishActionView::Send(m@),
            PublishAction::AwaitConfirmation(s) => PublishActionView::AwaitConfirmation(*s),
            PublishAction::Close => PublishActionView::Close,
        }
    }
}

/// The message that a cycle publishes.
pub open spec fn cycle_message(
    c: config::ConfigView,
    data: SensorData,
) -> MessageView {
    MessageView {
        topic: c.mqtt_topic,
        at_least_once: true,
        retain: false,
        payload: payload_text(c.device_name, c.room, data),
    }
}

/// What is to be done in a state.
pub open spec fn publishing_action(
    s: PublishingView,
    c: config::ConfigView,
    data: SensorData,
) -> PublishActionView {
    match s {
        PublishingView::Opening => PublishActionView::Open(
            options_of(
                c.mqtt_server,
                c.mqtt_port,
                c.device_name,
                c.mqtt_user,
                c.mqtt_password,
            ),
        ),
        PublishingView::Connecting => PublishActionView::AwaitAnswer(ACCEPT_TIMEOUT_S),
        PublishingView::Sending => PublishActionView::Send(cycle_message(c, data)),
        PublishingView::Confirming => PublishActionView::AwaitConfirmation(PUBACK_TIMEOUT_S),
        PublishingView::Over(_) => PublishActionView::Close,
    }
}

impl Publishing {
    /// How far publishing has come after an event.
    pub fn next(self, ev: PublishEvent) -> (r: Publishing)
        ensures
            r@ == publishing_next(self@, ev@),
    {
        match (self, ev) {
            (Publishing::Opening, PublishEvent::Opened(Ok(_))) => Publishing::Connecting,
            (Publishing::Opening, PublishEvent::Opened(Err(e))) => Publishing::Over(Err(e)),
            (Publishing::Connecting, PublishEvent::Answered(Some(true))) => Publishing::Sending,
            (Publishing::Connecting, PublishEvent::Answered(Some(false))) => Publishing::Over(
                Err("MQTT broker refused connection".to_string()),
            ),
            (Publishing::Connecting, PublishEvent::Answered(None)) => Publishing::Over(
                Err("MQTT connection timeout (10 s)".to_string()),
            ),
            (Publishing::Sending, PublishEvent::Sent(Ok(_))) => Publishing::Confirming,
            (Publishing::Sending, PublishEvent::Sent(Err(_))) => Publishing::Over(
                Err("MQTT publish".to_string()),
            ),
            (Publishing::Confirming, PublishEvent::Confirmed(_)) => Publishing::Over(Ok(())),
            (state, _) => state,
        }
    }

    /// What is to be done next.
    pub fn action(&self, cfg: &Config, data: &SensorData) -> (r: PublishAction)
        ensures
            r@ == publishing_action(self@, cfg@, *data),
    {
        match self {
            Publishing::Opening => PublishAction::Open(
                mqtt_options(
                    cfg.mqtt_server.as_str(),
                    cfg.mqtt_port,
                    cfg.device_name.as_str(),
                    cfg.mqtt_user.as_str(),
                    cfg.mqtt_password.as_str(),
                ),
            ),
            Publishing::Connecting => PublishAction::AwaitAnswer(ACCEPT_TIMEOUT_S),
            Publishing::Sending => PublishAction::Send(
                Message {
                    topic: cfg.mqtt_topic.clone(),
                    at_least_once: true,
                    retain: false,
                    payload: build_payload(cfg.device_name.as_str(), cfg.room.as_str(), data),
                },
            ),
            Publishing::Confirming => PublishAction::AwaitConfirmation(PUBACK_TIMEOUT_S),
            Publishing::Over(_) => PublishAction::Close,
        }
    }
}

// ---------------------------------------------------------------------------
// Payload
// ---------------------------------------------------------------------------

/// The member for a reading, if there is one.
pub open spec fn reading_part(key: Seq<char>, reading: Option<Reading>) -> Seq<Seq<char>> {
    match reading {
        Some(v) => seq![json::bare_member(key, v@)],
        None => Seq::empty(),
    }
}

/// The members of the payload: always the device name, the room if it has a
/// name, and each reading that there is.
pub open spec fn payload_parts(
    device_name: Seq<char>,
    room: Seq<char>,
    data: SensorData,
) -> Seq<Seq<char>> {
    let room_part = if room.len() == 0 {
        Seq::empty()
    } else {
        seq![json::text_member("room"@, json::json_escape_text(room))]
    };
    seq![json::text_member("ESPName"@, json::json_escape_text(device_name))] + room_part
        + reading_part("temp"@, data.temperature) + reading_part("pres"@, data.pressure)
        + reading_part("humi"@, data.humidity) + reading_part("batvoltvin"@, data.battery_voltage)
}

/// The text of the payload.
pub open spec fn payload_text(
    device_name: Seq<char>,
    room: Seq<char>,
    data: SensorData,
) -> Seq<char> {
    json::object_text(payload_parts(device_name, room, data))
}

/// Appends the member for a reading, if there is one.
fn push_reading(parts: &mut Vec<String>, key: &str, reading: Option<Reading>)
    ensures
        json::views(final(parts)@) == json::views(old(parts)@) + reading_part(key@, reading),
{
    if let Some(v) = reading {
        parts.push(write_bare_member(key, v.text().as_str()));
    }
    assert(json::views(parts@) =~= json::views(old(parts)@) + reading_part(key@, reading));
}

/// Builds the JSON payload.
/// Only readings that there are stand in it; `room` is omitted when empty.
pub fn build_payload(device_name: &str, room: &str, data: &SensorData) -> (r: String)
    ensures
        r@ == payload_text(device_name@, room@, *data),
{
    let mut parts: Vec<String> = Vec::new();
    parts.push(write_text_member("ESPName", json_escape(device_name).as_str()));
    if !room.is_empty() {
        parts.push(write_text_member("room", json_escape(room).as_str()));
    }
    push_reading(&mut parts, "temp", data.temperature);
    push_reading(&mut parts, "pres", data.pressure);
    push_reading(&mut parts, "humi", data.humidity);
    push_reading(&mut parts, "batvoltvin", data.battery_voltage);
    assert(json::views(parts@) =~= payload_parts(device_name@, room@, *data));
    write_object(&parts)
}

// ---------------------------------------------------------------------------
// Laws
// ---------------------------------------------------------------------------

/// The member that a reading gives, if there is one.
pub open spec fn reading_member(
    key: Seq<char>,
    reading: Option<Reading>,
) -> Seq<(Seq<char>, json::JsonValue)> {
    match reading {
        Some(v) => seq![(key, json::JsonValue::Bare(v@))],
        None => Seq::empty(),
    }
}

/// The members that the payload consists of.
pub open spec fn payload_members(
    device_name: Seq<char>,
    room: Seq<char>,
    data: SensorData,
) -> Seq<(Seq<char>, json::JsonValue)> {
    let room_member = if room.len() == 0 {
        Seq::empty()
    } else {
        seq![("room"@, json::JsonValue::Text(room))]
    };
    seq![("ESPName"@, json::JsonValue::Text(device_name))] + room_member + reading_member(
        "temp"@,
        data.temperature,
    ) + reading_member("pres"@, data.pressure) + reading_member("humi"@, data.humidity)
        + reading_member("batvoltvin"@, data.battery_voltage)
}

/// Parts that read back, one by one.
spec fn all_read_as(parts: Seq<Seq<char>>, members: Seq<(Seq<char>, json::JsonValue)>) -> bool {
    &&& parts.len() == members.len()
    &&& forall|i: int| 0 <= i < parts.len() ==> json::reads_as(#[trigger] parts[i], members[i])
}

/// Parts that read back may be put together.
proof fn lemma_all_read_concat(
    parts: Seq<Seq<char>>,
    members: Seq<(Seq<char>, json::JsonValue)>,
    more_parts: Seq<Seq<char>>,
    more_members: Seq<(Seq<char>, json::JsonValue)>,
)
    requires
        all_read_as(parts, members),
        all_read_as(more_parts, more_members),
    ensures
        all_read_as(parts + more_parts, members + more_members),
{
    assert forall|i: int| 0 <= i < (parts + more_parts).len() implies json::reads_as(
        #[trigger] (parts + more_parts)[i],
        (members + more_members)[i],
    ) by {
        if i < parts.len() {
            assert(json::reads_as(parts[i], members[i]));
        } else {
            assert(json::reads_as(
                more_parts[i - parts.len()],
                more_members[i - parts.len()],
            ));
        }
    }
}

/// The member of a reading reads back.
proof fn lemma_reading_reads(key: Seq<char>, reading: Option<Reading>)
    requires
        json::is_plain(key),
    ensures
        all_read_as(reading_part(key, reading), reading_member(key, reading)),
{
    if let Some(v) = reading {
        sensor::lemma_reading_in_json(v.hundredths as int);
        json::lemma_bare_member_reads(key, v@);
    }
}

/// The payload is a JSON object with exactly the promised members: the device
/// name always, the room if it has a name, each reading that there is, in this
/// order. Neither the device name nor the room can add or change a member,
/// whatever quotes and backslashes they hold; only control characters, which
/// JSON does not admit in strings, are left out.
pub proof fn payload_reads_back(
    device_name: Seq<char>,
    room: Seq<char>,
    data: SensorData,
)
    requires
        json::no_controls(device_name),
        json::no_controls(room),
    ensures
        json::read_object(payload_text(device_name, room, data)) == Some(
            payload_members(device_name, room, data),
        ),
{
    reveal_strlit("ESPName");
    reveal_strlit("room");
    reveal_strlit("temp");
    reveal_strlit("pres");
    reveal_strlit("humi");
    reveal_strlit("batvoltvin");
    json::lemma_json_escape_member_reads("ESPName"@, device_name);
    json::lemma_json_escape_member_reads("room"@, room);
    let name_parts = seq![json::text_member("ESPName"@, json::json_escape_text(device_name))];
    let name_members = seq![("ESPName"@, json::JsonValue::Text(device_name))];
    let room_parts = if room.len() == 0 {
        Seq::empty()
    } else {
        seq![json::text_member("room"@, json::json_escape_text(room))]
    };
    let room_members = if room.len() == 0 {
        Seq::empty()
    } else {
        seq![("room"@, json::JsonValue::Text(room))]
    };
    assert(all_read_as(room_parts, room_members));
    lemma_all_read_concat(name_parts, name_members, room_parts, room_members);
    let parts = name_parts + room_parts;
    let members = name_members + room_members;
    lemma_reading_reads("temp"@, data.temperature);
    lemma_all_read_concat(
        parts,
        members,
        reading_part("temp"@, data.temperature),
        reading_member("temp"@, data.temperature),
    );
    let parts = parts + reading_part("temp"@, data.temperature);
    let members = members + reading_member("temp"@, data.temperature);
    lemma_reading_reads("pres"@, data.pressure);
    lemma_all_read_concat(
        parts,
        members,
        reading_part("pres"@, data.pressure),
        reading_member("pres"@, data.pressure),
    );
    let parts = parts + reading_part("pres"@, data.pressure);
    let members = members + reading_member("pres"@, data.pressure);
    lemma_reading_reads("humi"@, data.humidity);
    lemma_all_read_concat(
        parts,
        members,
        reading_part("humi"@, data.humidity),
        reading_member("humi"@, data.humidity),
    );
    let parts = parts + reading_part("humi"@, data.humidity);
    let members = members + reading_member("humi"@, data.humidity);
    lemma_reading_reads("batvoltvin"@, data.battery_voltage);
    lemma_all_read_concat(
        parts,
        members,
        reading_part("batvoltvin"@, data.battery_voltage),
        reading_member("batvoltvin"@, data.battery_voltage),
    );
    json::lemma_object_reads_back(
        payload_parts(device_name, room, data),
        payload_members(device_name, room, data),
    );
}

/// Once 50 seconds are up the node does not wait for the network any longer,
/// and it goes on only with a network that it joined.
pub proof fn connecting_ends(status: Result<bool, Seq<char>>, elapsed: nat)
    ensures
        elapsed >= CONNECT_TIMEOUT_NS ==> !(connect_next(status, elapsed) is Wait),
        connect_next(status, elapsed) is Joined <==> status == Ok::<bool, Seq<char>>(true),
{
}

/// How far publishing has come after several events.
pub open spec fn publishing_after(events: Seq<PublishEventView>) -> PublishingView
    decreases events.len(),
{
    if events.len() == 0 {
        PublishingView::Opening
    } else {
        publishing_next(publishing_after(events.drop_last()), events.last())
    }
}

/// Whether an event says that the client was opened.
pub open spec fn is_opened(ev: PublishEventView) -> bool {
    ev matches PublishEventView::Opened(Ok(_))
}

/// Whether an event says that the broker accepted the connection.
pub open spec fn is_accepted(ev: PublishEventView) -> bool {
    ev == PublishEventView::Answered(Some(true))
}

/// Whatever happens, the message is handed to the client only after the client
/// was opened and the broker accepted the connection, and publishing succeeds
/// only after that.
pub proof fn nothing_is_sent_before_the_broker_accepts(events: Seq<PublishEventView>)
    ensures
        ({
            let s = publishing_after(events);
            s is Sending || s is Confirming || (s matches PublishingView::Over(Ok(_))) ==> {
                &&& exists|i: int| 0 <= i < events.len() && is_opened(#[trigger] events[i])
                &&& exists|i: int| 0 <= i < events.len() && is_accepted(#[trigger] events[i])
            }
        }),
        publishing_after(events) is Connecting ==> exists|i: int|
            0 <= i < events.len() && is_opened(#[trigger] events[i]),
    decreases events.len(),
{
    if events.len() > 0 {
        let earlier = events.drop_last();
        nothing_is_sent_before_the_broker_accepts(earlier);
        assert(forall|i: int| 0 <= i < earlier.len() ==> #[trigger] earlier[i] == events[i]);
        assert(events[events.len() - 1] == events.last());
    }
}

/// A confirmation that does not come is no failure.
pub proof fn missing_confirmation_is_no_failure(confirmed: bool)
    ensures
        publishing_next(PublishingView::Confirming, PublishEventView::Confirmed(confirmed))
            == PublishingView::Over(Ok(())),
{
}

/// Whether an event is the outcome of what is to be done in a state.
pub open spec fn is_outcome(s: PublishingView, ev: PublishEventView) -> bool {
    match s {
        PublishingView::Opening => ev is Opened,
        PublishingView::Connecting => ev is Answered,
        PublishingView::Sending => ev is Sent,
        PublishingView::Confirming => ev is Confirmed,
        PublishingView::Over(_) => true,
    }
}

/// How many actions at most are left before publishing is over.
pub open spec fn actions_left(s: PublishingView) -> nat {
    match s {
        PublishingView::Opening => 4,
        PublishingView::Connecting => 3,
        PublishingView::Sending => 2,
        PublishingView::Confirming => 1,
        PublishingView::Over(_) => 0,
    }
}

/// Publishing comes to an end: every outcome brings it closer, and what is
/// over stays over.
pub proof fn publishing_ends(s: PublishingView, ev: PublishEventView)
    requires
        is_outcome(s, ev),
    ensures
        !(s is Over) ==> actions_left(publishing_next(s, ev)) < actions_left(s),
        s is Over ==> publishing_next(s, ev) == s,
{
}

/// Credentials are refused exactly if the name takes more than 32 bytes of UTF-8
/// or the password more than 64; of both the name is reported.
pub proof fn long_credentials_are_refused(ssid: Seq<char>, password: Seq<char>)
    ensures
        too_long(ssid, password) == Some(TooLong::Ssid) <==> utf8::encode_utf8(ssid).len() > 32,
        too_long(ssid, password) == Some(TooLong::Password) <==> utf8::encode_utf8(ssid).len() <= 32
            && utf8::encode_utf8(password).len() > 64,
        too_long(ssid, password) is None <==> utf8::encode_utf8(ssid).len() <= 32
            && utf8::encode_utf8(password).len() <= 64,
{
}

/// The node waits a quarter of a second exactly if it has not joined yet, nothing
/// failed and 50 seconds are not up; a failure is reported as it is, and the time
/// that is up as such.
pub proof fn connecting_waits_while_there_is_time(status: Result<bool, Seq<char>>, elapsed: nat)
    ensures
        connect_next(status, elapsed) is Wait <==> status == Ok::<bool, Seq<char>>(false)
            && elapsed < 50_000_000_000,
        connect_next(status, elapsed) matches ConnectStepView::Wait(ms) ==> ms == 250,
        connect_next(status, elapsed) is Joined <==> status == Ok::<bool, Seq<char>>(true),
        status matches Err(e) ==> connect_next(status, elapsed) == ConnectStepView::Failed(e),
        status == Ok::<bool, Seq<char>>(false) && elapsed >= 50_000_000_000 ==> connect_next(
            status,
            elapsed,
        ) == ConnectStepView::Failed("WiFi connect timeout (50 s)"@),
{
}

/// A client is opened for the server and port that were given, under the name
/// that was given, and with a user and a password exactly if they are not empty.
pub proof fn clients_are_opened_as_told(
    server: Seq<char>,
    port: u16,
    client_id: Seq<char>,
    user: Seq<char>,
    password: Seq<char>,
)
    ensures
        ({
            let o = options_of(server, port, client_id, user, password);
            &&& o.broker == "mqtt://"@ + server + seq![':'] + text::decimal(port as nat)
            &&& o.client_id == client_id
            &&& o.username is Some <==> user.len() > 0
            &&& o.username matches Some(u) ==> u == user
            &&& o.password is Some <==> password.len() > 0
            &&& o.password matches Some(p) ==> p == password
        }),
{
}

/// Publishing opens a client for the configured broker, under the device name and
/// with the configured account.
pub proof fn client_is_the_configured_one(c: config::ConfigView, data: SensorData)
    ensures
        publishing_action(PublishingView::Opening, c, data) matches PublishActionView::Open(o) && {
            &&& o.broker == "mqtt://"@ + c.mqtt_server + seq![':'] + text::decimal(
                c.mqtt_port as nat,
            )
            &&& o.client_id == c.device_name
            &&& o.username == if c.mqtt_user.len() == 0 {
                None
            } else {
                Some(c.mqtt_user)
            }
            &&& o.password == if c.mqtt_password.len() == 0 {
                None
            } else {
                Some(c.mqtt_password)
            }
        },
{
}

/// A member with its comma, or nothing without a value.
pub open spec fn comma_reading(key: Seq<char>, reading: Option<Reading>) -> Seq<char> {
    match reading {
        Some(r) => seq![',', '"'] + key + seq!['"', ':'] + r@,
        None => Seq::empty(),
    }
}

/// Several parts are joined to what stands before them with commas.
proof fn lemma_join_more(parts: Seq<Seq<char>>, key: Seq<char>, reading: Option<Reading>)
    requires
        parts.len() > 0,
    ensures
        json::comma_join(parts + reading_part(key, reading)) == json::comma_join(parts)
            + comma_reading(key, reading),
{
    match reading {
        Some(r) => {
            let more = parts + seq![json::bare_member(key, r@)];
            assert(more.drop_last() =~= parts);
            assert(json::comma_join(more) =~= json::comma_join(parts) + comma_reading(
                key,
                reading,
            ));
        },
        None => {
            assert(parts + Seq::<Seq<char>>::empty() =~= parts);
            assert(json::comma_join(parts) + Seq::<char>::empty() =~= json::comma_join(parts));
        },
    }
}

/// The payload, character by character, for every device name, room and reading:
/// the name, the room if there is one, then each reading that there is.
pub proof fn payload_is_written_in_order(
    device_name: Seq<char>,
    room: Seq<char>,
    data: SensorData,
)
    ensures
        ({
            let name = seq!['"'] + "ESPName"@ + seq!['"', ':', '"'] + json::json_escape_text(
                device_name,
            ) + seq!['"'];
            let room_text = if room.len() == 0 {
                Seq::empty()
            } else {
                seq![','] + (seq!['"'] + "room"@ + seq!['"', ':', '"'] + json::json_escape_text(
                    room,
                ) + seq!['"'])
            };
            payload_text(device_name, room, data) == seq!['{'] + (name + room_text + comma_reading(
                "temp"@,
                data.temperature,
            ) + comma_reading("pres"@, data.pressure) + comma_reading("humi"@, data.humidity)
                + comma_reading("batvoltvin"@, data.battery_voltage)) + seq!['}']
        }),
{
    let name = json::text_member("ESPName"@, json::json_escape_text(device_name));
    let room_member = json::text_member("room"@, json::json_escape_text(room));
    let room_part = if room.len() == 0 {
        Seq::empty()
    } else {
        seq![room_member]
    };
    let room_text = if room.len() == 0 {
        Seq::empty()
    } else {
        seq![','] + room_member
    };
    let p0 = seq![name] + room_part;
    assert(json::comma_join(p0) == name + room_text) by {
        if room.len() == 0 {
            assert(p0 =~= seq![name]);
            assert(name + room_text =~= name);
        } else {
            assert(p0.drop_last() =~= seq![name]);
            assert(json::comma_join(seq![name]) == name);
            assert(p0.last() == room_member);
            assert(name + seq![','] + room_member =~= name + room_text);
        }
    }
    let p1 = p0 + reading_part("temp"@, data.temperature);
    let p2 = p1 + reading_part("pres"@, data.pressure);
    let p3 = p2 + reading_part("humi"@, data.humidity);
    lemma_join_more(p0, "temp"@, data.temperature);
    lemma_join_more(p1, "pres"@, data.pressure);
    lemma_join_more(p2, "humi"@, data.humidity);
    lemma_join_more(p3, "batvoltvin"@, data.battery_voltage);
}

/// The message goes to the configured topic, has to be confirmed and is not
/// retained; a reader finds in it the configured device name and room, and the
/// readings.
pub proof fn message_is_the_configured_one(c: config::ConfigView, data: SensorData)
    ensures
        publishing_action(PublishingView::Sending, c, data) matches PublishActionView::Send(m) && {
            &&& m.topic == c.mqtt_topic
            &&& m.at_least_once
            &&& !m.retain
            &&& m.payload == payload_text(c.device_name, c.room, data)
            &&& json::no_controls(c.device_name) && json::no_controls(c.room)
                ==> json::read_object(m.payload) == Some(
                payload_members(c.device_name, c.room, data),
            )
        },
{
    if json::no_controls(c.device_name) && json::no_controls(c.room) {
        payload_reads_back(c.device_name, c.room, data);
    }
}

/// The node waits 10 seconds for the broker and 5 for its confirmation, whatever
/// is configured, and closes the client once it is over.
pub proof fn waits_are_the_same_for_every_node(
    c: config::ConfigView,
    data: SensorData,
    r: Result<(), Seq<char>>,
)
    ensures
        publishing_action(PublishingView::Connecting, c, data) == PublishActionView::AwaitAnswer(
            10,
        ),
        publishing_action(PublishingView::Confirming, c, data)
            == PublishActionView::AwaitConfirmation(5),
        publishing_action(PublishingView::Over(r), c, data) == PublishActionView::Close,
{
}

/// Publishing succeeds if the client is opened, the broker accepts and the
/// message is handed over; it fails with what went wrong first.
pub proof fn publishing_succeeds_step_by_step(confirmed: bool, e: Seq<char>)
    ensures
        ({
            let opened = PublishEventView::Opened(Ok(()));
            let accepted = PublishEventView::Answered(Some(true));
            let sent = PublishEventView::Sent(Ok(()));
            let failed = |m: Seq<char>| PublishingView::Over(Err(m));
            &&& publishing_after(
                seq![opened, accepted, sent, PublishEventView::Confirmed(confirmed)],
            ) == PublishingView::Over(Ok(()))
            &&& publishing_after(seq![PublishEventView::Opened(Err(e))]) == failed(e)
            &&& publishing_after(seq![opened, PublishEventView::Answered(Some(false))]) == failed(
                "MQTT broker refused connection"@,
            )
            &&& publishing_after(seq![opened, PublishEventView::Answered(None)]) == failed(
                "MQTT connection timeout (10 s)"@,
            )
            &&& publishing_after(seq![opened, accepted, PublishEventView::Sent(Err(e))]) == failed(
                "MQTT publish"@,
            )
        }),
{
    let opened = PublishEventView::Opened(Ok(()));
    let accepted = PublishEventView::Answered(Some(true));
    let sent = PublishEventView::Sent(Ok(()));
    let last = PublishEventView::Confirmed(confirmed);
    let none = Seq::<PublishEventView>::empty();
    assert(seq![opened, accepted, sent, last].drop_last() =~= seq![opened, accepted, sent]);
    assert(seq![opened, accepted, sent].drop_last() =~= seq![opened, accepted]);
    assert(seq![opened, accepted].drop_last() =~= seq![opened]);
    assert(seq![opened].drop_last() =~= none);
    assert(publishing_after(none) == PublishingView::Opening);
    assert(publishing_after(seq![opened]) == PublishingView::Connecting);
    assert(publishing_after(seq![opened, accepted]) == PublishingView::Sending);
    assert(publishing_after(seq![opened, accepted, sent]) == PublishingView::Confirming);
    let no_client = PublishEventView::Opened(Err(e));
    assert(seq![no_client].drop_last() =~= none);
    let refused = PublishEventView::Answered(Some(false));
    assert(seq![opened, refused].drop_last() =~= seq![opened]);
    let silent = PublishEventView::Answered(None);
    assert(seq![opened, silent].drop_last() =~= seq![opened]);
    let unsent = PublishEventView::Sent(Err(e));
    assert(seq![opened, accepted, unsent].drop_last() =~= seq![opened, accepted]);
}

/// What is not the outcome of what was to be done changes nothing.
pub proof fn stray_events_do_not_disturb_publishing(s: PublishingView, ev: PublishEventView)
    requires
        !is_outcome(s, ev),
    ensures
        publishing_next(s, ev) == s,
{
}

} // verus!
