//! The configuration portal: what its access point is called, and how each of
//! its requests is answered.
use vstd::prelude::*;
use vstd::string::*;
use vstd::utf8;

use crate::config;
use crate::config::{Config, ConfigError, SetupState};
use crate::form;
use crate::form::{get_field, get_u16, get_u8, parse_form, parse_kv};
use crate::html;
use crate::html::format_save_error;
use crate::json;
use crate::json::{
    json_str, write_bool_member, write_number_member, write_object,
    write_reply, write_text_member,
};
use crate::network;
use crate::network::ssid_buffer;
use crate::probe;
use crate::probe::TestResult;
use crate::text;
use crate::text::push_hex;

verus! {

// ---------------------------------------------------------------------------
// Access point
// ---------------------------------------------------------------------------

/// The end of a MAC address in hexadecimal, which tells nodes apart.
pub open spec fn chip_id_text(mac: Seq<u8>) -> Seq<char> {
    text::hex_byte(mac[3]) + text::hex_byte(mac[4]) + text::hex_byte(mac[5])
}

/// The name of the access point of a node.
pub open spec fn ap_name(mac: Seq<u8>) -> Seq<char> {
    "weathernode-"@ + chip_id_text(mac)
}

/// The end of a MAC address in hexadecimal, which tells nodes apart.
pub fn chip_id(mac: &[u8; 6]) -> (r: String)
    ensures
        r@ == chip_id_text(mac@),
{
    let mut out = String::new();
    push_hex(&mut out, mac[3]);
    push_hex(&mut out, mac[4]);
    push_hex(&mut out, mac[5]);
    assert(out@ =~= chip_id_text(mac@));
    out
}

/// The access point of the portal.
pub struct AccessPoint {
    pub ssid: heapless::String<32>,
    pub hidden: bool,
    pub channel: u8,
    /// Whether it can be joined without a password.
    pub open: bool,
    pub max_connections: u16,
}

/// The channel of the access point.
pub const AP_CHANNEL: u8 = 6;

/// How many devices can join the access point.
pub const AP_MAX_CONNECTIONS: u16 = 4;

/// The name of an access point is ASCII and fits into its buffer.
proof fn lemma_ap_name_fits(mac: Seq<u8>)
    requires
        mac.len() == 6,
    ensures
        network::byte_len(ap_name(mac)) == 18,
{
    reveal_strlit("weathernode-");
    let name = ap_name(mac);
    assert(utf8::is_ascii_chars(name));
    utf8::is_ascii_chars_encode_utf8(name);
}

/// The access point of the node with the given MAC address: open, visible and
/// named after the node.
pub fn access_point(mac: &[u8; 6]) -> (r: AccessPoint)
    ensures
        network::ssid_text(r.ssid) == ap_name(mac@),
        !r.hidden,
        r.channel == AP_CHANNEL,
        r.open,
        r.max_connections == AP_MAX_CONNECTIONS,
{
    let name = "weathernode-".to_string().concat(chip_id(mac).as_str());
    proof {
        lemma_ap_name_fits(mac@);
    }
    let buffer = ssid_buffer(name.as_str());
    AccessPoint {
        ssid: buffer.unwrap(),
        hidden: false,
        channel: AP_CHANNEL,
        open: true,
        max_connections: AP_MAX_CONNECTIONS,
    }
}

// ---------------------------------------------------------------------------
// Current configuration
// ---------------------------------------------------------------------------

/// The name of a setup state.
pub open spec fn state_name(s: SetupState) -> Seq<char> {
    match s {
        SetupState::Incomplete => "incomplete"@,
        SetupState::WifiOnly => "wifi_only"@,
        SetupState::Complete => "complete"@,
    }
}

/// The name of a setup state.
fn name_of_state(s: SetupState) -> (r: &'static str)
    ensures
        r@ == state_name(s),
{
    match s {
        SetupState::Incomplete => "incomplete",
        SetupState::WifiOnly => "wifi_only",
        SetupState::Complete => "complete",
    }
}

/// The members that tell a browser what is configured. Of the passwords only
/// that they are there is told.
pub open spec fn config_parts(c: config::ConfigView) -> Seq<Seq<char>> {
    seq![
        json::bare_member("configured"@, json::bool_text(true)),
        json::text_member("setup_state"@, state_name(config::setup_state_of(c))),
        json::text_member("device_name"@, json::json_str_text(c.device_name)),
        json::text_member("room"@, json::json_str_text(c.room)),
        json::text_member("wifi_ssid"@, json::json_str_text(c.wifi_ssid)),
        json::bare_member("wifi_password_saved"@, json::bool_text(c.wifi_password.len() > 0)),
        json::text_member("mqtt_server"@, json::json_str_text(c.mqtt_server)),
        json::bare_member("mqtt_port"@, text::decimal(c.mqtt_port as nat)),
        json::text_member("mqtt_user"@, json::json_str_text(c.mqtt_user)),
        json::bare_member("mqtt_password_saved"@, json::bool_text(c.mqtt_password.len() > 0)),
        json::text_member("mqtt_topic"@, json::json_str_text(c.mqtt_topic)),
        json::bare_member("sleep_minutes"@, text::decimal(c.sleep_minutes as nat)),
        json::bare_member("mqtt_qos"@, text::decimal(c.mqtt_qos as nat)),
        json::bare_member("sda_pin"@, text::decimal(c.sda_pin as nat)),
        json::bare_member("scl_pin"@, text::decimal(c.scl_pin as nat)),
        json::bare_member("adc_pin"@, text::decimal(c.adc_pin as nat)),
        json::bare_member("send_temperature"@, json::bool_text(c.send_temperature)),
        json::bare_member("send_pressure"@, json::bool_text(c.send_pressure)),
        json::bare_member("send_humidity"@, json::bool_text(c.send_humidity)),
        json::bare_member("send_battery"@, json::bool_text(c.send_battery)),
    ]
}

/// The members that tell a browser that nothing is configured.
pub open spec fn unconfigured_parts() -> Seq<Seq<char>> {
    seq![
        json::bare_member("configured"@, json::bool_text(false)),
        json::text_member("setup_state"@, "incomplete"@),
    ]
}

/// Writes the members that tell a browser what is configured.
fn write_config(c: &Config) -> (r: String)
    ensures
        r@ == json::object_text(config_parts(c@)),
{
    let mut parts: Vec<String> = Vec::new();
    parts.push(write_bool_member("configured", true));
    parts.push(write_text_member("setup_state", name_of_state(c.setup_state())));
    parts.push(write_text_member("device_name", json_str(c.device_name.as_str()).as_str()));
    parts.push(write_text_member("room", json_str(c.room.as_str()).as_str()));
    parts.push(write_text_member("wifi_ssid", json_str(c.wifi_ssid.as_str()).as_str()));
    parts.push(
        write_bool_member("wifi_password_saved", !c.wifi_password.as_str().is_empty()),
    );
    parts.push(write_text_member("mqtt_server", json_str(c.mqtt_server.as_str()).as_str()));
    parts.push(write_number_member("mqtt_port", c.mqtt_port as u64));
    parts.push(write_text_member("mqtt_user", json_str(c.mqtt_user.as_str()).as_str()));
    parts.push(
        write_bool_member("mqtt_password_saved", !c.mqtt_password.as_str().is_empty()),
    );
    parts.push(write_text_member("mqtt_topic", json_str(c.mqtt_topic.as_str()).as_str()));
    parts.push(write_number_member("sleep_minutes", c.sleep_minutes as u64));
    parts.push(write_number_member("mqtt_qos", c.mqtt_qos as u64));
    parts.push(write_number_member("sda_pin", c.sda_pin as u64));
    parts.push(write_number_member("scl_pin", c.scl_pin as u64));
    parts.push(write_number_member("adc_pin", c.adc_pin as u64));
    parts.push(write_bool_member("send_temperature", c.send_temperature));
    parts.push(write_bool_member("send_pressure", c.send_pressure));
    parts.push(write_bool_member("send_humidity", c.send_humidity));
    parts.push(write_bool_member("send_battery", c.send_battery));
    assert(json::views(parts@) =~= config_parts(c@));
    write_object(&parts)
}

/// Answers what is configured: what was loaded, or that nothing is if nothing
/// was or loading failed.
pub fn config_json(loaded: &Result<Option<Config>, ConfigError>) -> (r: String)
    ensures
        r@ == json::object_text(
            match config::loaded_view(*loaded) {
                Ok(Some(c)) => config_parts(c),
                _ => unconfigured_parts(),
            },
        ),
{
    match loaded {
        Ok(Some(c)) => write_config(c),
        _ => {
            let mut parts: Vec<String> = Vec::new();
            parts.push(write_bool_member("configured", false));
            parts.push(write_text_member("setup_state", "incomplete"));
            assert(json::views(parts@) =~= unconfigured_parts());
            write_object(&parts)
        },
    }
}

// ---------------------------------------------------------------------------
// Keeping what a form must not change
// ---------------------------------------------------------------------------

/// `c` with the network credentials that are saved, and with the MQTT password
/// that is saved if the form left it blank. Without a saved configuration
/// there is nothing to keep.
pub open spec fn keeping_saved(
    c: config::ConfigView,
    saved: Result<Option<config::ConfigView>, config::ConfigErrorView>,
) -> config::ConfigView {
    match saved {
        Ok(Some(s)) => config::ConfigView {
            wifi_ssid: s.wifi_ssid,
            wifi_password: s.wifi_password,
            mqtt_password: if c.mqtt_password.len() == 0 {
                s.mqtt_password
            } else {
                c.mqtt_password
            },
            ..c
        },
        _ => c,
    }
}

/// Restores what a form must not change.
pub fn preserve_credentials(cfg: Config, saved: &Result<Option<Config>, ConfigError>) -> (r: Config)
    ensures
        r@ == keeping_saved(cfg@, config::loaded_view(*saved)),
{
    let mut cfg = cfg;
    if let Ok(Some(s)) = saved {
        cfg.wifi_ssid = s.wifi_ssid.clone();
        cfg.wifi_password = s.wifi_password.clone();
        if cfg.mqtt_password.as_str().is_empty() {
            cfg.mqtt_password = s.mqtt_password.clone();
        }
    }
    cfg
}

// ---------------------------------------------------------------------------
// Saving with a restart
// ---------------------------------------------------------------------------

/// Takes a submitted form: the configuration to save before the restart, or
/// the page that says what is wrong with it.
pub fn take_form(body: &str) -> (r: Result<Config, String>)
    ensures
        ({
            let c = form::form_config(form::form_fields(body@));
            match r {
                Ok(cfg) => cfg@ == c && config::pins_usable(c),
                Err(page) => config::validation(c) matches Err(e) && page@
                    == html::save_error_page(e.message()),
            }
        }),
{
    let cfg = parse_form(body);
    match cfg.validate() {
        Ok(_) => Ok(cfg),
        Err(e) => Err(format_save_error(e.message().as_str())),
    }
}

/// What is saved before the restart: the form, with what it must not change
/// restored, if its pins can be used.
pub open spec fn to_save(
    c: config::ConfigView,
    saved: Result<Option<config::ConfigView>, config::ConfigErrorView>,
) -> Result<config::ConfigView, config::ConfigErrorView> {
    let kept = keeping_saved(c, saved);
    match config::validation(kept) {
        Ok(_) => Ok(kept),
        Err(e) => Err(e),
    }
}

/// A configuration or an error, by what their texts hold.
pub open spec fn config_view(
    r: Result<Config, ConfigError>,
) -> Result<config::ConfigView, config::ConfigErrorView> {
    match r {
        Ok(c) => Ok(c@),
        Err(e) => Err(e@),
    }
}

/// What is saved before the restart.
pub fn finish_form(cfg: Config, saved: &Result<Option<Config>, ConfigError>) -> (r: Result<
    Config,
    ConfigError,
>)
    ensures
        config_view(r) == to_save(cfg@, config::loaded_view(*saved)),
{
    let kept = preserve_credentials(cfg, saved);
    match kept.validate() {
        Ok(_) => Ok(kept),
        Err(e) => Err(e),
    }
}

// ---------------------------------------------------------------------------
// Saving without a restart
// ---------------------------------------------------------------------------

/// The reply of saving: a message of its own for success, or the escaped error.
pub open spec fn saved_reply(
    r: Result<(), config::ConfigErrorView>,
    success: Seq<char>,
) -> Seq<char> {
    json::object_text(
        match r {
            Ok(_) => json::reply_parts(true, success),
            Err(e) => json::reply_parts(false, json::json_str_text(e.message())),
        },
    )
}

/// Writes the reply of saving.
fn write_saved_reply(r: &Result<(), ConfigError>, success: &str) -> (s: String)
    ensures
        s@ == saved_reply(config::outcome_view(*r), success@),
{
    match r {
        Ok(_) => write_reply(true, success),
        Err(e) => write_reply(false, json_str(e.message().as_str()).as_str()),
    }
}

/// What is said of a form that was saved.
pub const FORM_SAVED: &'static str = "Gespeichert";

/// Answers a form that was to be saved at once.
pub fn update_reply(r: &Result<(), ConfigError>) -> (s: String)
    ensures
        s@ == saved_reply(config::outcome_view(*r), FORM_SAVED@),
{
    write_saved_reply(r, FORM_SAVED)
}

// ---------------------------------------------------------------------------
// Saving network credentials
// ---------------------------------------------------------------------------

/// Network credentials that a form gives.
pub struct WifiForm {
    pub ssid: String,
    pub password: String,
}

/// Network credentials that a form gives, by what the texts hold.
pub struct WifiFormView {
    pub ssid: Seq<char>,
    pub password: Seq<char>,
}

impl View for WifiForm {
    type V = WifiFormView;

    open spec fn view(&self) -> WifiFormView {
        WifiFormView { ssid: self.ssid@, password: self.password@ }
    }
}

/// The network credentials in the fields of a form.
pub open spec fn wifi_fields(fields: Map<Seq<char>, Seq<char>>) -> WifiFormView {
    WifiFormView {
        ssid: form::field(fields, "wifi_ssid"@),
        password: form::field(fields, "wifi_password"@),
    }
}

/// `w` with the saved password if the form left it blank, which spares typing
/// one again that is already stored.
pub open spec fn with_saved_password(
    w: WifiFormView,
    saved: Result<Option<config::ConfigView>, config::ConfigErrorView>,
) -> WifiFormView {
    if w.password.len() > 0 {
        w
    } else {
        WifiFormView {
            ssid: w.ssid,
            password: match saved {
                Ok(Some(s)) => s.wifi_password,
                _ => Seq::empty(),
            },
        }
    }
}

/// What is saved of credentials that passed their test: the saved
/// configuration, or the default one if there is none, with the credentials.
pub open spec fn with_credentials(
    w: WifiFormView,
    saved: Result<Option<config::ConfigView>, config::ConfigErrorView>,
) -> config::ConfigView {
    let base = match saved {
        Ok(Some(s)) => s,
        _ => config::default_config(),
    };
    config::ConfigView { wifi_ssid: w.ssid, wifi_password: w.password, ..base }
}

/// What is said of credentials without a name.
pub const SSID_MISSING: &'static str = "SSID darf nicht leer sein";

impl WifiForm {
    /// The network credentials of a form body.
    pub fn parse(body: &str) -> (r: WifiForm)
        ensures
            r@ == wifi_fields(form::form_fields(body@)),
    {
        let params = parse_kv(body);
        WifiForm {
            ssid: get_field(&params, "wifi_ssid"),
            password: get_field(&params, "wifi_password"),
        }
    }

    /// The reply to credentials without a name, which are not even tested.
    pub fn refused(&self) -> (r: Option<String>)
        ensures
            r is Some <==> self@.ssid.len() == 0,
            r matches Some(s) ==> s@ == json::object_text(
                json::reply_parts(false, SSID_MISSING@),
            ),
    {
        if self.ssid.as_str().is_empty() {
            Some(write_reply(false, SSID_MISSING))
        } else {
            None
        }
    }

    /// The credentials with the saved password if the form left it blank.
    pub fn or_saved_password(self, saved: &Result<Option<Config>, ConfigError>) -> (r: WifiForm)
        ensures
            r@ == with_saved_password(self@, config::loaded_view(*saved)),
    {
        if !self.password.as_str().is_empty() {
            return self;
        }
        let password = match saved {
            Ok(Some(s)) => s.wifi_password.clone(),
            _ => String::new(),
        };
        WifiForm { ssid: self.ssid, password }
    }

    /// What is saved of credentials that passed their test.
    pub fn applied_to(self, saved: Result<Option<Config>, ConfigError>) -> (r: Config)
        ensures
            r@ == with_credentials(self@, config::loaded_view(saved)),
    {
        let mut cfg = match saved {
            Ok(Some(s)) => s,
            _ => Config::default(),
        };
        cfg.wifi_ssid = self.ssid;
        cfg.wifi_password = self.password;
        cfg
    }
}

/// What is said of credentials that were saved.
pub const WIFI_SAVED: &'static str = "WLAN gespeichert und verifiziert ✓";

/// Answers credentials that passed their test and were to be saved.
pub fn save_wifi_reply(r: &Result<(), ConfigError>) -> (s: String)
    ensures
        s@ == saved_reply(
            config::outcome_view(*r),
            WIFI_SAVED@,
        ),
{
    write_saved_reply(r, WIFI_SAVED)
}

// ---------------------------------------------------------------------------
// Tests
// ---------------------------------------------------------------------------

/// The answer to a test of the network or the broker.
pub open spec fn test_answer(t: probe::TestResultView) -> Seq<char> {
    json::object_text(json::reply_parts(t.ok, json::json_str_text(t.msg)))
}

/// Answers a test of the network or the broker.
pub fn test_reply(t: &TestResult) -> (r: String)
    ensures
        r@ == test_answer(t@),
{
    write_reply(t.ok, json_str(t.msg.as_str()).as_str())
}

/// What a form asks an MQTT test for.
pub struct MqttForm {
    pub server: String,
    pub port: u16,
    pub user: String,
    pub password: String,
}

impl MqttForm {
    /// What a form body asks an MQTT test for.
    pub fn parse(body: &str) -> (r: MqttForm)
        ensures
            ({
                let fields = form::form_fields(body@);
                &&& r.server@ == form::field(fields, "mqtt_server"@)
                &&& r.port == form::number_field(
                    fields,
                    "mqtt_port"@,
                    u16::MAX as nat,
                    config::DEFAULT_MQTT_PORT as nat,
                )
                &&& r.user@ == form::field(fields, "mqtt_user"@)
                &&& r.password@ == form::field(fields, "mqtt_password"@)
            }),
    {
        let params = parse_kv(body);
        MqttForm {
            server: get_field(&params, "mqtt_server"),
            port: get_u16(&params, "mqtt_port", config::DEFAULT_MQTT_PORT),
            user: get_field(&params, "mqtt_user"),
            password: get_field(&params, "mqtt_password"),
        }
    }
}

/// The pin that a form asks a battery test for.
pub fn battery_pin(body: &str) -> (r: u8)
    ensures
        r == form::number_field(
            form::form_fields(body@),
            "adc_pin"@,
            u8::MAX as nat,
            config::DEFAULT_ADC_PIN as nat,
        ),
{
    get_u8(&parse_kv(body), "adc_pin", config::DEFAULT_ADC_PIN)
}

/// The SDA and SCL pins that a form asks a sensor test for.
pub fn sensor_pins(body: &str) -> (r: (u8, u8))
    ensures
        r.0 == form::number_field(
            form::form_fields(body@),
            "sda_pin"@,
            u8::MAX as nat,
            config::DEFAULT_SDA_PIN as nat,
        ),
        r.1 == form::number_field(
            form::form_fields(body@),
            "scl_pin"@,
            u8::MAX as nat,
            config::DEFAULT_SCL_PIN as nat,
        ),
{
    let params = parse_kv(body);
    (
        get_u8(&params, "sda_pin", config::DEFAULT_SDA_PIN),
        get_u8(&params, "scl_pin", config::DEFAULT_SCL_PIN),
    )
}

// ---------------------------------------------------------------------------
// Laws
// ---------------------------------------------------------------------------

/// No form that is saved as a whole, with or without a restart, changes the
/// saved network credentials, whatever it holds.
pub proof fn forms_keep_the_network(c: config::ConfigView, saved: config::ConfigView)
    ensures
        to_save(c, Ok(Some(saved))) matches Ok(k) ==> {
            &&& k.wifi_ssid == saved.wifi_ssid
            &&& k.wifi_password == saved.wifi_password
        },
{
}

/// A blank MQTT password keeps the saved one; any other replaces it.
pub proof fn blank_password_keeps_the_saved_one(
    c: config::ConfigView,
    saved: config::ConfigView,
)
    ensures
        keeping_saved(c, Ok(Some(saved))).mqtt_password == if c.mqtt_password.len() == 0 {
            saved.mqtt_password
        } else {
            c.mqtt_password
        },
{
}

/// What a form may change it does change: everything but the credentials is
/// saved as the form says.
pub proof fn forms_change_the_rest(
    c: config::ConfigView,
    saved: Result<Option<config::ConfigView>, config::ConfigErrorView>,
)
    ensures
        to_save(c, saved) matches Ok(k) ==> k == (config::ConfigView {
            wifi_ssid: k.wifi_ssid,
            wifi_password: k.wifi_password,
            mqtt_password: k.mqtt_password,
            ..c
        }),
{
}

/// Whatever is saved of a form can be used by the hardware; and a form is
/// rejected exactly if its pins cannot.
pub proof fn saved_forms_are_usable(
    c: config::ConfigView,
    saved: Result<Option<config::ConfigView>, config::ConfigErrorView>,
)
    ensures
        to_save(c, saved) is Ok <==> config::pins_usable(c),
        to_save(c, saved) matches Ok(k) ==> config::pins_usable(k),
{
}

/// Saving network credentials changes nothing else of a saved configuration.
pub proof fn credentials_change_only_the_network(w: WifiFormView, saved: config::ConfigView)
    ensures
        with_credentials(w, Ok(Some(saved))) == (config::ConfigView {
            wifi_ssid: w.ssid,
            wifi_password: w.password,
            ..saved
        }),
{
}

/// A browser finds in the answer to a test whether it succeeded and what it
/// says, whatever that is.
pub proof fn test_answer_reads_back(t: probe::TestResultView)
    ensures
        json::read_object(test_answer(t)) == Some(json::reply_members(t.ok, t.msg)),
{
    json::reply_reads_back(t.ok, t.msg);
}

/// A browser finds in the answer to saving a form whether it was saved, and if not why.
pub proof fn update_answer_reads_back(e: config::ConfigErrorView)
    ensures
        json::read_object(saved_reply(Ok(()), FORM_SAVED@)) == Some(
            json::reply_members(true, FORM_SAVED@),
        ),
        json::read_object(saved_reply(Err(e), FORM_SAVED@)) == Some(
            json::reply_members(false, e.message()),
        ),
{
    assert(json::is_plain(FORM_SAVED@)) by {
        reveal_strlit("Gespeichert");
    }
    json::plain_reply_reads_back(true, FORM_SAVED@);
    json::reply_reads_back(false, e.message());
}

/// A browser finds in the answer to saving credentials whether it was saved, and if not why.
pub proof fn save_wifi_answer_reads_back(e: config::ConfigErrorView)
    ensures
        json::read_object(saved_reply(Ok(()), WIFI_SAVED@)) == Some(
            json::reply_members(true, WIFI_SAVED@),
        ),
        json::read_object(saved_reply(Err(e), WIFI_SAVED@)) == Some(
            json::reply_members(false, e.message()),
        ),
{
    assert(json::is_plain(WIFI_SAVED@)) by {
        reveal_strlit("WLAN gespeichert und verifiziert ✓");
    }
    json::plain_reply_reads_back(true, WIFI_SAVED@);
    json::reply_reads_back(false, e.message());
}

/// A browser finds in the answer to credentials without a name that they have
/// none.
pub proof fn missing_ssid_reads_back()
    ensures
        json::read_object(json::object_text(json::reply_parts(false, SSID_MISSING@))) == Some(
            json::reply_members(false, SSID_MISSING@),
        ),
{
    assert(json::is_plain(SSID_MISSING@)) by {
        reveal_strlit("SSID darf nicht leer sein");
    }
    json::plain_reply_reads_back(false, SSID_MISSING@);
}

/// Whether two configurations differ at most in passwords, neither of which
/// is blank in one and not in the other.
pub open spec fn same_but_passwords(a: config::ConfigView, b: config::ConfigView) -> bool {
    &&& b == (config::ConfigView {
        wifi_password: b.wifi_password,
        mqtt_password: b.mqtt_password,
        ..a
    })
    &&& (a.wifi_password.len() == 0 <==> b.wifi_password.len() == 0)
    &&& (a.mqtt_password.len() == 0 <==> b.mqtt_password.len() == 0)
}

/// The portal tells nobody a password: its answer is the same for any other.
pub proof fn passwords_are_not_told(a: config::ConfigView, b: config::ConfigView)
    requires
        same_but_passwords(a, b),
    ensures
        config_parts(a) == config_parts(b),
{
}

/// A member with a number reads back.
proof fn lemma_number_member(key: Seq<char>, n: nat)
    requires
        json::is_plain(key),
    ensures
        json::reads_as(
            json::bare_member(key, text::decimal(n)),
            (key, json::JsonValue::Bare(text::decimal(n))),
        ),
{
    json::lemma_decimal_is_bare(n);
    json::lemma_bare_member_reads(key, text::decimal(n));
}

/// A member with a truth value reads back.
proof fn lemma_bool_member(key: Seq<char>, b: bool)
    requires
        json::is_plain(key),
    ensures
        json::reads_as(
            json::bare_member(key, json::bool_text(b)),
            (key, json::JsonValue::Bare(json::bool_text(b))),
        ),
{
    json::lemma_bool_is_bare(b);
    json::lemma_bare_member_reads(key, json::bool_text(b));
}

/// The members that a browser finds in the answer to what is configured.
pub open spec fn config_members(c: config::ConfigView) -> Seq<(Seq<char>, json::JsonValue)> {
    seq![
        ("configured"@, json::JsonValue::Bare(json::bool_text(true))),
        ("setup_state"@, json::JsonValue::Text(state_name(config::setup_state_of(c)))),
        ("device_name"@, json::JsonValue::Text(c.device_name)),
        ("room"@, json::JsonValue::Text(c.room)),
        ("wifi_ssid"@, json::JsonValue::Text(c.wifi_ssid)),
        ("wifi_password_saved"@, json::JsonValue::Bare(json::bool_text(c.wifi_password.len() > 0))),
        ("mqtt_server"@, json::JsonValue::Text(c.mqtt_server)),
        ("mqtt_port"@, json::JsonValue::Bare(text::decimal(c.mqtt_port as nat))),
        ("mqtt_user"@, json::JsonValue::Text(c.mqtt_user)),
        ("mqtt_password_saved"@, json::JsonValue::Bare(json::bool_text(c.mqtt_password.len() > 0))),
        ("mqtt_topic"@, json::JsonValue::Text(c.mqtt_topic)),
        ("sleep_minutes"@, json::JsonValue::Bare(text::decimal(c.sleep_minutes as nat))),
        ("mqtt_qos"@, json::JsonValue::Bare(text::decimal(c.mqtt_qos as nat))),
        ("sda_pin"@, json::JsonValue::Bare(text::decimal(c.sda_pin as nat))),
        ("scl_pin"@, json::JsonValue::Bare(text::decimal(c.scl_pin as nat))),
        ("adc_pin"@, json::JsonValue::Bare(text::decimal(c.adc_pin as nat))),
        ("send_temperature"@, json::JsonValue::Bare(json::bool_text(c.send_temperature))),
        ("send_pressure"@, json::JsonValue::Bare(json::bool_text(c.send_pressure))),
        ("send_humidity"@, json::JsonValue::Bare(json::bool_text(c.send_humidity))),
        ("send_battery"@, json::JsonValue::Bare(json::bool_text(c.send_battery))),
    ]
}

/// The name of a setup state is written as itself in JSON.
proof fn lemma_state_name(s: SetupState)
    ensures
        json::is_plain(state_name(s)),
{
    reveal_strlit("incomplete");
    reveal_strlit("wifi_only");
    reveal_strlit("complete");
}

/// The first ten members read back.
proof fn lemma_first_members(c: config::ConfigView)
    ensures
        forall|i: int|
            0 <= i < 10 ==> json::reads_as(
                #[trigger] config_parts(c)[i],
                config_members(c)[i],
            ),
{
    assert(json::is_plain("configured"@)) by {
        reveal_strlit("configured");
    }
    lemma_bool_member("configured"@, true);
    assert(json::is_plain("setup_state"@)) by {
        reveal_strlit("setup_state");
    }
    lemma_state_name(config::setup_state_of(c));
    json::lemma_plain_member_reads("setup_state"@, state_name(config::setup_state_of(c)));
    assert(json::is_plain("device_name"@)) by {
        reveal_strlit("device_name");
    }
    json::lemma_json_str_member_reads("device_name"@, c.device_name);
    assert(json::is_plain("room"@)) by {
        reveal_strlit("room");
    }
    json::lemma_json_str_member_reads("room"@, c.room);
    assert(json::is_plain("wifi_ssid"@)) by {
        reveal_strlit("wifi_ssid");
    }
    json::lemma_json_str_member_reads("wifi_ssid"@, c.wifi_ssid);
    assert(json::is_plain("wifi_password_saved"@)) by {
        reveal_strlit("wifi_password_saved");
    }
    lemma_bool_member("wifi_password_saved"@, c.wifi_password.len() > 0);
    assert(json::is_plain("mqtt_server"@)) by {
        reveal_strlit("mqtt_server");
    }
    json::lemma_json_str_member_reads("mqtt_server"@, c.mqtt_server);
    assert(json::is_plain("mqtt_port"@)) by {
        reveal_strlit("mqtt_port");
    }
    lemma_number_member("mqtt_port"@, c.mqtt_port as nat);
    assert(json::is_plain("mqtt_user"@)) by {
        reveal_strlit("mqtt_user");
    }
    json::lemma_json_str_member_reads("mqtt_user"@, c.mqtt_user);
    assert(json::is_plain("mqtt_password_saved"@)) by {
        reveal_strlit("mqtt_password_saved");
    }
    lemma_bool_member("mqtt_password_saved"@, c.mqtt_password.len() > 0);
    assert forall|i: int| 0 <= i < 10 implies json::reads_as(
        #[trigger] config_parts(c)[i],
        config_members(c)[i],
    ) by {
        assert(i == 0
            || i == 1
            || i == 2
            || i == 3
            || i == 4
            || i == 5
            || i == 6
            || i == 7
            || i == 8
            || i == 9);
    }
}

/// The last ten members read back.
proof fn lemma_last_members(c: config::ConfigView)
    ensures
        forall|i: int|
            10 <= i < 20 ==> json::reads_as(
                #[trigger] config_parts(c)[i],
                config_members(c)[i],
            ),
{
    assert(json::is_plain("mqtt_topic"@)) by {
        reveal_strlit("mqtt_topic");
    }
    json::lemma_json_str_member_reads("mqtt_topic"@, c.mqtt_topic);
    assert(json::is_plain("sleep_minutes"@)) by {
        reveal_strlit("sleep_minutes");
    }
    lemma_number_member("sleep_minutes"@, c.sleep_minutes as nat);
    assert(json::is_plain("mqtt_qos"@)) by {
        reveal_strlit("mqtt_qos");
    }
    lemma_number_member("mqtt_qos"@, c.mqtt_qos as nat);
    assert(json::is_plain("sda_pin"@)) by {
        reveal_strlit("sda_pin");
    }
    lemma_number_member("sda_pin"@, c.sda_pin as nat);
    assert(json::is_plain("scl_pin"@)) by {
        reveal_strlit("scl_pin");
    }
    lemma_number_member("scl_pin"@, c.scl_pin as nat);
    assert(json::is_plain("adc_pin"@)) by {
        reveal_strlit("adc_pin");
    }
    lemma_number_member("adc_pin"@, c.adc_pin as nat);
    assert(json::is_plain("send_temperature"@)) by {
        reveal_strlit("send_temperature");
    }
    lemma_bool_member("send_temperature"@, c.send_temperature);
    assert(json::is_plain("send_pressure"@)) by {
        reveal_strlit("send_pressure");
    }
    lemma_bool_member("send_pressure"@, c.send_pressure);
    assert(json::is_plain("send_humidity"@)) by {
        reveal_strlit("send_humidity");
    }
    lemma_bool_member("send_humidity"@, c.send_humidity);
    assert(json::is_plain("send_battery"@)) by {
        reveal_strlit("send_battery");
    }
    lemma_bool_member("send_battery"@, c.send_battery);
    assert forall|i: int| 10 <= i < 20 implies json::reads_as(
        #[trigger] config_parts(c)[i],
        config_members(c)[i],
    ) by {
        assert(i == 10
            || i == 11
            || i == 12
            || i == 13
            || i == 14
            || i == 15
            || i == 16
            || i == 17
            || i == 18
            || i == 19);
    }
}

/// A browser finds in the portal's answer what is configured: every field with
/// its value, and of the passwords whether there is one.
pub proof fn config_answer_reads_back(c: config::ConfigView)
    ensures
        json::read_object(json::object_text(config_parts(c))) == Some(config_members(c)),
{
    lemma_first_members(c);
    lemma_last_members(c);
    json::lemma_object_reads_back(config_parts(c), config_members(c));
}

/// A browser finds in the portal's answer that nothing is configured.
pub proof fn unconfigured_answer_reads_back()
    ensures
        json::read_object(json::object_text(unconfigured_parts())) == Some(
            seq![
                ("configured"@, json::JsonValue::Bare(json::bool_text(false))),
                ("setup_state"@, json::JsonValue::Text("incomplete"@)),
            ],
        ),
{
    reveal_strlit("configured");
    reveal_strlit("setup_state");
    reveal_strlit("incomplete");
    lemma_bool_member("configured"@, false);
    json::lemma_plain_member_reads("setup_state"@, "incomplete"@);
    let members = seq![
        ("configured"@, json::JsonValue::Bare(json::bool_text(false))),
        ("setup_state"@, json::JsonValue::Text("incomplete"@)),
    ];
    json::lemma_object_reads_back(unconfigured_parts(), members);
}

/// The hexadecimal digits of a byte tell which byte it is.
proof fn lemma_hex_byte_tells(a: u8, b: u8)
    requires
        text::hex_byte(a) == text::hex_byte(b),
    ensures
        a == b,
{
    assert(text::hex_byte(a)[0] == text::hex_byte(b)[0]);
    assert(text::hex_byte(a)[1] == text::hex_byte(b)[1]);
}

/// Access points of nodes whose MAC addresses end differently have different
/// names.
pub proof fn access_points_are_told_apart(a: Seq<u8>, b: Seq<u8>)
    requires
        a.len() == 6,
        b.len() == 6,
        ap_name(a) == ap_name(b),
    ensures
        a.skip(3) == b.skip(3),
{
    let n = "weathernode-"@.len() as int;
    assert(ap_name(a).skip(n) =~= chip_id_text(a));
    assert(ap_name(b).skip(n) =~= chip_id_text(b));
    assert(chip_id_text(a).subrange(0, 2) =~= text::hex_byte(a[3]));
    assert(chip_id_text(b).subrange(0, 2) =~= text::hex_byte(b[3]));
    assert(chip_id_text(a).subrange(2, 4) =~= text::hex_byte(a[4]));
    assert(chip_id_text(b).subrange(2, 4) =~= text::hex_byte(b[4]));
    assert(chip_id_text(a).subrange(4, 6) =~= text::hex_byte(a[5]));
    assert(chip_id_text(b).subrange(4, 6) =~= text::hex_byte(b[5]));
    lemma_hex_byte_tells(a[3], b[3]);
    lemma_hex_byte_tells(a[4], b[4]);
    lemma_hex_byte_tells(a[5], b[5]);
    assert(a.skip(3) =~= b.skip(3));
}

/// The access point is named after the last three bytes of the MAC address, in
/// lower-case hexadecimal.
pub proof fn access_point_is_named_after_the_node(mac: Seq<u8>)
    requires
        mac.len() == 6,
    ensures
        ap_name(mac) == "weathernode-"@ + chip_id_text(mac),
        chip_id_text(mac).len() == 6,
        forall|k: int|
            0 <= k < 3 ==> text::hex_byte(mac[3 + k]) == #[trigger] chip_id_text(mac).subrange(
                2 * k,
                2 * k + 2,
            ),
{
    assert forall|k: int| 0 <= k < 3 implies text::hex_byte(mac[3 + k])
        == #[trigger] chip_id_text(mac).subrange(2 * k, 2 * k + 2) by {
        assert(k == 0 || k == 1 || k == 2);
        assert(text::hex_byte(mac[3 + k]) =~= chip_id_text(mac).subrange(2 * k, 2 * k + 2));
    }
}

/// Without a saved configuration, because there is none or it cannot be loaded, a
/// form with usable pins is saved exactly as it was submitted, credentials and
/// all.
pub proof fn first_form_is_saved_as_submitted(
    c: config::ConfigView,
    e: config::ConfigErrorView,
)
    ensures
        config::pins_usable(c) ==> {
            &&& to_save(c, Ok(None)) == Ok::<config::ConfigView, config::ConfigErrorView>(c)
            &&& to_save(c, Err(e)) == Ok::<config::ConfigView, config::ConfigErrorView>(c)
        },
        keeping_saved(c, Ok(None)) == c,
        keeping_saved(c, Err(e)) == c,
{
}

/// With a saved configuration, a form with usable pins is saved as it was
/// submitted, but for the saved network credentials and, if it has no MQTT
/// password, the saved one.
pub proof fn later_forms_keep_the_credentials(c: config::ConfigView, saved: config::ConfigView)
    requires
        config::pins_usable(c),
    ensures
        to_save(c, Ok(Some(saved))) == Ok::<config::ConfigView, config::ConfigErrorView>(
            config::ConfigView {
                device_name: c.device_name,
                room: c.room,
                wifi_ssid: saved.wifi_ssid,
                wifi_password: saved.wifi_password,
                mqtt_server: c.mqtt_server,
                mqtt_port: c.mqtt_port,
                mqtt_user: c.mqtt_user,
                mqtt_password: if c.mqtt_password.len() == 0 {
                    saved.mqtt_password
                } else {
                    c.mqtt_password
                },
                mqtt_topic: c.mqtt_topic,
                sleep_minutes: c.sleep_minutes,
                mqtt_qos: c.mqtt_qos,
                bme280_addr: c.bme280_addr,
                sda_pin: c.sda_pin,
                scl_pin: c.scl_pin,
                adc_pin: c.adc_pin,
                send_temperature: c.send_temperature,
                send_pressure: c.send_pressure,
                send_humidity: c.send_humidity,
                send_battery: c.send_battery,
            },
        ),
{
}

/// A form with unusable pins is rejected with what is wrong with them, whatever
/// is saved.
pub proof fn unusable_forms_are_rejected(
    c: config::ConfigView,
    saved: Result<Option<config::ConfigView>, config::ConfigErrorView>,
)
    requires
        !config::pins_usable(c),
    ensures
        to_save(c, saved) matches Err(e) && config::validation(c) == Err::<
            (),
            config::ConfigErrorView,
        >(e),
{
}

/// Credentials are read from their two fields; a field that was not sent is
/// empty.
pub proof fn credentials_are_read_from_their_fields(fields: Map<Seq<char>, Seq<char>>)
    ensures
        fields.contains_key("wifi_ssid"@) ==> wifi_fields(fields).ssid == fields["wifi_ssid"@],
        !fields.contains_key("wifi_ssid"@) ==> wifi_fields(fields).ssid.len() == 0,
        fields.contains_key("wifi_password"@) ==> wifi_fields(fields).password
            == fields["wifi_password"@],
        !fields.contains_key("wifi_password"@) ==> wifi_fields(fields).password.len() == 0,
{
}

/// A password that was typed in is kept, and a blank one is replaced by the saved
/// one, if there is one; the name stays in any case.
pub proof fn blank_network_password_is_recalled(
    w: WifiFormView,
    saved: config::ConfigView,
    e: config::ConfigErrorView,
)
    ensures
        w.password.len() > 0 ==> {
            &&& with_saved_password(w, Ok(Some(saved))) == w
            &&& with_saved_password(w, Ok(None)) == w
            &&& with_saved_password(w, Err(e)) == w
        },
        w.password.len() == 0 ==> {
            &&& with_saved_password(w, Ok(Some(saved))).ssid == w.ssid
            &&& with_saved_password(w, Ok(Some(saved))).password == saved.wifi_password
            &&& with_saved_password(w, Ok(None)) == w
            &&& with_saved_password(w, Err(e)) == w
        },
{
    if w.password.len() == 0 {
        assert(w.password =~= Seq::<char>::empty());
    }
}

/// The first credentials are saved with the defaults of everything else.
pub proof fn first_credentials_are_saved_with_defaults(
    w: WifiFormView,
    e: config::ConfigErrorView,
)
    ensures
        with_credentials(w, Err(e)) == with_credentials(w, Ok(None)),
        with_credentials(w, Ok(None)).wifi_ssid == w.ssid,
        with_credentials(w, Ok(None)).wifi_password == w.password,
        with_credentials(w, Ok(None)) == (config::ConfigView {
            wifi_ssid: w.ssid,
            wifi_password: w.password,
            ..config::default_config()
        }),
{
}

/// The portal's answer tells every field of the configuration, and of the
/// passwords whether there is one.
pub proof fn config_answer_tells_every_field(c: config::ConfigView)
    ensures
        json::read_object(json::object_text(config_parts(c))) matches Some(m) && {
            let words = |key: Seq<char>, v: Seq<char>| (key, json::JsonValue::Text(v));
            let number = |key: Seq<char>, n: nat| (key, json::JsonValue::Bare(text::decimal(n)));
            let truth = |key: Seq<char>, b: bool| (
                key,
                json::JsonValue::Bare(
                    if b {
                        "true"@
                    } else {
                        "false"@
                    },
                ),
            );
            &&& m.len() == 20
            &&& m[0] == truth("configured"@, true)
            &&& m[1] == words(
                "setup_state"@,
                if c.wifi_ssid.len() == 0 {
                    "incomplete"@
                } else if c.mqtt_server.len() == 0 {
                    "wifi_only"@
                } else {
                    "complete"@
                },
            )
            &&& m[2] == words("device_name"@, c.device_name)
            &&& m[3] == words("room"@, c.room)
            &&& m[4] == words("wifi_ssid"@, c.wifi_ssid)
            &&& m[5] == truth("wifi_password_saved"@, c.wifi_password.len() > 0)
            &&& m[6] == words("mqtt_server"@, c.mqtt_server)
            &&& m[7] == number("mqtt_port"@, c.mqtt_port as nat)
            &&& m[8] == words("mqtt_user"@, c.mqtt_user)
            &&& m[9] == truth("mqtt_password_saved"@, c.mqtt_password.len() > 0)
            &&& m[10] == words("mqtt_topic"@, c.mqtt_topic)
            &&& m[11] == number("sleep_minutes"@, c.sleep_minutes as nat)
            &&& m[12] == number("mqtt_qos"@, c.mqtt_qos as nat)
            &&& m[13] == number("sda_pin"@, c.sda_pin as nat)
            &&& m[14] == number("scl_pin"@, c.scl_pin as nat)
            &&& m[15] == number("adc_pin"@, c.adc_pin as nat)
            &&& m[16] == truth("send_temperature"@, c.send_temperature)
            &&& m[17] == truth("send_pressure"@, c.send_pressure)
            &&& m[18] == truth("send_humidity"@, c.send_humidity)
            &&& m[19] == truth("send_battery"@, c.send_battery)
        },
{
    config_answer_reads_back(c);
}

} // verus!
