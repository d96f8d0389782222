//! Persistence of the configuration in non-volatile storage.
//!
//! The storage itself keeps texts under short keys. Loading and saving are
//! conversations with it: each function here looks at the replies so far and
//! says what to ask next, or what came of it.
use vstd::prelude::*;
use vstd::string::*;

use crate::config;
use crate::config::{Config, ConfigError};
use crate::text;
use crate::text::{decimal_text, parse_number};

verus! {

// ---------------------------------------------------------------------------
// Keys (the storage admits at most 15 characters each)
// ---------------------------------------------------------------------------

/// The namespace of the configuration.
pub const NVS_NS: &'static str = "wnode_cfg";

const K_DEVICE_NAME: &'static str = "device_name";

const K_ROOM: &'static str = "room";

const K_SDA_PIN: &'static str = "sda_pin";

const K_SCL_PIN: &'static str = "scl_pin";

const K_ADC_PIN: &'static str = "adc_pin";

const K_WIFI_SSID: &'static str = "wifi_ssid";

const K_WIFI_PASS: &'static str = "wifi_password";

const K_MQTT_SERVER: &'static str = "mqtt_server";

const K_MQTT_PORT: &'static str = "mqtt_port";

const K_MQTT_USER: &'static str = "mqtt_user";

const K_MQTT_PASS: &'static str = "mqtt_password";

const K_MQTT_TOPIC: &'static str = "mqtt_topic";

const K_SLEEP_MINS: &'static str = "sleep_mins";

const K_MQTT_QOS: &'static str = "mqtt_qos";

const K_SEND_TEMP: &'static str = "send_temp";

const K_SEND_PRES: &'static str = "send_pres";

const K_SEND_HUMI: &'static str = "send_humi";

const K_SEND_BAT: &'static str = "send_bat";

/// How many keys a configuration takes.
pub const KEY_COUNT: usize = 18;

/// The keys in the order in which they are read: the network first, because a
/// node without one has no configuration.
pub open spec fn load_keys() -> Seq<Seq<char>> {
    seq![
        "wifi_ssid"@,
        "device_name"@,
        "room"@,
        "wifi_password"@,
        "mqtt_server"@,
        "mqtt_port"@,
        "mqtt_user"@,
        "mqtt_password"@,
        "mqtt_topic"@,
        "sleep_mins"@,
        "mqtt_qos"@,
        "sda_pin"@,
        "scl_pin"@,
        "adc_pin"@,
        "send_temp"@,
        "send_pres"@,
        "send_humi"@,
        "send_bat"@,
    ]
}

/// The key that is read at place `i`.
fn load_key(i: usize) -> (key: &'static str)
    requires
        i < KEY_COUNT,
    ensures
        key@ == load_keys()[i as int],
{
    if i == 0 {
        K_WIFI_SSID
    } else if i == 1 {
        K_DEVICE_NAME
    } else if i == 2 {
        K_ROOM
    } else if i == 3 {
        K_WIFI_PASS
    } else if i == 4 {
        K_MQTT_SERVER
    } else if i == 5 {
        K_MQTT_PORT
    } else if i == 6 {
        K_MQTT_USER
    } else if i == 7 {
        K_MQTT_PASS
    } else if i == 8 {
        K_MQTT_TOPIC
    } else if i == 9 {
        K_SLEEP_MINS
    } else if i == 10 {
        K_MQTT_QOS
    } else if i == 11 {
        K_SDA_PIN
    } else if i == 12 {
        K_SCL_PIN
    } else if i == 13 {
        K_ADC_PIN
    } else if i == 14 {
        K_SEND_TEMP
    } else if i == 15 {
        K_SEND_PRES
    } else if i == 16 {
        K_SEND_HUMI
    } else {
        K_SEND_BAT
    }
}

// ---------------------------------------------------------------------------
// Stored values
// ---------------------------------------------------------------------------

/// A stored text, or `default` if there is none.
pub open spec fn text_or(v: Option<Seq<char>>, default: Seq<char>) -> Seq<char> {
    match v {
        Some(s) => s,
        None => default,
    }
}

/// A stored number, or `default` if there is none of at most `max`.
pub open spec fn number_or(v: Option<Seq<char>>, max: nat, default: nat) -> nat {
    match v {
        Some(s) => match text::parse_unsigned(s, max) {
            Some(n) => n,
            None => default,
        },
        None => default,
    }
}

/// A stored switch. A missing key means on: every reading is on by default.
pub open spec fn switch_on(v: Option<Seq<char>>) -> bool {
    v != Some("0"@)
}

/// What is stored for a switch.
pub open spec fn switch_text(on: bool) -> Seq<char> {
    if on {
        "1"@
    } else {
        "0"@
    }
}

/// The configuration that the stored values describe; `values[i]` stands under
/// `load_keys()[i]`.
pub open spec fn stored_config(values: Seq<Option<Seq<char>>>) -> config::ConfigView {
    config::ConfigView {
        wifi_ssid: text_or(values[0], Seq::empty()),
        device_name: text_or(values[1], config::DEFAULT_DEVICE_NAME@),
        room: text_or(values[2], Seq::empty()),
        wifi_password: text_or(values[3], Seq::empty()),
        mqtt_server: text_or(values[4], Seq::empty()),
        mqtt_port: number_or(
            values[5],
            u16::MAX as nat,
            config::DEFAULT_MQTT_PORT as nat,
        ) as u16,
        mqtt_user: text_or(values[6], Seq::empty()),
        mqtt_password: text_or(values[7], Seq::empty()),
        mqtt_topic: text_or(values[8], config::DEFAULT_MQTT_TOPIC@),
        sleep_minutes: number_or(
            values[9],
            u32::MAX as nat,
            config::DEFAULT_SLEEP_MINUTES as nat,
        ) as u32,
        mqtt_qos: number_or(values[10], u8::MAX as nat, config::DEFAULT_MQTT_QOS as nat) as u8,
        bme280_addr: config::BME280_ADDR,
        sda_pin: number_or(values[11], u8::MAX as nat, config::DEFAULT_SDA_PIN as nat) as u8,
        scl_pin: number_or(values[12], u8::MAX as nat, config::DEFAULT_SCL_PIN as nat) as u8,
        adc_pin: number_or(values[13], u8::MAX as nat, config::DEFAULT_ADC_PIN as nat) as u8,
        send_temperature: switch_on(values[14]),
        send_pressure: switch_on(values[15]),
        send_humidity: switch_on(values[16]),
        send_battery: switch_on(values[17]),
    }
}

/// The keys and texts that are written for `c`, in order.
pub open spec fn stored_entries(c: config::ConfigView) -> Seq<(Seq<char>, Seq<char>)> {
    seq![
        ("device_name"@, c.device_name),
        ("room"@, c.room),
        ("wifi_ssid"@, c.wifi_ssid),
        ("wifi_password"@, c.wifi_password),
        ("mqtt_server"@, c.mqtt_server),
        ("mqtt_port"@, text::decimal(c.mqtt_port as nat)),
        ("mqtt_user"@, c.mqtt_user),
        ("mqtt_password"@, c.mqtt_password),
        ("mqtt_topic"@, c.mqtt_topic),
        ("sleep_mins"@, text::decimal(c.sleep_minutes as nat)),
        ("mqtt_qos"@, text::decimal(c.mqtt_qos as nat)),
        ("sda_pin"@, text::decimal(c.sda_pin as nat)),
        ("scl_pin"@, text::decimal(c.scl_pin as nat)),
        ("adc_pin"@, text::decimal(c.adc_pin as nat)),
        ("send_temp"@, switch_text(c.send_temperature)),
        ("send_pres"@, switch_text(c.send_pressure)),
        ("send_humi"@, switch_text(c.send_humidity)),
        ("send_bat"@, switch_text(c.send_battery)),
    ]
}

// ---------------------------------------------------------------------------
// Loading
// ---------------------------------------------------------------------------

/// What the storage replied to a read: the text, nothing, or a failure.
pub open spec fn reply_view(
    r: Result<Option<String>, String>,
) -> Result<Option<Seq<char>>, Seq<char>> {
    match r {
        Ok(Some(s)) => Ok(Some(s@)),
        Ok(None) => Ok(None),
        Err(e) => Err(e@),
    }
}

/// What the storage replied to several reads.
pub open spec fn reply_views(
    replies: Seq<Result<Option<String>, String>>,
) -> Seq<Result<Option<Seq<char>>, Seq<char>>> {
    replies.map_values(|r: Result<Option<String>, String>| reply_view(r))
}

/// The next step of loading a configuration.
pub enum LoadStep {
    /// Read the text under this key.
    Read(&'static str),
    /// Loading is over. No configuration is what a first boot gives.
    Done(Result<Option<Config>, ConfigError>),
}

/// A step of loading, by what its texts hold.
pub enum LoadStepView {
    Read(Seq<char>),
    Done(Result<Option<config::ConfigView>, config::ConfigErrorView>),
}

impl View for LoadStep {
    type V = LoadStepView;

    open spec fn view(&self) -> LoadStepView {
        match self {
            LoadStep::Read(key) => LoadStepView::Read(key@),
            LoadStep::Done(r) => LoadStepView::Done(config::loaded_view(*r)),
        }
    }
}

/// The first failure among `replies`.
pub open spec fn first_failure<T>(replies: Seq<Result<T, Seq<char>>>) -> Option<Seq<char>>
    decreases replies.len(),
{
    if replies.len() == 0 {
        None
    } else {
        match (first_failure(replies.drop_last()), replies.last()) {
            (Some(e), _) => Some(e),
            (None, Err(e)) => Some(e),
            (None, Ok(_)) => None,
        }
    }
}

/// The values in replies that are no failures.
pub open spec fn values_of(
    replies: Seq<Result<Option<Seq<char>>, Seq<char>>>,
) -> Seq<Option<Seq<char>>> {
    replies.map_values(
        |r: Result<Option<Seq<char>>, Seq<char>>|
            match r {
                Ok(v) => v,
                Err(_) => None,
            },
    )
}

/// The step that follows the given replies: a failure ends loading, so does a
/// missing or empty network name, and else the next key is read until all are.
pub open spec fn load_step(
    replies: Seq<Result<Option<Seq<char>>, Seq<char>>>,
) -> LoadStepView {
    if replies.len() == 0 {
        LoadStepView::Read(load_keys()[0])
    } else if replies[0] == Ok::<Option<Seq<char>>, Seq<char>>(None) || (replies[0] matches Ok(
        Some(ssid),
    ) && ssid.len() == 0) {
        LoadStepView::Done(Ok(None))
    } else {
        match first_failure(replies) {
            Some(e) => LoadStepView::Done(Err(config::ConfigErrorView::Storage(e))),
            None => if replies.len() < KEY_COUNT {
                LoadStepView::Read(load_keys()[replies.len() as int])
            } else {
                LoadStepView::Done(Ok(Some(stored_config(values_of(replies)))))
            },
        }
    }
}

/// The stored text of a reply, or `default` if there is none.
fn reply_text(reply: &Result<Option<String>, String>, default: &str) -> (r: String)
    ensures
        reply_view(*reply) matches Ok(v) ==> r@ == text_or(v, default@),
{
    match reply {
        Ok(Some(s)) => s.clone(),
        _ => default.to_string(),
    }
}

/// The stored number of a reply, or `default` if there is none.
fn reply_number(reply: &Result<Option<String>, String>, max: u64, default: u64) -> (r: u64)
    requires
        default <= max,
    ensures
        reply_view(*reply) matches Ok(v) ==> r == number_or(v, max as nat, default as nat),
        r <= max,
{
    match reply {
        Ok(Some(s)) => match parse_number(s.as_str(), max) {
            Some(n) => n,
            None => default,
        },
        _ => default,
    }
}

/// The stored switch of a reply; a missing key means on.
fn nvs_bool(reply: &Result<Option<String>, String>) -> (r: bool)
    ensures
        reply_view(*reply) matches Ok(v) ==> r == switch_on(v),
{
    match reply {
        Ok(Some(s)) => *s != "0".to_string(),
        _ => true,
    }
}

/// Loads the configuration: looks at what the storage replied to the reads so
/// far and says which key to read next, or what was loaded. A first boot, with
/// no network name stored, gives no configuration.
pub fn load_from_nvs(replies: &Vec<Result<Option<String>, String>>) -> (step: LoadStep)
    ensures
        step@ == load_step(reply_views(replies@)),
{
    let ghost all = reply_views(replies@);
    if replies.len() == 0 {
        return LoadStep::Read(load_key(0));
    }
    assert(all[0] == reply_view(replies@[0]));
    match &replies[0] {
        Ok(None) => {
            return LoadStep::Done(Ok(None));
        },
        Ok(Some(ssid)) => {
            if ssid.as_str().is_empty() {
                return LoadStep::Done(Ok(None));
            }
        },
        Err(_) => {},
    }
    for i in 0..replies.len()
        invariant
            all == reply_views(replies@),
            first_failure(all.take(i as int)) is None,
            replies@.len() > 0,
            !(all[0] matches Ok(None)),
            all[0] matches Ok(Some(ssid)) ==> ssid.len() > 0,
    {
        assert(all.take(i + 1).drop_last() =~= all.take(i as int));
        assert(all[i as int] == reply_view(replies@[i as int]));
        if let Err(e) = &replies[i] {
            proof {
                lemma_failure_stays(all, i + 1);
            }
            return LoadStep::Done(Err(ConfigError::Storage(e.clone())));
        }
    }
    assert(all.take(all.len() as int) =~= all);
    if replies.len() < KEY_COUNT {
        return LoadStep::Read(load_key(replies.len()));
    }
    let ghost values = values_of(all);
    proof {
        assert forall|i: int| 0 <= i < all.len() implies #[trigger] all[i] == reply_view(
            replies@[i],
        ) && all[i] is Ok by {
            lemma_no_failure(all, i);
        }
        assert forall|i: int| 0 <= i < all.len() implies all[i] == Ok::<_, Seq<char>>(
            #[trigger] values[i],
        ) by {}
        reveal_strlit("");
        assert(""@ =~= Seq::<char>::empty());
    }
    LoadStep::Done(
        Ok(
            Some(
                Config {
                    wifi_ssid: reply_text(&replies[0], ""),
                    device_name: reply_text(&replies[1], config::DEFAULT_DEVICE_NAME),
                    room: reply_text(&replies[2], ""),
                    wifi_password: reply_text(&replies[3], ""),
                    mqtt_server: reply_text(&replies[4], ""),
                    mqtt_port: reply_number(
                        &replies[5],
                        0xffff,
                        config::DEFAULT_MQTT_PORT as u64,
                    ) as u16,
                    mqtt_user: reply_text(&replies[6], ""),
                    mqtt_password: reply_text(&replies[7], ""),
                    mqtt_topic: reply_text(&replies[8], config::DEFAULT_MQTT_TOPIC),
                    sleep_minutes: reply_number(
                        &replies[9],
                        0xffff_ffff,
                        config::DEFAULT_SLEEP_MINUTES as u64,
                    ) as u32,
                    mqtt_qos: reply_number(
                        &replies[10],
                        0xff,
                        config::DEFAULT_MQTT_QOS as u64,
                    ) as u8,
                    bme280_addr: config::BME280_ADDR,
                    sda_pin: reply_number(
                        &replies[11],
                        0xff,
                        config::DEFAULT_SDA_PIN as u64,
                    ) as u8,
                    scl_pin: reply_number(
                        &replies[12],
                        0xff,
                        config::DEFAULT_SCL_PIN as u64,
                    ) as u8,
                    adc_pin: reply_number(
                        &replies[13],
                        0xff,
                        config::DEFAULT_ADC_PIN as u64,
                    ) as u8,
                    send_temperature: nvs_bool(&replies[14]),
                    send_pressure: nvs_bool(&replies[15]),
                    send_humidity: nvs_bool(&replies[16]),
                    send_battery: nvs_bool(&replies[17]),
                },
            ),
        ),
    )
}

/// The first failure stays the first whatever is replied later.
proof fn lemma_failure_stays<T>(replies: Seq<Result<T, Seq<char>>>, k: int)
    requires
        0 <= k <= replies.len(),
        first_failure(replies.take(k)) is Some,
    ensures
        first_failure(replies) == first_failure(replies.take(k)),
    decreases replies.len() - k,
{
    if k == replies.len() {
        assert(replies.take(k) =~= replies);
    } else {
        assert(replies.take(k + 1).drop_last() =~= replies.take(k));
        lemma_failure_stays(replies, k + 1);
    }
}

/// Without a failure every reply is in order.
proof fn lemma_no_failure<T>(replies: Seq<Result<T, Seq<char>>>, i: int)
    requires
        first_failure(replies) is None,
        0 <= i < replies.len(),
    ensures
        replies[i] is Ok,
    decreases replies.len(),
{
    if i < replies.len() - 1 {
        lemma_no_failure(replies.drop_last(), i);
        assert(replies.drop_last()[i] == replies[i]);
    }
}

// ---------------------------------------------------------------------------
// Saving
// ---------------------------------------------------------------------------

/// The next step of saving a configuration.
pub enum SaveStep {
    /// Write this text under this key.
    Write(&'static str, String),
    /// Saving is over.
    Done(Result<(), ConfigError>),
}

/// A step of saving, by what its texts hold.
pub enum SaveStepView {
    Write(Seq<char>, Seq<char>),
    Done(Result<(), config::ConfigErrorView>),
}

impl View for SaveStep {
    type V = SaveStepView;

    open spec fn view(&self) -> SaveStepView {
        match self {
            SaveStep::Write(key, value) => SaveStepView::Write(key@, value@),
            SaveStep::Done(r) => SaveStepView::Done(config::outcome_view(*r)),
        }
    }
}

/// What the storage replied to several writes.
pub open spec fn written_views(
    replies: Seq<Result<(), String>>,
) -> Seq<Result<(), Seq<char>>> {
    replies.map_values(
        |r: Result<(), String>|
            match r {
                Ok(_) => Ok(()),
                Err(e) => Err(e@),
            },
    )
}

/// The step that follows the given replies: a failure ends saving, and else
/// the next entry is written until all are.
pub open spec fn save_step(
    c: config::ConfigView,
    replies: Seq<Result<(), Seq<char>>>,
) -> SaveStepView {
    match first_failure(replies) {
        Some(e) => SaveStepView::Done(Err(config::ConfigErrorView::Storage(e))),
        None => if replies.len() < KEY_COUNT {
            let entry = stored_entries(c)[replies.len() as int];
            SaveStepView::Write(entry.0, entry.1)
        } else {
            SaveStepView::Done(Ok(()))
        },
    }
}

/// What is stored for a switch.
fn stored_switch(on: bool) -> (r: String)
    ensures
        r@ == switch_text(on),
{
    if on {
        "1".to_string()
    } else {
        "0".to_string()
    }
}

/// The key and text that are written at place `i`.
fn stored_entry(c: &Config, i: usize) -> (r: (&'static str, String))
    requires
        i < KEY_COUNT,
    ensures
        (r.0@, r.1@) == stored_entries(c@)[i as int],
{
    if i == 0 {
        (K_DEVICE_NAME, c.device_name.clone())
    } else if i == 1 {
        (K_ROOM, c.room.clone())
    } else if i == 2 {
        (K_WIFI_SSID, c.wifi_ssid.clone())
    } else if i == 3 {
        (K_WIFI_PASS, c.wifi_password.clone())
    } else if i == 4 {
        (K_MQTT_SERVER, c.mqtt_server.clone())
    } else if i == 5 {
        (K_MQTT_PORT, decimal_text(c.mqtt_port as u64))
    } else if i == 6 {
        (K_MQTT_USER, c.mqtt_user.clone())
    } else if i == 7 {
        (K_MQTT_PASS, c.mqtt_password.clone())
    } else if i == 8 {
        (K_MQTT_TOPIC, c.mqtt_topic.clone())
    } else if i == 9 {
        (K_SLEEP_MINS, decimal_text(c.sleep_minutes as u64))
    } else if i == 10 {
        (K_MQTT_QOS, decimal_text(c.mqtt_qos as u64))
    } else if i == 11 {
        (K_SDA_PIN, decimal_text(c.sda_pin as u64))
    } else if i == 12 {
        (K_SCL_PIN, decimal_text(c.scl_pin as u64))
    } else if i == 13 {
        (K_ADC_PIN, decimal_text(c.adc_pin as u64))
    } else if i == 14 {
        (K_SEND_TEMP, stored_switch(c.send_temperature))
    } else if i == 15 {
        (K_SEND_PRES, stored_switch(c.send_pressure))
    } else if i == 16 {
        (K_SEND_HUMI, stored_switch(c.send_humidity))
    } else {
        (K_SEND_BAT, stored_switch(c.send_battery))
    }
}

/// Persists the configuration, over any previous values: looks at what the
/// storage replied to the writes so far and says what to write next, or
/// whether it was saved.
pub fn save_to_nvs(c: &Config, replies: &Vec<Result<(), String>>) -> (step: SaveStep)
    ensures
        step@ == save_step(c@, written_views(replies@)),
{
    let ghost all = written_views(replies@);
    for i in 0..replies.len()
        invariant
            all == written_views(replies@),
            first_failure(all.take(i as int)) is None,
    {
        assert(all.take(i + 1).drop_last() =~= all.take(i as int));
        if let Err(e) = &replies[i] {
            proof {
                lemma_failure_stays(all, i + 1);
            }
            return SaveStep::Done(Err(ConfigError::Storage(e.clone())));
        }
    }
    assert(all.take(all.len() as int) =~= all);
    if replies.len() < KEY_COUNT {
        let (key, value) = stored_entry(c, replies.len());
        SaveStep::Write(key, value)
    } else {
        SaveStep::Done(Ok(()))
    }
}

// ---------------------------------------------------------------------------
// Laws
// ---------------------------------------------------------------------------

/// What a storage holds after the given writes.
pub open spec fn after_writes(
    store: Map<Seq<char>, Seq<char>>,
    writes: Seq<(Seq<char>, Seq<char>)>,
) -> Map<Seq<char>, Seq<char>>
    decreases writes.len(),
{
    if writes.len() == 0 {
        store
    } else {
        after_writes(store, writes.drop_last()).insert(writes.last().0, writes.last().1)
    }
}

/// What a storage replies to a read that does not fail.
pub open spec fn read_reply(
    store: Map<Seq<char>, Seq<char>>,
    key: Seq<char>,
) -> Result<Option<Seq<char>>, Seq<char>> {
    if store.contains_key(key) {
        Ok(Some(store[key]))
    } else {
        Ok(None)
    }
}

/// What a storage replies to the first `n` reads of loading.
pub open spec fn read_replies(
    store: Map<Seq<char>, Seq<char>>,
    n: nat,
) -> Seq<Result<Option<Seq<char>>, Seq<char>>> {
    Seq::new(n, |i: int| read_reply(store, load_keys()[i]))
}

/// What loading finds in a storage whose reads do not fail.
pub open spec fn loaded_from(store: Map<Seq<char>, Seq<char>>) -> Option<config::ConfigView> {
    if store.contains_key("wifi_ssid"@) && store["wifi_ssid"@].len() > 0 {
        Some(stored_config(values_of(read_replies(store, KEY_COUNT as nat))))
    } else {
        None
    }
}

/// Replies without a failure have no first one.
proof fn lemma_all_ok<T>(replies: Seq<Result<T, Seq<char>>>)
    requires
        forall|i: int| 0 <= i < replies.len() ==> (#[trigger] replies[i]) is Ok,
    ensures
        first_failure(replies) is None,
    decreases replies.len(),
{
    if replies.len() > 0 {
        assert forall|i: int| 0 <= i < replies.drop_last().len() implies (
        #[trigger] replies.drop_last()[i]) is Ok by {
            assert(replies.drop_last()[i] == replies[i]);
        }
        lemma_all_ok(replies.drop_last());
        assert(replies[replies.len() - 1] is Ok);
    }
}

/// Loading asks for each key in turn while a network name is stored, and ends
/// with what the storage holds; without one it ends after the first read.
pub proof fn loading_reads_the_store(store: Map<Seq<char>, Seq<char>>, n: nat)
    requires
        n <= KEY_COUNT,
    ensures
        n == 0 ==> load_step(read_replies(store, n)) == LoadStepView::Read("wifi_ssid"@),
        n > 0 && loaded_from(store) is None ==> load_step(read_replies(store, n))
            == LoadStepView::Done(Ok(None)),
        0 < n < KEY_COUNT && loaded_from(store) is Some ==> load_step(read_replies(store, n))
            == LoadStepView::Read(load_keys()[n as int]),
        n == KEY_COUNT ==> load_step(read_replies(store, n)) == LoadStepView::Done(
            Ok(loaded_from(store)),
        ),
{
    let replies = read_replies(store, n);
    if n > 0 {
        assert(replies[0] == read_reply(store, "wifi_ssid"@));
        lemma_all_ok(replies);
    }
}

/// The first failure of the storage ends loading with that failure, unless it
/// was over before.
pub proof fn failed_read_is_reported(store: Map<Seq<char>, Seq<char>>, n: nat, e: Seq<char>)
    requires
        n < KEY_COUNT,
        n > 0 ==> loaded_from(store) is Some,
    ensures
        load_step(read_replies(store, n).push(Err(e))) == LoadStepView::Done(
            Err(config::ConfigErrorView::Storage(e)),
        ),
{
    let good = read_replies(store, n);
    let replies = good.push(Err(e));
    lemma_all_ok(good);
    assert(replies.drop_last() =~= good);
    if n > 0 {
        assert(replies[0] == read_reply(store, "wifi_ssid"@));
    }
}

/// A missing switch is on.
pub proof fn missing_switch_is_on(values: Seq<Option<Seq<char>>>)
    ensures
        values[14] is None ==> stored_config(values).send_temperature,
        values[15] is None ==> stored_config(values).send_pressure,
        values[16] is None ==> stored_config(values).send_humidity,
        values[17] is None ==> stored_config(values).send_battery,
{
}

/// The place of a key in `load_keys`, told by its length and a few of its
/// characters.
spec fn key_place(key: Seq<char>) -> int {
    if key.len() == 4 {
        2
    } else if key.len() == 7 {
        if key[0] == 'a' {
            13
        } else if key[1] == 'd' {
            11
        } else {
            12
        }
    } else if key.len() == 8 {
        if key[0] == 'm' {
            10
        } else {
            17
        }
    } else if key.len() == 9 {
        if key[0] == 'w' {
            0
        } else if key[0] == 'm' {
            if key[5] == 'p' {
                5
            } else {
                6
            }
        } else if key[5] == 't' {
            14
        } else if key[5] == 'p' {
            15
        } else {
            16
        }
    } else if key.len() == 10 {
        if key[0] == 'm' {
            8
        } else {
            9
        }
    } else if key.len() == 11 {
        if key[0] == 'd' {
            1
        } else {
            4
        }
    } else if key[0] == 'w' {
        3
    } else {
        7
    }
}

/// No two keys are the same, and each is at most 15 characters long.
pub proof fn keys_are_distinct()
    ensures
        load_keys().len() == KEY_COUNT,
        forall|i: int, j: int|
            0 <= i < j < KEY_COUNT ==> #[trigger] load_keys()[i] != #[trigger] load_keys()[j],
        forall|i: int| 0 <= i < KEY_COUNT ==> (#[trigger] load_keys()[i]).len() <= 15,
{
    reveal_strlit("wifi_ssid");
    reveal_strlit("device_name");
    reveal_strlit("room");
    reveal_strlit("wifi_password");
    reveal_strlit("mqtt_server");
    reveal_strlit("mqtt_port");
    reveal_strlit("mqtt_user");
    reveal_strlit("mqtt_password");
    reveal_strlit("mqtt_topic");
    reveal_strlit("sleep_mins");
    reveal_strlit("mqtt_qos");
    reveal_strlit("sda_pin");
    reveal_strlit("scl_pin");
    reveal_strlit("adc_pin");
    reveal_strlit("send_temp");
    reveal_strlit("send_pres");
    reveal_strlit("send_humi");
    reveal_strlit("send_bat");
    assert(key_place(load_keys()[0]) == 0);
    assert(key_place(load_keys()[1]) == 1);
    assert(key_place(load_keys()[2]) == 2);
    assert(key_place(load_keys()[3]) == 3);
    assert(key_place(load_keys()[4]) == 4);
    assert(key_place(load_keys()[5]) == 5);
    assert(key_place(load_keys()[6]) == 6);
    assert(key_place(load_keys()[7]) == 7);
    assert(key_place(load_keys()[8]) == 8);
    assert(key_place(load_keys()[9]) == 9);
    assert(key_place(load_keys()[10]) == 10);
    assert(key_place(load_keys()[11]) == 11);
    assert(key_place(load_keys()[12]) == 12);
    assert(key_place(load_keys()[13]) == 13);
    assert(key_place(load_keys()[14]) == 14);
    assert(key_place(load_keys()[15]) == 15);
    assert(key_place(load_keys()[16]) == 16);
    assert(key_place(load_keys()[17]) == 17);
    assert forall|i: int| 0 <= i < KEY_COUNT implies key_place(#[trigger] load_keys()[i]) == i
        && load_keys()[i].len() <= 15 by {
        assert(i == 0
            || i == 1
            || i == 2
            || i == 3
            || i == 4
            || i == 5
            || i == 6
            || i == 7
            || i == 8
            || i == 9
            || i == 10
            || i == 11
            || i == 12
            || i == 13
            || i == 14
            || i == 15
            || i == 16
            || i == 17);
    }
}

/// Saving writes each entry in turn and then is done; a failure ends it.
pub proof fn saving_writes_every_entry(c: config::ConfigView, n: nat, e: Seq<char>)
    requires
        n <= KEY_COUNT,
    ensures
        ({
            let replies = Seq::new(n, |i: int| Ok::<(), Seq<char>>(()));
            &&& n < KEY_COUNT ==> save_step(c, replies) == SaveStepView::Write(
                stored_entries(c)[n as int].0,
                stored_entries(c)[n as int].1,
            )
            &&& n == KEY_COUNT ==> save_step(c, replies) == SaveStepView::Done(Ok(()))
            &&& save_step(c, replies.push(Err(e))) == SaveStepView::Done(
                Err(config::ConfigErrorView::Storage(e)),
            )
        }),
{
    let replies = Seq::new(n, |i: int| Ok::<(), Seq<char>>(()));
    lemma_all_ok(replies);
    assert(replies.push(Err(e)).drop_last() =~= replies);
}

/// A text stays under its key if nothing is written there later.
proof fn lemma_written(
    store: Map<Seq<char>, Seq<char>>,
    writes: Seq<(Seq<char>, Seq<char>)>,
    j: int,
)
    requires
        0 <= j < writes.len(),
        forall|k: int| j < k < writes.len() ==> (#[trigger] writes[k]).0 != writes[j].0,
    ensures
        after_writes(store, writes).contains_key(writes[j].0),
        after_writes(store, writes)[writes[j].0] == writes[j].1,
    decreases writes.len(),
{
    if j < writes.len() - 1 {
        let earlier = writes.drop_last();
        assert forall|k: int| j < k < earlier.len() implies (#[trigger] earlier[k]).0
            != earlier[j].0 by {
            assert(earlier[k] == writes[k]);
        }
        lemma_written(store, earlier, j);
        assert(writes[writes.len() - 1].0 != writes[j].0);
    }
}

/// Where the key that is written at place `j` is read.
spec fn place(j: int) -> int {
    if j == 0 {
        1
    } else if j == 1 {
        2
    } else if j == 2 {
        0
    } else {
        j
    }
}

/// Each text that is written is what the read of its key gives.
proof fn lemma_entry_reads_back(
    store: Map<Seq<char>, Seq<char>>,
    c: config::ConfigView,
    j: int,
)
    requires
        0 <= j < KEY_COUNT,
    ensures
        read_reply(after_writes(store, stored_entries(c)), load_keys()[place(j)]) == Ok::<
            Option<Seq<char>>,
            Seq<char>,
        >(Some(stored_entries(c)[j].1)),
{
    let writes = stored_entries(c);
    keys_are_distinct();
    assert forall|k: int| 0 <= k < KEY_COUNT implies (#[trigger] writes[k]).0
        == load_keys()[place(k)] by {
        assert(k == 0
            || k == 1
            || k == 2
            || k == 3
            || k == 4
            || k == 5
            || k == 6
            || k == 7
            || k == 8
            || k == 9
            || k == 10
            || k == 11
            || k == 12
            || k == 13
            || k == 14
            || k == 15
            || k == 16
            || k == 17);
    }
    assert forall|k: int| j < k < writes.len() implies (#[trigger] writes[k]).0
        != writes[j].0 by {
        assert(place(k) != place(j));
        assert(load_keys()[place(k)] != load_keys()[place(j)]);
    }
    assert(writes[j].0 == load_keys()[place(j)]);
    lemma_written(store, writes, j);
}

/// A saved configuration survives a restart: whatever the storage held before,
/// loading after saving gives the same configuration back (with the one
/// address that the sensor has), or none if it names no network.
pub proof fn saved_config_is_loaded_again(
    store: Map<Seq<char>, Seq<char>>,
    c: config::ConfigView,
)
    ensures
        loaded_from(after_writes(store, stored_entries(c))) == if c.wifi_ssid.len() > 0 {
            Some(config::ConfigView { bme280_addr: config::BME280_ADDR, ..c })
        } else {
            None
        },
{
    let after = after_writes(store, stored_entries(c));
    let replies = read_replies(after, KEY_COUNT as nat);
    let values = values_of(replies);
    let entries = stored_entries(c);
    assert forall|j: int| 0 <= j < KEY_COUNT implies values[#[trigger] place(j)] == Some(
        entries[j].1,
    ) by {
        lemma_entry_reads_back(store, c, j);
        assert(replies[place(j)] == read_reply(after, load_keys()[place(j)]));
    }
    assert(place(0) == 1);
    assert(place(1) == 2);
    assert(place(2) == 0);
    assert(place(3) == 3);
    assert(place(4) == 4);
    assert(place(5) == 5);
    assert(place(6) == 6);
    assert(place(7) == 7);
    assert(place(8) == 8);
    assert(place(9) == 9);
    assert(place(10) == 10);
    assert(place(11) == 11);
    assert(place(12) == 12);
    assert(place(13) == 13);
    assert(place(14) == 14);
    assert(place(15) == 15);
    assert(place(16) == 16);
    assert(place(17) == 17);
    lemma_entry_reads_back(store, c, 2);
    text::decimal_reads_back(c.mqtt_port as nat, u16::MAX as nat);
    text::decimal_reads_back(c.sleep_minutes as nat, u32::MAX as nat);
    text::decimal_reads_back(c.mqtt_qos as nat, u8::MAX as nat);
    text::decimal_reads_back(c.sda_pin as nat, u8::MAX as nat);
    text::decimal_reads_back(c.scl_pin as nat, u8::MAX as nat);
    text::decimal_reads_back(c.adc_pin as nat, u8::MAX as nat);
    reveal_strlit("0");
    reveal_strlit("1");
    assert("1"@[0] != "0"@[0]);
}

/// A stored text is loaded as it is, and a missing one gives the default.
pub proof fn stored_texts_are_loaded(values: Seq<Option<Seq<char>>>)
    ensures
        ({
            let c = stored_config(values);
            let or = |v: Option<Seq<char>>, default: Seq<char>|
                match v {
                    Some(s) => s,
                    None => default,
                };
            &&& c.wifi_ssid == or(values[0], Seq::empty())
            &&& c.device_name == or(values[1], "weathernode"@)
            &&& c.room == or(values[2], Seq::empty())
            &&& c.wifi_password == or(values[3], Seq::empty())
            &&& c.mqtt_server == or(values[4], Seq::empty())
            &&& c.mqtt_user == or(values[6], Seq::empty())
            &&& c.mqtt_password == or(values[7], Seq::empty())
            &&& c.mqtt_topic == or(values[8], "/data/nodes"@)
        }),
{
}

/// A stored number is loaded if it can be read and fits; a missing or unreadable
/// one gives the default.
pub proof fn stored_numbers_are_loaded(values: Seq<Option<Seq<char>>>)
    ensures
        ({
            let c = stored_config(values);
            let or = |v: Option<Seq<char>>, max: nat, default: nat|
                match v {
                    Some(s) => match text::parse_unsigned(s, max) {
                        Some(n) => n,
                        None => default,
                    },
                    None => default,
                };
            &&& c.mqtt_port == or(values[5], 65535, 1883)
            &&& c.sleep_minutes == or(values[9], 4294967295, 5)
            &&& c.mqtt_qos == or(values[10], 255, 0)
            &&& c.sda_pin == or(values[11], 255, 21)
            &&& c.scl_pin == or(values[12], 255, 22)
            &&& c.adc_pin == or(values[13], 255, 33)
            &&& c.bme280_addr == 0x76
        }),
{
}

/// A stored switch is off exactly if its text is `0`.
pub proof fn only_zero_is_off(values: Seq<Option<Seq<char>>>)
    ensures
        stored_config(values).send_temperature <==> values[14] != Some(seq!['0']),
        stored_config(values).send_pressure <==> values[15] != Some(seq!['0']),
        stored_config(values).send_humidity <==> values[16] != Some(seq!['0']),
        stored_config(values).send_battery <==> values[17] != Some(seq!['0']),
{
    reveal_strlit("0");
    assert("0"@ =~= seq!['0']);
}

/// Every field is written under its key: texts as they are, numbers in decimal,
/// switches as `1` or `0`.
pub proof fn every_field_is_written(c: config::ConfigView)
    ensures
        ({
            let e = stored_entries(c);
            let switch = |on: bool|
                if on {
                    seq!['1']
                } else {
                    seq!['0']
                };
            &&& e.len() == 18
            &&& e.contains(("device_name"@, c.device_name))
            &&& e.contains(("room"@, c.room))
            &&& e.contains(("wifi_ssid"@, c.wifi_ssid))
            &&& e.contains(("wifi_password"@, c.wifi_password))
            &&& e.contains(("mqtt_server"@, c.mqtt_server))
            &&& e.contains(("mqtt_port"@, text::decimal(c.mqtt_port as nat)))
            &&& e.contains(("mqtt_user"@, c.mqtt_user))
            &&& e.contains(("mqtt_password"@, c.mqtt_password))
            &&& e.contains(("mqtt_topic"@, c.mqtt_topic))
            &&& e.contains(("sleep_mins"@, text::decimal(c.sleep_minutes as nat)))
            &&& e.contains(("mqtt_qos"@, text::decimal(c.mqtt_qos as nat)))
            &&& e.contains(("sda_pin"@, text::decimal(c.sda_pin as nat)))
            &&& e.contains(("scl_pin"@, text::decimal(c.scl_pin as nat)))
            &&& e.contains(("adc_pin"@, text::decimal(c.adc_pin as nat)))
            &&& e.contains(("send_temp"@, switch(c.send_temperature)))
            &&& e.contains(("send_pres"@, switch(c.send_pressure)))
            &&& e.contains(("send_humi"@, switch(c.send_humidity)))
            &&& e.contains(("send_bat"@, switch(c.send_battery)))
        }),
{
    let e = stored_entries(c);
    reveal_strlit("0");
    reveal_strlit("1");
    assert("0"@ =~= seq!['0']);
    assert("1"@ =~= seq!['1']);
    assert(e[0] == ("device_name"@, c.device_name));
    assert(e[1] == ("room"@, c.room));
    assert(e[2] == ("wifi_ssid"@, c.wifi_ssid));
    assert(e[3] == ("wifi_password"@, c.wifi_password));
    assert(e[4] == ("mqtt_server"@, c.mqtt_server));
    assert(e[5].0 == "mqtt_port"@);
    assert(e[6] == ("mqtt_user"@, c.mqtt_user));
    assert(e[7] == ("mqtt_password"@, c.mqtt_password));
    assert(e[8] == ("mqtt_topic"@, c.mqtt_topic));
    assert(e[9].0 == "sleep_mins"@);
    assert(e[10].0 == "mqtt_qos"@);
    assert(e[11].0 == "sda_pin"@);
    assert(e[12].0 == "scl_pin"@);
    assert(e[13].0 == "adc_pin"@);
    assert(e[14].0 == "send_temp"@);
    assert(e[15].0 == "send_pres"@);
    assert(e[16].0 == "send_humi"@);
    assert(e[17].0 == "send_bat"@);
}

/// Loading goes by the replies alone: while none of them is a failure and there
/// is a network name it asks for another key, and it ends after the last one.
pub proof fn loading_ends_after_the_last_key(replies: Seq<Result<Option<Seq<char>>, Seq<char>>>)
    requires
        replies.len() > 0,
        forall|i: int| 0 <= i < replies.len() ==> (#[trigger] replies[i]) is Ok,
    ensures
        ({
            let named = replies[0] matches Ok(Some(ssid)) && ssid.len() > 0;
            &&& !named ==> load_step(replies) == LoadStepView::Done(Ok(None))
            &&& named && replies.len() < 18 ==> load_step(replies) == LoadStepView::Read(
                load_keys()[replies.len() as int],
            )
            &&& named && replies.len() >= 18 ==> load_step(replies) == LoadStepView::Done(
                Ok(Some(stored_config(Seq::new(replies.len(), |i: int| replies[i]->Ok_0)))),
            )
        }),
{
    lemma_all_ok(replies);
    assert(values_of(replies) =~= Seq::new(replies.len(), |i: int| replies[i]->Ok_0));
}

/// A failed read ends loading with its failure, whatever was read before, unless
/// loading was over already.
pub proof fn failed_read_ends_loading(
    replies: Seq<Result<Option<Seq<char>>, Seq<char>>>,
    e: Seq<char>,
)
    requires
        forall|i: int| 0 <= i < replies.len() ==> (#[trigger] replies[i]) is Ok,
        replies.len() > 0 ==> (replies[0] matches Ok(Some(ssid)) && ssid.len() > 0),
    ensures
        load_step(replies.push(Err(e))) == LoadStepView::Done(
            Err(config::ConfigErrorView::Storage(e)),
        ),
{
    lemma_all_ok(replies);
    assert(replies.push(Err(e)).drop_last() =~= replies);
    if replies.len() > 0 {
        assert(replies.push(Err(e))[0] == replies[0]);
    }
}

} // verus!
