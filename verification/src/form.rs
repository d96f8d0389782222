//! Form bodies of the portal: collecting the bytes of a request, URL decoding
//! and the configuration that a submitted form describes.
use vstd::prelude::*;
use vstd::hash_map::StringHashMap;
use vstd::string::*;
use vstd::utf8;

use crate::config;
use crate::config::Config;
use crate::text;
use crate::text::{parse_number, replaced, split_on, split_once_on};

verus! {

// ---------------------------------------------------------------------------
// UTF-8
// ---------------------------------------------------------------------------

/// What `String::from_utf8_lossy` of std makes of `bytes`.
pub uninterp spec fn utf8_lossy(bytes: Seq<u8>) -> Seq<char>;

/// The text that `bytes` stand for: the one that they encode, if they are
/// valid UTF-8.
pub open spec fn text_of(bytes: Seq<u8>) -> Seq<char> {
    if utf8::valid_utf8(bytes) {
        utf8::decode_utf8(bytes)
    } else {
        utf8_lossy(bytes)
    }
}

/// Calls `String::from_utf8_lossy` of std. Bytes that are valid UTF-8 give the
/// text that they encode. What it puts in place of invalid bytes is not stated.
#[verifier::external_body]
fn lossy_text(bytes: &[u8]) -> (r: String)
    ensures
        r@ == utf8_lossy(bytes@),
        utf8::valid_utf8(bytes@) ==> r@ == utf8::decode_utf8(bytes@),
{
    String::from_utf8_lossy(bytes).into_owned()
}

// ---------------------------------------------------------------------------
// Request bodies
// ---------------------------------------------------------------------------

/// The most bytes that are read of a request body: the form has at most about
/// 600, and the heap is small.
pub const MAX_BODY: usize = 4096;

/// The most bytes that are read of a request body at a time.
pub const BODY_CHUNK: usize = 512;

/// The first bytes of `bytes`, as many as are read of a request body.
pub open spec fn capped(bytes: Seq<u8>) -> Seq<u8> {
    if bytes.len() <= MAX_BODY {
        bytes
    } else {
        bytes.take(MAX_BODY as int)
    }
}

/// The bytes of a request body that were read so far.
pub struct Body {
    bytes: Vec<u8>,
}

impl View for Body {
    type V = Seq<u8>;

    closed spec fn view(&self) -> Seq<u8> {
        self.bytes@
    }
}

impl Body {
    /// Never more than [`MAX_BODY`] bytes.
    #[verifier::type_invariant]
    spec fn bounded(self) -> bool {
        self.bytes@.len() <= MAX_BODY
    }

    /// A body of which nothing was read yet.
    pub fn new() -> (b: Body)
        ensures
            b@ == Seq::<u8>::empty(),
    {
        Body { bytes: Vec::new() }
    }

    /// How many bytes to ask the connection for next; with 0 the body is
    /// complete as far as it is read at all.
    pub fn wanted(&self) -> (n: usize)
        ensures
            self@.len() <= MAX_BODY,
            n == if MAX_BODY - self@.len() < BODY_CHUNK {
                MAX_BODY - self@.len()
            } else {
                BODY_CHUNK as int
            },
    {
        proof {
            use_type_invariant(self);
        }
        let rest = MAX_BODY - self.bytes.len();
        if rest < BODY_CHUNK {
            rest
        } else {
            BODY_CHUNK
        }
    }

    /// Takes in what the connection gave, as far as there is room, and says
    /// whether to read on: not after an empty read or a failure (`None`), nor
    /// once the body is full.
    pub fn take_in(&mut self, read: Option<&[u8]>) -> (more: bool)
        ensures
            final(self)@ == match read {
                None => old(self)@,
                Some(chunk) => capped(old(self)@ + chunk@),
            },
            more <==> read is Some && read->0@.len() > 0 && final(self)@.len() < MAX_BODY,
    {
        proof {
            use_type_invariant(&*self);
        }
        match read {
            None => false,
            Some(chunk) => {
                let mut bytes: Vec<u8> = Vec::new();
                std::mem::swap(&mut bytes, &mut self.bytes);
                let ghost start = bytes@;
                let mut i: usize = 0;
                while i < chunk.len() && bytes.len() < MAX_BODY
                    invariant
                        i <= chunk@.len(),
                        start.len() + i == bytes@.len(),
                        bytes@.len() <= MAX_BODY,
                        bytes@ == start + chunk@.take(i as int),
                    decreases chunk.len() - i,
                {
                    bytes.push(chunk[i]);
                    i += 1;
                    assert(bytes@ =~= start + chunk@.take(i as int));
                }
                let more = chunk.len() > 0 && bytes.len() < MAX_BODY;
                assert(bytes@ =~= capped(start + chunk@));
                self.bytes = bytes;
                more
            },
        }
    }

    /// The text of the body.
    pub fn text(&self) -> (r: String)
        ensures
            r@ == text_of(self@),
    {
        lossy_text(self.bytes.as_slice())
    }
}

// ---------------------------------------------------------------------------
// URL decoding
// ---------------------------------------------------------------------------

/// The byte of a percent sign.
pub const PERCENT: u8 = 0x25;

/// The value of a hexadecimal digit, upper or lower case.
pub open spec fn hex_value(b: u8) -> Option<int> {
    if 0x30 <= b <= 0x39 {
        Some(b - 0x30)
    } else if 0x41 <= b <= 0x46 {
        Some(b - 0x37)
    } else if 0x61 <= b <= 0x66 {
        Some(b - 0x57)
    } else {
        None
    }
}

/// Whether `b` begins with a percent sign and two hexadecimal digits.
pub open spec fn starts_escaped(b: Seq<u8>) -> bool {
    &&& b.len() >= 3
    &&& b[0] == PERCENT
    &&& hex_value(b[1]) is Some
    &&& hex_value(b[2]) is Some
}

/// `b` with each percent sign and two hexadecimal digits replaced by the byte
/// that they stand for. A percent sign that two such digits do not follow
/// stays as it is.
pub open spec fn percent_decode(b: Seq<u8>) -> Seq<u8>
    decreases b.len(),
{
    if b.len() == 0 {
        Seq::empty()
    } else if starts_escaped(b) {
        seq![(hex_value(b[1])->0 * 16 + hex_value(b[2])->0) as u8] + percent_decode(b.skip(3))
    } else {
        seq![b[0]] + percent_decode(b.skip(1))
    }
}

/// The bytes that a URL-encoded text stands for.
pub open spec fn url_bytes(s: Seq<char>) -> Seq<u8> {
    percent_decode(utf8::encode_utf8(text::replace_char(s, '+', ' ')))
}

/// The text that a URL-encoded text stands for.
pub open spec fn url_decoded(s: Seq<char>) -> Seq<char> {
    text_of(url_bytes(s))
}

/// The value of a hexadecimal digit.
fn hex_digit_value(b: u8) -> (r: Option<u8>)
    ensures
        match r {
            None => hex_value(b) is None,
            Some(v) => hex_value(b) == Some(v as int) && v < 16,
        },
{
    if b >= 0x30 && b <= 0x39 {
        Some(b - 0x30)
    } else if b >= 0x41 && b <= 0x46 {
        Some(b - 0x37)
    } else if b >= 0x61 && b <= 0x66 {
        Some(b - 0x57)
    } else {
        None
    }
}

/// The byte that `b` from index `i` on begins with an escape of.
fn escaped_byte(b: &[u8], i: usize) -> (r: Option<u8>)
    requires
        i < b@.len(),
    ensures
        r is Some <==> starts_escaped(b@.skip(i as int)),
        r matches Some(v) ==> v == hex_value(b@[i + 1])->0 * 16 + hex_value(b@[i + 2])->0,
{
    if b[i] != PERCENT || b.len() - i < 3 {
        return None;
    }
    match (hex_digit_value(b[i + 1]), hex_digit_value(b[i + 2])) {
        (Some(high), Some(low)) => Some(high * 16 + low),
        _ => None,
    }
}

/// Decodes the percent escapes of `b`.
pub fn percent_decoded(b: &[u8]) -> (r: Vec<u8>)
    ensures
        r@ == percent_decode(b@),
{
    let mut out: Vec<u8> = Vec::new();
    let mut i: usize = 0;
    assert(b@.skip(0) =~= b@);
    assert(out@ + percent_decode(b@) =~= percent_decode(b@));
    while i < b.len()
        invariant
            i <= b@.len(),
            out@ + percent_decode(b@.skip(i as int)) == percent_decode(b@),
        decreases b.len() - i,
    {
        let ghost before = out@;
        let ghost rest = b@.skip(i as int);
        match escaped_byte(b, i) {
            Some(byte) => {
                out.push(byte);
                assert(rest.skip(3) =~= b@.skip(i + 3));
                assert(out@ + percent_decode(b@.skip(i + 3)) =~= before + percent_decode(rest));
                i += 3;
            },
            None => {
                out.push(b[i]);
                assert(rest.skip(1) =~= b@.skip(i + 1));
                assert(out@ + percent_decode(b@.skip(i + 1)) =~= before + percent_decode(rest));
                i += 1;
            },
        }
    }
    assert(out@ + percent_decode(b@.skip(i as int)) =~= out@);
    out
}

/// Decodes a URL-encoded text: plus signs are spaces, percent escapes are
/// bytes, and the bytes together are UTF-8.
pub fn url_decode(s: &str) -> (r: String)
    ensures
        r@ == url_decoded(s@),
{
    let spaced = replaced(s, '+', ' ');
    let bytes = percent_decoded(spaced.as_str().as_bytes());
    lossy_text(bytes.as_slice())
}

// ---------------------------------------------------------------------------
// Form fields
// ---------------------------------------------------------------------------

/// The fields that `pairs` name, each with its decoded value. A pair without
/// an equals sign names none; of two pairs with one name the later counts.
pub open spec fn fields_of(pairs: Seq<Seq<char>>) -> Map<Seq<char>, Seq<char>>
    decreases pairs.len(),
{
    if pairs.len() == 0 {
        Map::empty()
    } else {
        let earlier = fields_of(pairs.drop_last());
        match text::split_once(pairs.last(), '=') {
            Some((key, value)) => earlier.insert(url_decoded(key), url_decoded(value)),
            None => earlier,
        }
    }
}

/// The fields of a form body.
pub open spec fn form_fields(body: Seq<char>) -> Map<Seq<char>, Seq<char>> {
    fields_of(text::split(body, '&'))
}

/// A map of texts by what its values hold.
pub open spec fn texts(m: Map<Seq<char>, String>) -> Map<Seq<char>, Seq<char>> {
    m.map_values(|v: String| v@)
}

/// Reads the fields of a form body.
pub fn parse_kv(body: &str) -> (m: StringHashMap<String>)
    ensures
        texts(m@) == form_fields(body@),
{
    let mut map: StringHashMap<String> = StringHashMap::new();
    let pairs = split_on(body, '&');
    let ghost all = text::split(body@, '&');
    assert(texts(map@) =~= Map::empty());
    for i in 0..pairs.len()
        invariant
            pairs@.len() == all.len(),
            forall|j: int| 0 <= j < pairs@.len() ==> (#[trigger] pairs@[j])@ == all[j],
            texts(map@) == fields_of(all.take(i as int)),
    {
        assert(all.take(i + 1).drop_last() =~= all.take(i as int));
        assert(pairs@[i as int]@ == all[i as int]);
        match split_once_on(pairs[i].as_str(), '=') {
            Some((k, v)) => {
                let key = url_decode(k.as_str());
                let value = url_decode(v.as_str());
                let ghost before = map@;
                map.insert(key, value);
                assert(texts(map@) =~= texts(before).insert(key@, value@));
            },
            None => {},
        }
    }
    assert(all.take(all.len() as int) =~= all);
    map
}

/// The value of a field; empty if the form has no such field.
pub open spec fn field(fields: Map<Seq<char>, Seq<char>>, key: Seq<char>) -> Seq<char> {
    if fields.contains_key(key) {
        fields[key]
    } else {
        Seq::empty()
    }
}

/// The value of a field, or `default` if it is missing or empty.
pub open spec fn field_or(
    fields: Map<Seq<char>, Seq<char>>,
    key: Seq<char>,
    default: Seq<char>,
) -> Seq<char> {
    if field(fields, key).len() == 0 {
        default
    } else {
        field(fields, key)
    }
}

/// The number in a field, or `default` if it holds none of at most `max`.
pub open spec fn number_field(
    fields: Map<Seq<char>, Seq<char>>,
    key: Seq<char>,
    max: nat,
    default: nat,
) -> nat {
    match text::parse_unsigned(field(fields, key), max) {
        Some(n) => n,
        None => default,
    }
}

/// The value of a field; empty if the form has no such field.
pub fn get_field(map: &StringHashMap<String>, key: &str) -> (r: String)
    ensures
        r@ == field(texts(map@), key@),
{
    match map.get(key) {
        Some(v) => v.clone(),
        None => String::new(),
    }
}

/// The value of a field, or `default` if it is missing or empty.
fn get_field_or(map: &StringHashMap<String>, key: &str, default: &str) -> (r: String)
    ensures
        r@ == field_or(texts(map@), key@, default@),
{
    let v = get_field(map, key);
    if v.as_str().is_empty() {
        default.to_string()
    } else {
        v
    }
}

/// The number in a field, or `default` if it holds none of at most `max`.
fn get_number(map: &StringHashMap<String>, key: &str, max: u64, default: u64) -> (r: u64)
    requires
        default <= max,
    ensures
        r == number_field(texts(map@), key@, max as nat, default as nat),
        r <= max,
{
    match parse_number(get_field(map, key).as_str(), max) {
        Some(n) => n,
        None => default,
    }
}

/// The byte in a field, or `default` if it holds none.
pub fn get_u8(map: &StringHashMap<String>, key: &str, default: u8) -> (r: u8)
    ensures
        r == number_field(texts(map@), key@, u8::MAX as nat, default as nat),
{
    get_number(map, key, 0xff, default as u64) as u8
}

/// The 16-bit number in a field, or `default` if it holds none.
pub fn get_u16(map: &StringHashMap<String>, key: &str, default: u16) -> (r: u16)
    ensures
        r == number_field(texts(map@), key@, u16::MAX as nat, default as nat),
{
    get_number(map, key, 0xffff, default as u64) as u16
}

/// The 32-bit number in a field, or `default` if it holds none.
pub fn get_u32(map: &StringHashMap<String>, key: &str, default: u32) -> (r: u32)
    ensures
        r == number_field(texts(map@), key@, u32::MAX as nat, default as nat),
{
    get_number(map, key, 0xffff_ffff, default as u64) as u32
}

/// The configuration that the fields of a form describe: a missing or empty
/// name or topic and a missing or unreadable number give the default, any other
/// text is taken as it is, and a reading is on if its box was sent.
pub open spec fn form_config(fields: Map<Seq<char>, Seq<char>>) -> config::ConfigView {
    let qos = number_field(fields, "mqtt_qos"@, u8::MAX as nat, config::DEFAULT_MQTT_QOS as nat);
    config::ConfigView {
        device_name: field_or(fields, "device_name"@, config::DEFAULT_DEVICE_NAME@),
        room: field(fields, "room"@),
        wifi_ssid: field(fields, "wifi_ssid"@),
        wifi_password: field(fields, "wifi_password"@),
        mqtt_server: field(fields, "mqtt_server"@),
        mqtt_port: number_field(
            fields,
            "mqtt_port"@,
            u16::MAX as nat,
            config::DEFAULT_MQTT_PORT as nat,
        ) as u16,
        mqtt_user: field(fields, "mqtt_user"@),
        mqtt_password: field(fields, "mqtt_password"@),
        mqtt_topic: field_or(fields, "mqtt_topic"@, config::DEFAULT_MQTT_TOPIC@),
        sleep_minutes: number_field(
            fields,
            "sleep_minutes"@,
            u32::MAX as nat,
            config::DEFAULT_SLEEP_MINUTES as nat,
        ) as u32,
        mqtt_qos: if qos < 1 {
            0
        } else {
            1
        },
        bme280_addr: config::BME280_ADDR,
        sda_pin: number_field(
            fields,
            "sda_pin"@,
            u8::MAX as nat,
            config::DEFAULT_SDA_PIN as nat,
        ) as u8,
        scl_pin: number_field(
            fields,
            "scl_pin"@,
            u8::MAX as nat,
            config::DEFAULT_SCL_PIN as nat,
        ) as u8,
        adc_pin: number_field(
            fields,
            "adc_pin"@,
            u8::MAX as nat,
            config::DEFAULT_ADC_PIN as nat,
        ) as u8,
        send_temperature: fields.contains_key("send_temperature"@),
        send_pressure: fields.contains_key("send_pressure"@),
        send_humidity: fields.contains_key("send_humidity"@),
        send_battery: fields.contains_key("send_battery"@),
    }
}

/// The configuration that a form body describes.
pub fn parse_form(body: &str) -> (c: Config)
    ensures
        c@ == form_config(form_fields(body@)),
{
    let map = parse_kv(body);
    config_from_fields(&map)
}

/// The configuration that form fields describe.
pub fn config_from_fields(map: &StringHashMap<String>) -> (c: Config)
    ensures
        c@ == form_config(texts(map@)),
{
    let qos = get_u8(map, "mqtt_qos", config::DEFAULT_MQTT_QOS);
    Config {
        device_name: get_field_or(map, "device_name", config::DEFAULT_DEVICE_NAME),
        room: get_field(map, "room"),
        wifi_ssid: get_field(map, "wifi_ssid"),
        wifi_password: get_field(map, "wifi_password"),
        mqtt_server: get_field(map, "mqtt_server"),
        mqtt_port: get_u16(map, "mqtt_port", config::DEFAULT_MQTT_PORT),
        mqtt_user: get_field(map, "mqtt_user"),
        mqtt_password: get_field(map, "mqtt_password"),
        mqtt_topic: get_field_or(map, "mqtt_topic", config::DEFAULT_MQTT_TOPIC),
        sleep_minutes: get_u32(map, "sleep_minutes", config::DEFAULT_SLEEP_MINUTES),
        mqtt_qos: if qos < 1 {
            0
        } else {
            1
        },
        bme280_addr: config::BME280_ADDR,
        sda_pin: get_u8(map, "sda_pin", config::DEFAULT_SDA_PIN),
        scl_pin: get_u8(map, "scl_pin", config::DEFAULT_SCL_PIN),
        adc_pin: get_u8(map, "adc_pin", config::DEFAULT_ADC_PIN),
        send_temperature: map.contains_key("send_temperature"),
        send_pressure: map.contains_key("send_pressure"),
        send_humidity: map.contains_key("send_humidity"),
        send_battery: map.contains_key("send_battery"),
    }
}

} // verus!
