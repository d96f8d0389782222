//! Request bodies, URL decoding and forms.
use weathernode::form::{
    config_from_fields, get_field, get_u16, get_u32, get_u8, parse_form, parse_kv,
    percent_decoded, url_decode, Body, BODY_CHUNK, MAX_BODY,
};

#[test]
fn url_decode_plain() {
    assert_eq!(url_decode("hello"), "hello");
}

#[test]
fn url_decode_plus_as_space() {
    assert_eq!(url_decode("hello+world"), "hello world");
}

#[test]
fn url_decode_ascii_percent() {
    assert_eq!(url_decode("caf%C3%A9"), "café");
}

#[test]
fn url_decode_umlaut_password() {
    // ä = U+00E4 = UTF-8 0xC3 0xA4
    assert_eq!(url_decode("P%C3%A4ssword"), "Pässword");
}

#[test]
fn parse_kv_basic() {
    let m = parse_kv("a=1&b=2");
    assert_eq!(m.get("a").map(String::as_str), Some("1"));
    assert_eq!(m.get("b").map(String::as_str), Some("2"));
}

#[test]
fn parse_kv_missing_value() {
    let m = parse_kv("key=");
    assert_eq!(m.get("key").map(String::as_str), Some(""));
}

#[test]
fn parse_kv_encoded_value() {
    let m = parse_kv("pw=My%20Pass");
    assert_eq!(m.get("pw").map(String::as_str), Some("My Pass"));
}

#[test]
fn url_decode_invalid_hex_kept() {
    // %GG is not valid hex; the '%' should be preserved literally.
    assert_eq!(url_decode("%GGabc"), "%GGabc");
}

#[test]
fn url_decode_truncated_at_end() {
    // Bare '%' at end (no following digits) should not be eaten.
    assert_eq!(url_decode("abc%"), "abc%");
}

#[test]
fn url_decode_truncated_one_digit() {
    // '%A' with no second digit: keep '%' literally (no phantom byte).
    assert_eq!(url_decode("abc%A"), "abc%A");
}

#[test]
fn url_decode_escape_at_the_very_end() {
    assert_eq!(url_decode("a%20"), "a ");
    assert_eq!(url_decode("%41"), "A");
}

#[test]
fn url_decode_takes_either_case() {
    assert_eq!(url_decode("%c3%A4%2b%2F"), "ä+/");
}

#[test]
fn url_decode_escaped_plus_stays() {
    assert_eq!(url_decode("a%2Bb+c"), "a+b c");
}

#[test]
fn url_decode_percent_then_escape() {
    assert_eq!(url_decode("%%41"), "%A");
    assert_eq!(url_decode("%+1"), "% 1");
}

#[test]
fn url_decode_keeps_plain_text() {
    assert_eq!(url_decode("grün & <rot> 日本"), "grün & <rot> 日本");
    assert_eq!(url_decode(""), "");
}

#[test]
fn url_decode_replaces_invalid_utf8() {
    assert_eq!(url_decode("a%FFb"), "a\u{FFFD}b");
    assert_eq!(url_decode("%C3"), "\u{FFFD}");
}

#[test]
fn percent_decoded_gives_bytes() {
    assert_eq!(percent_decoded(b"%00x%ff%zz"), vec![0u8, 120, 255, 37, 122, 122]);
}

#[test]
fn parse_kv_later_field_counts() {
    let m = parse_kv("a=1&a=2");
    assert_eq!(m.get("a").map(String::as_str), Some("2"));
}

#[test]
fn parse_kv_without_equals_sign() {
    let m = parse_kv("a&b=2&&=x");
    assert!(m.get("a").is_none());
    assert_eq!(m.get("b").map(String::as_str), Some("2"));
    assert_eq!(m.get("").map(String::as_str), Some("x"));
}

#[test]
fn parse_kv_splits_at_the_first_equals_sign() {
    let m = parse_kv("a=b=c");
    assert_eq!(m.get("a").map(String::as_str), Some("b=c"));
}

#[test]
fn parse_kv_decodes_names() {
    let m = parse_kv("my%20key=1");
    assert_eq!(m.get("my key").map(String::as_str), Some("1"));
}

#[test]
fn parse_kv_of_nothing() {
    assert!(parse_kv("").get("").is_none());
}

#[test]
fn fields_and_numbers() {
    let m = parse_kv("a=7&b=256&c=65535&d=+8&e=x&f=&g=4294967295&h=%2B9");
    assert_eq!(get_field(&m, "a"), "7");
    assert_eq!(get_field(&m, "nope"), "");
    assert_eq!(get_u8(&m, "a", 1), 7);
    assert_eq!(get_u8(&m, "b", 1), 1);
    assert_eq!(get_u16(&m, "b", 1), 256);
    assert_eq!(get_u16(&m, "c", 1), 65535);
    assert_eq!(get_u8(&m, "d", 1), 1);
    assert_eq!(get_u8(&m, "e", 1), 1);
    assert_eq!(get_u8(&m, "f", 1), 1);
    assert_eq!(get_u8(&m, "nope", 1), 1);
    assert_eq!(get_u32(&m, "g", 1), 4294967295);
    assert_eq!(get_u16(&m, "g", 1), 1);
    assert_eq!(get_u8(&m, "h", 1), 9);
}

#[test]
fn empty_form_gives_defaults_with_boxes_off() {
    let c = parse_form("");
    assert_eq!(c.device_name, "weathernode");
    assert_eq!(c.room, "");
    assert_eq!(c.wifi_ssid, "");
    assert_eq!(c.wifi_password, "");
    assert_eq!(c.mqtt_server, "");
    assert_eq!(c.mqtt_port, 1883);
    assert_eq!(c.mqtt_user, "");
    assert_eq!(c.mqtt_password, "");
    assert_eq!(c.mqtt_topic, "/data/nodes");
    assert_eq!(c.sleep_minutes, 5);
    assert_eq!(c.mqtt_qos, 0);
    assert_eq!(c.bme280_addr, 0x76);
    assert_eq!((c.sda_pin, c.scl_pin, c.adc_pin), (21, 22, 33));
    assert!(!c.send_temperature && !c.send_pressure && !c.send_humidity && !c.send_battery);
}

#[test]
fn filled_form_is_read_as_it_was_sent() {
    let c = parse_form(
        "device_name=K%C3%BCche+1&room=keller&wifi_ssid=Net&wifi_password=a%26b%3Dc\
         &mqtt_server=10.0.0.1&mqtt_port=8883&mqtt_user=u&mqtt_password=p&mqtt_topic=%2Ft\
         &sleep_minutes=60&mqtt_qos=1&sda_pin=4&scl_pin=5&adc_pin=36&send_temperature=1\
         &send_humidity=1&send_battery=1",
    );
    assert_eq!(c.device_name, "Küche 1");
    assert_eq!(c.room, "keller");
    assert_eq!(c.wifi_ssid, "Net");
    assert_eq!(c.wifi_password, "a&b=c");
    assert_eq!(c.mqtt_server, "10.0.0.1");
    assert_eq!(c.mqtt_port, 8883);
    assert_eq!(c.mqtt_user, "u");
    assert_eq!(c.mqtt_password, "p");
    assert_eq!(c.mqtt_topic, "/t");
    assert_eq!(c.sleep_minutes, 60);
    assert_eq!(c.mqtt_qos, 1);
    assert_eq!((c.sda_pin, c.scl_pin, c.adc_pin), (4, 5, 36));
    assert!(c.send_temperature && !c.send_pressure && c.send_humidity && c.send_battery);
}

#[test]
fn unreadable_numbers_give_defaults() {
    let c = parse_form("mqtt_port=70000&sleep_minutes=-1&mqtt_qos=2&sda_pin=256&scl_pin=x");
    assert_eq!(c.mqtt_port, 1883);
    assert_eq!(c.sleep_minutes, 5);
    assert_eq!(c.mqtt_qos, 1);
    assert_eq!((c.sda_pin, c.scl_pin), (21, 22));
}

#[test]
fn empty_name_and_topic_give_defaults() {
    let c = config_from_fields(&parse_kv("device_name=&mqtt_topic="));
    assert_eq!(c.device_name, "weathernode");
    assert_eq!(c.mqtt_topic, "/data/nodes");
}

#[test]
fn a_box_is_on_whatever_it_holds() {
    assert!(parse_form("send_pressure=").send_pressure);
    assert!(parse_form("send_pressure=0").send_pressure);
}

#[test]
fn body_is_read_in_chunks() {
    let mut b = Body::new();
    assert_eq!(b.wanted(), BODY_CHUNK);
    assert!(b.take_in(Some(b"wifi_ssid=")));
    assert!(b.take_in(Some(b"Net")));
    assert!(!b.take_in(Some(b"")));
    assert_eq!(b.text(), "wifi_ssid=Net");
}

#[test]
fn body_ends_with_a_failure() {
    let mut b = Body::new();
    assert!(b.take_in(Some(b"abc")));
    assert!(!b.take_in(None));
    assert_eq!(b.text(), "abc");
}

#[test]
fn body_is_capped() {
    let mut b = Body::new();
    for i in 0..8 {
        assert_eq!(b.wanted(), BODY_CHUNK);
        let more = b.take_in(Some(&[b'x'; BODY_CHUNK]));
        assert_eq!(more, i < 7);
    }
    assert_eq!(b.wanted(), 0);
    assert_eq!(b.text().len(), MAX_BODY);
    assert!(!b.take_in(Some(b"y")));
    assert_eq!(b.text(), "x".repeat(MAX_BODY));
}

#[test]
fn body_takes_only_what_fits() {
    let mut b = Body::new();
    assert!(b.take_in(Some(&[b'x'; 4000])));
    assert_eq!(b.wanted(), 96);
    assert!(!b.take_in(Some(&[b'y'; 512])));
    assert_eq!(b.text(), "x".repeat(4000) + &"y".repeat(96));
}

#[test]
fn body_with_invalid_utf8() {
    let mut b = Body::new();
    b.take_in(Some(&[0x61, 0xff, 0xc3, 0xa4]));
    assert_eq!(b.text(), "a\u{FFFD}ä");
}
