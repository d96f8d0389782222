//! What a browser sends is what the portal reads: laws on URL-encoded forms.
use vstd::prelude::*;
use vstd::string::*;
use vstd::utf8;

use crate::config;
use crate::form;
use crate::text;

verus! {

// ---------------------------------------------------------------------------
// Encoding, as a browser does it
// ---------------------------------------------------------------------------

/// Whether a byte is sent as the ASCII character that it encodes.
pub open spec fn is_sent_plain(b: u8) -> bool {
    ||| 0x30 <= b <= 0x39
    ||| 0x41 <= b <= 0x5a
    ||| 0x61 <= b <= 0x7a
    ||| b == 0x2a || b == 0x2d || b == 0x2e || b == 0x5f
}

/// The upper-case character of a hexadecimal digit.
pub open spec fn upper_hex_char(d: int) -> char {
    if d < 10 {
        (0x30 + d) as char
    } else {
        (0x37 + d) as char
    }
}

/// What is sent for one byte of a field.
pub open spec fn sent_for(b: u8) -> Seq<char> {
    if is_sent_plain(b) {
        seq![b as char]
    } else if b == 0x20 {
        seq!['+']
    } else {
        seq!['%', upper_hex_char(b as int / 16), upper_hex_char(b as int % 16)]
    }
}

/// What is sent for the bytes of a field.
pub open spec fn sent_for_bytes(b: Seq<u8>) -> Seq<char>
    decreases b.len(),
{
    if b.len() == 0 {
        Seq::empty()
    } else {
        sent_for(b[0]) + sent_for_bytes(b.skip(1))
    }
}

/// What is sent for the text of a field: its UTF-8 bytes, with letters, digits
/// and `*-._` as they are, a plus sign for a space and a percent escape for
/// each other byte.
pub open spec fn url_encode(s: Seq<char>) -> Seq<char> {
    sent_for_bytes(utf8::encode_utf8(s))
}

/// One character of a sent field is an ASCII letter, digit or one of `*-._+%`.
pub open spec fn is_sent_char(c: char) -> bool {
    ||| '0' <= c <= '9'
    ||| 'A' <= c <= 'Z'
    ||| 'a' <= c <= 'z'
    ||| c == '*' || c == '-' || c == '.' || c == '_' || c == '+' || c == '%'
}

/// The ASCII bytes of a text.
spec fn ascii_bytes(s: Seq<char>) -> Seq<u8> {
    Seq::new(s.len(), |i: int| s[i] as u8)
}

/// What is sent for a byte decodes to it, with whatever follows left for later.
proof fn lemma_sent_byte_decodes(b: u8, rest: Seq<u8>)
    ensures
        form::percent_decode(ascii_bytes(text::replace_char(sent_for(b), '+', ' ')) + rest)
            == seq![b] + form::percent_decode(rest),
        forall|i: int| 0 <= i < sent_for(b).len() ==> is_sent_char(#[trigger] sent_for(b)[i]),
{
    let sent = sent_for(b);
    let wire = ascii_bytes(text::replace_char(sent, '+', ' '));
    let whole = wire + rest;
    if is_sent_plain(b) || b == 0x20 {
        assert(wire =~= seq![b]);
        assert(whole.skip(1) =~= rest);
    } else {
        let high = upper_hex_char(b as int / 16);
        let low = upper_hex_char(b as int % 16);
        assert(wire.len() == 3);
        assert(whole[0] == form::PERCENT);
        assert(whole[1] == high as u8 && whole[2] == low as u8);
        assert(form::hex_value(whole[1]) == Some(b as int / 16));
        assert(form::hex_value(whole[2]) == Some(b as int % 16));
        assert(whole.skip(3) =~= rest);
    }
}

/// What is sent for some bytes decodes to them.
proof fn lemma_sent_bytes_decode(b: Seq<u8>)
    ensures
        form::percent_decode(ascii_bytes(text::replace_char(sent_for_bytes(b), '+', ' '))) == b,
        forall|i: int|
            0 <= i < sent_for_bytes(b).len() ==> is_sent_char(#[trigger] sent_for_bytes(b)[i]),
    decreases b.len(),
{
    let sent = sent_for_bytes(b);
    let wire = ascii_bytes(text::replace_char(sent, '+', ' '));
    if b.len() == 0 {
        assert(wire =~= Seq::<u8>::empty());
        assert(b =~= Seq::<u8>::empty());
    } else {
        let tail = sent_for_bytes(b.skip(1));
        let wire_tail = ascii_bytes(text::replace_char(tail, '+', ' '));
        lemma_sent_bytes_decode(b.skip(1));
        lemma_sent_byte_decodes(b[0], wire_tail);
        assert(wire =~= ascii_bytes(text::replace_char(sent_for(b[0]), '+', ' ')) + wire_tail);
        assert(b =~= seq![b[0]] + b.skip(1));
        assert forall|i: int| 0 <= i < sent.len() implies is_sent_char(#[trigger] sent[i]) by {
            let n = sent_for(b[0]).len() as int;
            if i < n {
                assert(sent[i] == sent_for(b[0])[i]);
            } else {
                assert(sent[i] == tail[i - n]);
            }
        }
    }
}

/// Decoding undoes encoding: whatever text a field holds, umlauts and all, the
/// portal reads the same text.
pub proof fn decode_undoes_encode(s: Seq<char>)
    ensures
        form::url_decoded(url_encode(s)) == s,
{
    let sent = url_encode(s);
    let spaced = text::replace_char(sent, '+', ' ');
    lemma_sent_bytes_decode(utf8::encode_utf8(s));
    assert forall|i: int| 0 <= i < spaced.len() implies 0 <= #[trigger] spaced[i] as nat
        && spaced[i] as nat <= 127 by {
        assert(is_sent_char(sent[i]));
    }
    assert(utf8::is_ascii_chars(spaced));
    utf8::is_ascii_chars_encode_utf8(spaced);
    assert(utf8::encode_utf8(spaced) =~= ascii_bytes(spaced));
    utf8::encode_utf8_valid_utf8(s);
    utf8::encode_utf8_decode_utf8(s);
}

/// The bytes of a character beyond ASCII have their high bit set.
proof fn lemma_wide_scalar_has_no_ascii(c: u32)
    requires
        utf8::is_scalar(c),
        c >= 0x80,
    ensures
        forall|i: int|
            0 <= i < utf8::encode_scalar(c).len() ==> #[trigger] utf8::encode_scalar(c)[i] >= 0x80,
{
    assert(0xC0u8 | (((c >> 6) & 0x1F) as u8) >= 0x80) by (bit_vector);
    assert(0xE0u8 | (((c >> 12) & 0x0F) as u8) >= 0x80) by (bit_vector);
    assert(0xF0u8 | (((c >> 18) & 0x7) as u8) >= 0x80) by (bit_vector);
    assert(0x80u8 | ((c & 0x3F) as u8) >= 0x80) by (bit_vector);
    assert(0x80u8 | (((c >> 6) & 0x3F) as u8) >= 0x80) by (bit_vector);
    assert(0x80u8 | (((c >> 12) & 0x3F) as u8) >= 0x80) by (bit_vector);
}

/// A text without percent signs has no such byte.
proof fn lemma_no_percent_byte(s: Seq<char>)
    requires
        !s.contains('%'),
    ensures
        forall|i: int|
            0 <= i < utf8::encode_utf8(s).len() ==> #[trigger] utf8::encode_utf8(s)[i]
                != form::PERCENT,
    decreases s.len(),
{
    if s.len() > 0 {
        let t = s.drop_first();
        assert forall|i: int| 0 <= i < t.len() implies t[i] != '%' by {
            assert(t[i] == s[i + 1]);
        }
        lemma_no_percent_byte(t);
        let c = s[0] as u32;
        utf8::char_is_scalar(s[0]);
        utf8::char_u32_cast(s[0], c);
        assert(s.contains(s[0]));
        if c >= 0x80 {
            lemma_wide_scalar_has_no_ascii(c);
        } else {
            assert((c & 0x7F) as u8 == c as u8) by (bit_vector)
                requires
                    c < 0x80,
            ;
            assert(c != 0x25);
            assert(utf8::encode_scalar(c)[0] == c as u8);
        }
        let head = utf8::encode_scalar(c);
        assert forall|i: int| 0 <= i < utf8::encode_utf8(s).len() implies #[trigger] utf8::encode_utf8(
            s,
        )[i] != form::PERCENT by {
            if i < head.len() {
                assert(utf8::encode_utf8(s)[i] == head[i]);
            } else {
                assert(utf8::encode_utf8(s)[i] == utf8::encode_utf8(t)[i - head.len()]);
            }
        }
    }
}

/// Bytes without percent signs decode to themselves.
proof fn lemma_nothing_to_decode(b: Seq<u8>)
    requires
        forall|i: int| 0 <= i < b.len() ==> #[trigger] b[i] != form::PERCENT,
    ensures
        form::percent_decode(b) == b,
    decreases b.len(),
{
    if b.len() > 0 {
        assert forall|i: int| 0 <= i < b.skip(1).len() implies #[trigger] b.skip(1)[i]
            != form::PERCENT by {
            assert(b.skip(1)[i] == b[i + 1]);
        }
        lemma_nothing_to_decode(b.skip(1));
        assert(b =~= seq![b[0]] + b.skip(1));
    } else {
        assert(b =~= Seq::<u8>::empty());
    }
}

/// Text without plus and percent signs is read as it stands.
pub proof fn plain_text_is_kept(s: Seq<char>)
    requires
        !s.contains('+'),
        !s.contains('%'),
    ensures
        form::url_decoded(s) == s,
{
    assert forall|i: int| 0 <= i < s.len() implies s[i] != '+' by {
        assert(s.contains(s[i]));
    }
    assert(text::replace_char(s, '+', ' ') =~= s);
    lemma_no_percent_byte(s);
    lemma_nothing_to_decode(utf8::encode_utf8(s));
    utf8::encode_utf8_valid_utf8(s);
    utf8::encode_utf8_decode_utf8(s);
}

// ---------------------------------------------------------------------------
// Request bodies
// ---------------------------------------------------------------------------

/// Several chunks in a row.
pub open spec fn joined(chunks: Seq<Seq<u8>>) -> Seq<u8>
    decreases chunks.len(),
{
    if chunks.len() == 0 {
        Seq::empty()
    } else {
        joined(chunks.drop_last()) + chunks.last()
    }
}

/// The body after taking in several chunks, one after the other.
pub open spec fn body_of(chunks: Seq<Seq<u8>>) -> Seq<u8>
    decreases chunks.len(),
{
    if chunks.len() == 0 {
        Seq::empty()
    } else {
        form::capped(body_of(chunks.drop_last()) + chunks.last())
    }
}

/// However a request arrives in chunks, its body is what was sent, up to the
/// most bytes that are read.
pub proof fn body_is_what_was_sent(chunks: Seq<Seq<u8>>)
    ensures
        body_of(chunks) == form::capped(joined(chunks)),
    decreases chunks.len(),
{
    if chunks.len() > 0 {
        body_is_what_was_sent(chunks.drop_last());
        assert(body_of(chunks) =~= form::capped(joined(chunks)));
    }
}

// ---------------------------------------------------------------------------
// Forms
// ---------------------------------------------------------------------------

/// A name and a value, as they are sent.
pub open spec fn sent_pair(pair: (Seq<char>, Seq<char>)) -> Seq<char> {
    url_encode(pair.0) + seq!['='] + url_encode(pair.1)
}

/// The body of a form with the given fields.
pub open spec fn form_body(pairs: Seq<(Seq<char>, Seq<char>)>) -> Seq<char>
    decreases pairs.len(),
{
    if pairs.len() == 0 {
        Seq::empty()
    } else if pairs.len() == 1 {
        sent_pair(pairs[0])
    } else {
        form_body(pairs.drop_last()) + seq!['&'] + sent_pair(pairs.last())
    }
}

/// The fields with their values; of two with one name the later counts.
pub open spec fn as_map(pairs: Seq<(Seq<char>, Seq<char>)>) -> Map<Seq<char>, Seq<char>>
    decreases pairs.len(),
{
    if pairs.len() == 0 {
        Map::empty()
    } else {
        as_map(pairs.drop_last()).insert(pairs.last().0, pairs.last().1)
    }
}

/// A text without the separator is one piece.
proof fn lemma_split_none(s: Seq<char>, sep: char)
    requires
        forall|i: int| 0 <= i < s.len() ==> #[trigger] s[i] != sep,
    ensures
        text::split(s, sep) == seq![s],
    decreases s.len(),
{
    if s.len() > 0 {
        assert forall|i: int| 0 <= i < s.drop_last().len() implies #[trigger] s.drop_last()[i]
            != sep by {
            assert(s.drop_last()[i] == s[i]);
        }
        lemma_split_none(s.drop_last(), sep);
        assert(s.drop_last().push(s.last()) =~= s);
        assert(text::split(s, sep) =~= seq![s]);
    } else {
        assert(s =~= Seq::<char>::empty());
    }
}

/// There is at least one piece.
proof fn lemma_split_some(s: Seq<char>, sep: char)
    ensures
        text::split(s, sep).len() > 0,
    decreases s.len(),
{
    if s.len() > 0 {
        lemma_split_some(s.drop_last(), sep);
    }
}

/// A separator divides the pieces.
proof fn lemma_split_concat(a: Seq<char>, b: Seq<char>, sep: char)
    ensures
        text::split(a + seq![sep] + b, sep) == text::split(a, sep) + text::split(b, sep),
    decreases b.len(),
{
    let whole = a + seq![sep] + b;
    lemma_split_some(b, sep);
    if b.len() == 0 {
        assert(whole.drop_last() =~= a);
        assert(whole.last() == sep);
        assert(text::split(whole, sep) =~= text::split(a, sep) + text::split(b, sep));
    } else {
        lemma_split_concat(a, b.drop_last(), sep);
        lemma_split_some(b.drop_last(), sep);
        assert(whole.drop_last() =~= a + seq![sep] + b.drop_last());
        assert(whole.last() == b.last());
        assert(text::split(whole, sep) =~= text::split(a, sep) + text::split(b, sep));
    }
}

/// What is sent for a text is made of harmless characters only.
proof fn lemma_encoded_chars(s: Seq<char>)
    ensures
        forall|i: int| 0 <= i < url_encode(s).len() ==> is_sent_char(#[trigger] url_encode(s)[i]),
{
    lemma_sent_bytes_decode(utf8::encode_utf8(s));
}

/// A sent pair is one piece of the body and falls apart at its equals sign.
proof fn lemma_sent_pair(pair: (Seq<char>, Seq<char>))
    ensures
        text::split(sent_pair(pair), '&') == seq![sent_pair(pair)],
        text::split_once(sent_pair(pair), '=') == Some((url_encode(pair.0), url_encode(pair.1))),
{
    let s = sent_pair(pair);
    let key = url_encode(pair.0);
    let value = url_encode(pair.1);
    lemma_encoded_chars(pair.0);
    lemma_encoded_chars(pair.1);
    let n = key.len() as int;
    assert forall|i: int| 0 <= i < s.len() implies #[trigger] s[i] != '&' by {
        if i < n {
            assert(s[i] == key[i]);
        } else if i > n {
            assert(s[i] == value[i - n - 1]);
        }
    }
    lemma_split_none(s, '&');
    assert forall|j: int| 0 <= j < n implies s[j] != '=' by {
        assert(s[j] == key[j]);
    }
    text::lemma_position_is(s, '=', n);
    assert(s.take(n) =~= key);
    assert(s.skip(n + 1) =~= value);
}

/// The pieces of a body are the sent pairs.
proof fn lemma_body_splits(pairs: Seq<(Seq<char>, Seq<char>)>)
    requires
        pairs.len() > 0,
    ensures
        text::split(form_body(pairs), '&') == pairs.map_values(
            |p: (Seq<char>, Seq<char>)| sent_pair(p),
        ),
    decreases pairs.len(),
{
    let sent = pairs.map_values(|p: (Seq<char>, Seq<char>)| sent_pair(p));
    lemma_sent_pair(pairs.last());
    if pairs.len() == 1 {
        assert(sent =~= seq![sent_pair(pairs[0])]);
    } else {
        lemma_body_splits(pairs.drop_last());
        lemma_split_concat(form_body(pairs.drop_last()), sent_pair(pairs.last()), '&');
        assert(text::split(form_body(pairs), '&') =~= sent);
    }
}

/// The fields of the sent pairs are the fields that were to be sent.
proof fn lemma_fields_of_sent(pairs: Seq<(Seq<char>, Seq<char>)>)
    ensures
        form::fields_of(pairs.map_values(|p: (Seq<char>, Seq<char>)| sent_pair(p))) == as_map(
            pairs,
        ),
    decreases pairs.len(),
{
    let f = |p: (Seq<char>, Seq<char>)| sent_pair(p);
    if pairs.len() > 0 {
        lemma_fields_of_sent(pairs.drop_last());
        assert(pairs.map_values(f).drop_last() =~= pairs.drop_last().map_values(f));
        lemma_sent_pair(pairs.last());
        decode_undoes_encode(pairs.last().0);
        decode_undoes_encode(pairs.last().1);
    }
}

/// The portal reads exactly the fields that a form was sent with, whatever
/// their names and values hold.
pub proof fn form_is_read_as_sent(pairs: Seq<(Seq<char>, Seq<char>)>)
    ensures
        form::form_fields(form_body(pairs)) == as_map(pairs),
{
    if pairs.len() == 0 {
        let none = Seq::<char>::empty();
        assert(!none.contains('='));
        assert(text::split(none, '&') =~= seq![none]);
        assert(text::split(none, '&').drop_last() =~= Seq::<Seq<char>>::empty());
        assert(form::fields_of(Seq::<Seq<char>>::empty()) == Map::<Seq<char>, Seq<char>>::empty());
    } else {
        lemma_body_splits(pairs);
        lemma_fields_of_sent(pairs);
    }
}

/// Whether the fields of a form say what `c` holds, with every input filled in
/// and a box sent exactly for each reading that is on.
pub open spec fn form_says(
    fields: Map<Seq<char>, Seq<char>>,
    c: config::ConfigView,
) -> bool {
    &&& form::field(fields, "device_name"@) == c.device_name
    &&& form::field(fields, "room"@) == c.room
    &&& form::field(fields, "wifi_ssid"@) == c.wifi_ssid
    &&& form::field(fields, "wifi_password"@) == c.wifi_password
    &&& form::field(fields, "mqtt_server"@) == c.mqtt_server
    &&& form::field(fields, "mqtt_port"@) == text::decimal(c.mqtt_port as nat)
    &&& form::field(fields, "mqtt_user"@) == c.mqtt_user
    &&& form::field(fields, "mqtt_password"@) == c.mqtt_password
    &&& form::field(fields, "mqtt_topic"@) == c.mqtt_topic
    &&& form::field(fields, "sleep_minutes"@) == text::decimal(c.sleep_minutes as nat)
    &&& form::field(fields, "mqtt_qos"@) == text::decimal(c.mqtt_qos as nat)
    &&& form::field(fields, "sda_pin"@) == text::decimal(c.sda_pin as nat)
    &&& form::field(fields, "scl_pin"@) == text::decimal(c.scl_pin as nat)
    &&& form::field(fields, "adc_pin"@) == text::decimal(c.adc_pin as nat)
    &&& fields.contains_key("send_temperature"@) <==> c.send_temperature
    &&& fields.contains_key("send_pressure"@) <==> c.send_pressure
    &&& fields.contains_key("send_humidity"@) <==> c.send_humidity
    &&& fields.contains_key("send_battery"@) <==> c.send_battery
}

/// Whether a form can say what `c` holds: the name and the topic are not
/// empty, the QoS level is one of the two that are offered, and the sensor has
/// its one address.
pub open spec fn form_can_say(c: config::ConfigView) -> bool {
    &&& c.device_name.len() > 0
    &&& c.mqtt_topic.len() > 0
    &&& c.mqtt_qos <= 1
    &&& c.bme280_addr == config::BME280_ADDR
}

/// A filled-in form gives exactly the configuration that was filled in, in
/// whatever order its fields are sent.
pub proof fn filled_form_is_the_config(
    pairs: Seq<(Seq<char>, Seq<char>)>,
    c: config::ConfigView,
)
    requires
        form_says(as_map(pairs), c),
        form_can_say(c),
    ensures
        form::form_config(form::form_fields(form_body(pairs))) == c,
{
    form_is_read_as_sent(pairs);
    text::decimal_reads_back(c.mqtt_port as nat, u16::MAX as nat);
    text::decimal_reads_back(c.sleep_minutes as nat, u32::MAX as nat);
    text::decimal_reads_back(c.mqtt_qos as nat, u8::MAX as nat);
    text::decimal_reads_back(c.sda_pin as nat, u8::MAX as nat);
    text::decimal_reads_back(c.scl_pin as nat, u8::MAX as nat);
    text::decimal_reads_back(c.adc_pin as nat, u8::MAX as nat);
}

/// Any form at all gives a QoS level that the broker protocol offers here, the
/// one address of the sensor, and a name and a topic that are not empty.
pub proof fn every_form_gives_a_sound_config(body: Seq<char>)
    ensures
        form_can_say(form::form_config(form::form_fields(body))),
{
    reveal_strlit("weathernode");
    reveal_strlit("/data/nodes");
}

// ---------------------------------------------------------------------------
// Whatever is sent
// ---------------------------------------------------------------------------

/// A body is cut off after 4096 bytes, and not before.
pub proof fn body_is_cut_off_late(bytes: Seq<u8>)
    ensures
        bytes.len() <= 4096 ==> form::capped(bytes) == bytes,
        bytes.len() > 4096 ==> form::capped(bytes) == bytes.take(4096),
{
}

/// The hexadecimal digits are the decimal ones and the first six letters, upper
/// or lower case, with the values 0 to 15.
pub proof fn hex_digits_have_their_values(b: u8)
    ensures
        form::hex_value(b) is Some <==> {
            ||| '0' as u8 <= b <= '9' as u8
            ||| 'A' as u8 <= b <= 'F' as u8
            ||| 'a' as u8 <= b <= 'f' as u8
        },
        '0' as u8 <= b <= '9' as u8 ==> form::hex_value(b) == Some(b - '0' as u8),
        'A' as u8 <= b <= 'F' as u8 ==> form::hex_value(b) == Some(b - 'A' as u8 + 10),
        'a' as u8 <= b <= 'f' as u8 ==> form::hex_value(b) == Some(b - 'a' as u8 + 10),
{
}

/// A percent sign and two hexadecimal digits are the byte that the digits give,
/// whatever follows.
pub proof fn escapes_are_bytes(high: u8, low: u8, rest: Seq<u8>)
    requires
        form::hex_value(high) is Some,
        form::hex_value(low) is Some,
    ensures
        form::percent_decode(seq![0x25, high, low] + rest) == seq![
            (form::hex_value(high)->0 * 16 + form::hex_value(low)->0) as u8,
        ] + form::percent_decode(rest),
{
    let whole = seq![0x25u8, high, low] + rest;
    assert(whole[0] == 0x25 && whole[1] == high && whole[2] == low);
    assert(whole.skip(3) =~= rest);
}

/// Every other byte stays as it is: one that is no percent sign, and a percent
/// sign that two hexadecimal digits do not follow.
pub proof fn other_bytes_are_kept(b: u8, rest: Seq<u8>)
    requires
        b != 0x25 || rest.len() < 2 || form::hex_value(rest[0]) is None || form::hex_value(
            rest[1],
        ) is None,
    ensures
        form::percent_decode(seq![b] + rest) == seq![b] + form::percent_decode(rest),
        form::percent_decode(Seq::empty()) == Seq::<u8>::empty(),
{
    let whole = seq![b] + rest;
    assert(whole[0] == b);
    assert(whole.skip(1) =~= rest);
    if rest.len() >= 2 {
        assert(whole[1] == rest[0] && whole[2] == rest[1]);
    }
}

/// A text is decoded over its UTF-8 bytes, with spaces for plus signs; and if the
/// decoded bytes are UTF-8 again, the result is the text that they encode.
pub proof fn decoded_bytes_are_utf8(s: Seq<char>)
    ensures
        ({
            let spaced = Seq::new(
                s.len(),
                |i: int|
                    if s[i] == '+' {
                        ' '
                    } else {
                        s[i]
                    },
            );
            let bytes = form::percent_decode(utf8::encode_utf8(spaced));
            utf8::valid_utf8(bytes) ==> utf8::encode_utf8(form::url_decoded(s)) == bytes
        }),
{
    let spaced = Seq::new(
        s.len(),
        |i: int|
            if s[i] == '+' {
                ' '
            } else {
                s[i]
            },
    );
    assert(text::replace_char(s, '+', ' ') =~= spaced);
    let bytes = form::percent_decode(utf8::encode_utf8(spaced));
    if utf8::valid_utf8(bytes) {
        utf8::decode_utf8_encode_utf8(bytes);
    }
}

/// Each pair of a body counts, however it is written: one with an equals sign
/// sets the field that stands before the first one, and one without sets none.
pub proof fn each_pair_counts(body: Seq<char>, key: Seq<char>, value: Seq<char>)
    requires
        !key.contains('&'),
        !key.contains('='),
        !value.contains('&'),
    ensures
        form::form_fields(body + seq!['&'] + key + seq!['='] + value) == form::form_fields(
            body,
        ).insert(form::url_decoded(key), form::url_decoded(value)),
        form::form_fields(body + seq!['&'] + key) == form::form_fields(body),
{
    let pair = key + seq!['='] + value;
    assert(body + seq!['&'] + key + seq!['='] + value =~= body + seq!['&'] + pair);
    assert forall|i: int| 0 <= i < pair.len() implies #[trigger] pair[i] != '&' by {
        let n = key.len() as int;
        if i < n {
            assert(key.contains(key[i]));
        } else if i > n {
            assert(value.contains(value[i - n - 1]));
            assert(pair[i] == value[i - n - 1]);
        }
    }
    assert forall|i: int| 0 <= i < key.len() implies #[trigger] key[i] != '&' by {
        assert(key.contains(key[i]));
    }
    lemma_split_none(pair, '&');
    lemma_split_none(key, '&');
    lemma_split_concat(body, pair, '&');
    lemma_split_concat(body, key, '&');
    let before = text::split(body, '&');
    assert((before + seq![pair]).drop_last() =~= before);
    assert((before + seq![key]).drop_last() =~= before);
    let n = key.len() as int;
    assert forall|j: int| 0 <= j < n implies pair[j] != '=' by {
        assert(key.contains(key[j]));
    }
    text::lemma_position_is(pair, '=', n);
    assert(pair.take(n) =~= key);
    assert(pair.skip(n + 1) =~= value);
}

/// A field that was sent has its value, and one that was not is empty. A number
/// in it is taken if it can be read and fits, and else the default is.
pub proof fn fields_have_their_values(
    fields: Map<Seq<char>, Seq<char>>,
    key: Seq<char>,
    max: nat,
    default: nat,
)
    ensures
        fields.contains_key(key) ==> form::field(fields, key) == fields[key],
        !fields.contains_key(key) ==> form::field(fields, key) == Seq::<char>::empty(),
        !fields.contains_key(key) ==> form::number_field(fields, key, max, default) == default,
        fields.contains_key(key) ==> form::number_field(fields, key, max, default)
            == match text::parse_unsigned(fields[key], max) {
            Some(n) => n,
            None => default,
        },
{
}

/// The texts of a form are taken as they are, but for an empty name or topic,
/// which gives the default. No text depends on another field.
pub proof fn form_texts_are_taken(fields: Map<Seq<char>, Seq<char>>)
    ensures
        ({
            let c = form::form_config(fields);
            let sent = |key: Seq<char>|
                if fields.contains_key(key) {
                    fields[key]
                } else {
                    Seq::empty()
                };
            &&& c.room == sent("room"@)
            &&& c.wifi_ssid == sent("wifi_ssid"@)
            &&& c.wifi_password == sent("wifi_password"@)
            &&& c.mqtt_server == sent("mqtt_server"@)
            &&& c.mqtt_user == sent("mqtt_user"@)
            &&& c.mqtt_password == sent("mqtt_password"@)
            &&& c.device_name == if sent("device_name"@).len() == 0 {
                "weathernode"@
            } else {
                sent("device_name"@)
            }
            &&& c.mqtt_topic == if sent("mqtt_topic"@).len() == 0 {
                "/data/nodes"@
            } else {
                sent("mqtt_topic"@)
            }
        }),
{
}

/// The numbers of a form are taken if they can be read, and else the default is;
/// a QoS level above 1 is 1. No number depends on another field.
pub proof fn form_numbers_are_taken(fields: Map<Seq<char>, Seq<char>>)
    ensures
        ({
            let c = form::form_config(fields);
            let read = |key: Seq<char>, max: nat|
                if fields.contains_key(key) {
                    text::parse_unsigned(fields[key], max)
                } else {
                    None
                };
            let or = |n: Option<nat>, default: nat|
                match n {
                    Some(n) => n,
                    None => default,
                };
            let qos = or(read("mqtt_qos"@, 255), 0);
            &&& c.mqtt_port == or(read("mqtt_port"@, 65535), 1883)
            &&& c.sleep_minutes == or(read("sleep_minutes"@, 4294967295), 5)
            &&& c.mqtt_qos == if qos > 1 {
                1
            } else {
                qos
            }
            &&& c.sda_pin == or(read("sda_pin"@, 255), 21)
            &&& c.scl_pin == or(read("scl_pin"@, 255), 22)
            &&& c.adc_pin == or(read("adc_pin"@, 255), 33)
            &&& c.bme280_addr == 0x76
        }),
{
}

/// A reading is on exactly if its box was sent, whatever it holds.
pub proof fn sent_boxes_are_on(fields: Map<Seq<char>, Seq<char>>)
    ensures
        form::form_config(fields).send_temperature <==> fields.contains_key("send_temperature"@),
        form::form_config(fields).send_pressure <==> fields.contains_key("send_pressure"@),
        form::form_config(fields).send_humidity <==> fields.contains_key("send_humidity"@),
        form::form_config(fields).send_battery <==> fields.contains_key("send_battery"@),
{
}

/// Bytes that are no UTF-8 are read as std reads them, in a body as in a field.
pub proof fn odd_bytes_are_left_to_std(bytes: Seq<u8>, s: Seq<char>)
    ensures
        !utf8::valid_utf8(bytes) ==> form::text_of(bytes) == form::utf8_lossy(bytes),
        utf8::valid_utf8(bytes) ==> utf8::encode_utf8(form::text_of(bytes)) == bytes,
        form::url_decoded(s) == form::text_of(form::url_bytes(s)),
{
    if utf8::valid_utf8(bytes) {
        utf8::decode_utf8_encode_utf8(bytes);
    }
}

/// A single pair sets its field and nothing else, and an empty body sets none.
pub proof fn single_pair_counts(key: Seq<char>, value: Seq<char>)
    requires
        !key.contains('&'),
        !key.contains('='),
        !value.contains('&'),
    ensures
        form::form_fields(key + seq!['='] + value) == Map::<Seq<char>, Seq<char>>::empty().insert(
            form::url_decoded(key),
            form::url_decoded(value),
        ),
        form::form_fields(key) == Map::<Seq<char>, Seq<char>>::empty(),
        form::form_fields(Seq::empty()) == Map::<Seq<char>, Seq<char>>::empty(),
{
    let pair = key + seq!['='] + value;
    let n = key.len() as int;
    let nothing = Seq::<Seq<char>>::empty();
    assert forall|i: int| 0 <= i < pair.len() implies #[trigger] pair[i] != '&' by {
        if i < n {
            assert(key.contains(key[i]));
        } else if i > n {
            assert(value.contains(value[i - n - 1]));
            assert(pair[i] == value[i - n - 1]);
        }
    }
    assert forall|i: int| 0 <= i < key.len() implies #[trigger] key[i] != '&' by {
        assert(key.contains(key[i]));
    }
    lemma_split_none(pair, '&');
    lemma_split_none(key, '&');
    assert(seq![pair].drop_last() =~= nothing);
    assert(seq![key].drop_last() =~= nothing);
    assert(form::fields_of(nothing) == Map::<Seq<char>, Seq<char>>::empty());
    assert forall|j: int| 0 <= j < n implies pair[j] != '=' by {
        assert(key.contains(key[j]));
    }
    text::lemma_position_is(pair, '=', n);
    assert(pair.take(n) =~= key);
    assert(pair.skip(n + 1) =~= value);
    let empty = Seq::<char>::empty();
    assert(!empty.contains('='));
    assert(text::split(empty, '&') =~= seq![empty]);
    assert(seq![empty].drop_last() =~= nothing);
}

} // verus!
