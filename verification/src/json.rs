//! JSON text: escaping, flat objects, and the proof that what is written can
//! be read back.
use vstd::prelude::*;
use vstd::string::*;

use crate::text;
use crate::text::{decimal_text, push_hex};

verus! {

// ---------------------------------------------------------------------------
// Escaping
// ---------------------------------------------------------------------------

/// Whether `c` is a control character, which JSON admits in no string as it is.
pub open spec fn is_control(c: char) -> bool {
    c < ' '
}

/// Whether `s` has no control character.
pub open spec fn no_controls(s: Seq<char>) -> bool {
    forall|i: int| 0 <= i < s.len() ==> !is_control(#[trigger] s[i])
}

/// What stands for `c` inside a JSON string written by the portal: line ends
/// and tabs have short escapes, every other control character the one with its
/// number.
pub open spec fn json_str_char(c: char) -> Seq<char> {
    if c == '"' {
        seq!['\\', '"']
    } else if c == '\\' {
        seq!['\\', '\\']
    } else if c == '\n' {
        seq!['\\', 'n']
    } else if c == '\r' {
        seq!['\\', 'r']
    } else if c == '\t' {
        seq!['\\', 't']
    } else if is_control(c) {
        seq!['\\', 'u', '0', '0', text::hex_char(c as int / 16), text::hex_char(c as int % 16)]
    } else {
        seq![c]
    }
}

/// What stands for `c` inside a JSON string of the MQTT payload.
pub open spec fn json_escape_char(c: char) -> Seq<char> {
    if c == '"' {
        seq!['\\', '"']
    } else if c == '\\' {
        seq!['\\', '\\']
    } else {
        seq![c]
    }
}

/// `s` with quotes, backslashes and control characters escaped.
pub open spec fn json_str_text(s: Seq<char>) -> Seq<char> {
    text::expand(s, |c: char| json_str_char(c))
}

/// `s` with quotes and backslashes escaped.
pub open spec fn json_escape_text(s: Seq<char>) -> Seq<char> {
    text::expand(s, |c: char| json_escape_char(c))
}

/// Appends what stands for `c` inside a JSON string written by the portal.
fn push_json_char(out: &mut String, c: char)
    ensures
        final(out)@ == old(out)@ + json_str_char(c),
        no_controls(json_str_char(c)),
{
    if c == '"' {
        out.push('\\');
        out.push('"');
    } else if c == '\\' {
        out.push('\\');
        out.push('\\');
    } else if c == '\n' {
        out.push('\\');
        out.push('n');
    } else if c == '\r' {
        out.push('\\');
        out.push('r');
    } else if c == '\t' {
        out.push('\\');
        out.push('t');
    } else if ' ' > c {
        out.push('\\');
        out.push('u');
        out.push('0');
        out.push('0');
        push_hex(out, c as u8);
    } else {
        out.push(c);
    }
    assert(out@ =~= old(out)@ + json_str_char(c));
}

/// Escapes a string for safe embedding inside a JSON string literal.
pub fn json_str(s: &str) -> (r: String)
    ensures
        r@ == json_str_text(s@),
        no_controls(r@),
{
    let mut out = String::new();
    for c in it: s.chars()
        invariant
            it.seq() == s@,
            out@ == json_str_text(s@.take(it.index())),
            no_controls(out@),
    {
        assert(s@.take(it.index() + 1).drop_last() =~= s@.take(it.index()));
        let ghost before = out@;
        push_json_char(&mut out, c);
        assert forall|i: int| 0 <= i < out@.len() implies !is_control(#[trigger] out@[i]) by {
            if i < before.len() {
                assert(!is_control(before[i]));
            } else {
                assert(!is_control(json_str_char(c)[i - before.len()]));
            }
        }
    }
    assert(s@.take(s@.len() as int) =~= s@);
    out
}

/// Escapes `\` and `"`, so that no text can end a JSON string literal early.
pub fn json_escape(s: &str) -> (r: String)
    ensures
        r@ == json_escape_text(s@),
{
    let mut out = String::new();
    for c in it: s.chars()
        invariant
            it.seq() == s@,
            out@ == json_escape_text(s@.take(it.index())),
    {
        assert(s@.take(it.index() + 1).drop_last() =~= s@.take(it.index()));
        let ghost before = out@;
        if c == '"' || c == '\\' {
            out.push('\\');
        }
        out.push(c);
        assert(out@ =~= before + json_escape_char(c));
    }
    assert(s@.take(s@.len() as int) =~= s@);
    out
}

// ---------------------------------------------------------------------------
// Flat objects
// ---------------------------------------------------------------------------

/// `parts` in order, with a comma between neighbours.
pub open spec fn comma_join(parts: Seq<Seq<char>>) -> Seq<char>
    decreases parts.len(),
{
    if parts.len() == 0 {
        Seq::empty()
    } else if parts.len() == 1 {
        parts[0]
    } else {
        comma_join(parts.drop_last()) + seq![','] + parts.last()
    }
}

/// The object made of the given members.
pub open spec fn object_text(parts: Seq<Seq<char>>) -> Seq<char> {
    seq!['{'] + comma_join(parts) + seq!['}']
}

/// A member whose value is a string; `escaped` is the inside of its literal.
pub open spec fn text_member(key: Seq<char>, escaped: Seq<char>) -> Seq<char> {
    seq!['"'] + key + seq!['"', ':', '"'] + escaped + seq!['"']
}

/// A member whose value is written without quotes of its own.
pub open spec fn bare_member(key: Seq<char>, value: Seq<char>) -> Seq<char> {
    seq!['"'] + key + seq!['"', ':'] + value
}

/// The text of a truth value.
pub open spec fn bool_text(b: bool) -> Seq<char> {
    if b {
        "true"@
    } else {
        "false"@
    }
}

/// The texts that a vector of strings holds.
pub open spec fn views(parts: Seq<String>) -> Seq<Seq<char>> {
    parts.map_values(|p: String| p@)
}

/// Writes a member whose value is a string, already escaped.
pub fn write_text_member(key: &str, escaped: &str) -> (r: String)
    ensures
        r@ == text_member(key@, escaped@),
{
    let mut out = String::new();
    out.push('"');
    out.append(key);
    out.push('"');
    out.push(':');
    out.push('"');
    out.append(escaped);
    out.push('"');
    assert(out@ =~= text_member(key@, escaped@));
    out
}

/// Writes a member whose value has no quotes of its own.
pub fn write_bare_member(key: &str, value: &str) -> (r: String)
    ensures
        r@ == bare_member(key@, value@),
{
    let mut out = String::new();
    out.push('"');
    out.append(key);
    out.push('"');
    out.push(':');
    out.append(value);
    assert(out@ =~= bare_member(key@, value@));
    out
}

/// Writes a member whose value is `true` or `false`.
pub fn write_bool_member(key: &str, value: bool) -> (r: String)
    ensures
        r@ == bare_member(key@, bool_text(value)),
{
    write_bare_member(key, if value { "true" } else { "false" })
}

/// Writes a member whose value is a number.
pub fn write_number_member(key: &str, value: u64) -> (r: String)
    ensures
        r@ == bare_member(key@, text::decimal(value as nat)),
{
    write_bare_member(key, decimal_text(value).as_str())
}

/// Writes the object made of the given members.
pub fn write_object(parts: &Vec<String>) -> (r: String)
    ensures
        r@ == object_text(views(parts@)),
{
    let mut out = String::new();
    out.push('{');
    let ghost all = views(parts@);
    for i in 0..parts.len()
        invariant
            all == views(parts@),
            out@ == seq!['{'] + comma_join(all.take(i as int)),
    {
        assert(all.take(i + 1).drop_last() =~= all.take(i as int));
        let ghost before = out@;
        if i > 0 {
            out.push(',');
        }
        out.append(parts[i].as_str());
        assert(out@ =~= seq!['{'] + comma_join(all.take(i + 1)));
    }
    assert(all.take(all.len() as int) =~= all);
    out.push('}');
    assert(out@ =~= object_text(all));
    out
}

// ---------------------------------------------------------------------------
// Replies of the portal
// ---------------------------------------------------------------------------

/// The members of a reply that says whether something worked.
pub open spec fn reply_parts(ok: bool, msg: Seq<char>) -> Seq<Seq<char>> {
    seq![bare_member("ok"@, bool_text(ok)), text_member("msg"@, msg)]
}

/// Writes `{"ok":…,"msg":"…"}`; the message is already escaped.
pub fn write_reply(ok: bool, msg: &str) -> (r: String)
    ensures
        r@ == object_text(reply_parts(ok, msg@)),
{
    let mut parts: Vec<String> = Vec::new();
    parts.push(write_bool_member("ok", ok));
    parts.push(write_text_member("msg", msg));
    assert(views(parts@) =~= reply_parts(ok, msg@));
    write_object(&parts)
}

// ---------------------------------------------------------------------------
// Reading back
// ---------------------------------------------------------------------------

/// The character that a backslash and `e` stand for in JSON, for the escapes
/// of two characters.
pub open spec fn unescape(e: char) -> Option<char> {
    if e == '"' || e == '\\' || e == '/' {
        Some(e)
    } else if e == 'n' {
        Some('\n')
    } else if e == 'r' {
        Some('\r')
    } else if e == 't' {
        Some('\t')
    } else if e == 'b' {
        Some('\x08')
    } else if e == 'f' {
        Some('\x0c')
    } else {
        None
    }
}

/// The value of a hexadecimal digit, upper or lower case.
pub open spec fn hex_digit_value(c: char) -> Option<int> {
    if '0' <= c <= '9' {
        Some(c as int - 0x30)
    } else if 'a' <= c <= 'f' {
        Some(c as int - 0x57)
    } else if 'A' <= c <= 'F' {
        Some(c as int - 0x37)
    } else {
        None
    }
}

/// The character whose number four hexadecimal digits give. Halves of surrogate
/// pairs are no characters.
pub open spec fn numbered_char(a: char, b: char, c: char, d: char) -> Option<char> {
    match (hex_digit_value(a), hex_digit_value(b), hex_digit_value(c), hex_digit_value(d)) {
        (Some(a), Some(b), Some(c), Some(d)) => {
            let n = a * 4096 + b * 256 + c * 16 + d;
            if 0xD800 <= n <= 0xDFFF {
                None
            } else {
                Some(n as char)
            }
        },
        _ => None,
    }
}

/// Reads the escape that `s` begins with: the character that it stands for, and
/// how many characters it takes.
pub open spec fn read_escape(s: Seq<char>) -> Option<(char, int)> {
    if s.len() >= 6 && s[1] == 'u' {
        match numbered_char(s[2], s[3], s[4], s[5]) {
            Some(c) => Some((c, 6)),
            None => None,
        }
    } else if s.len() >= 2 {
        match unescape(s[1]) {
            Some(c) => Some((c, 2)),
            None => None,
        }
    } else {
        None
    }
}

/// Reads the inside of a JSON string literal: what it stands for, and what
/// follows its closing quote.
pub open spec fn read_string(s: Seq<char>) -> Option<(Seq<char>, Seq<char>)>
    decreases s.len(),
{
    if s.len() == 0 {
        None
    } else if s[0] == '"' {
        Some((Seq::empty(), s.skip(1)))
    } else if s[0] == '\\' {
        match read_escape(s) {
            Some((c, n)) => match read_string(s.skip(n)) {
                Some((value, rest)) => Some((seq![c] + value, rest)),
                None => None,
            },
            None => None,
        }
    } else if is_control(s[0]) {
        None
    } else {
        match read_string(s.skip(1)) {
            Some((value, rest)) => Some((seq![s[0]] + value, rest)),
            None => None,
        }
    }
}

/// A value in a flat JSON object.
pub enum JsonValue {
    /// A string, by what it stands for.
    Text(Seq<char>),
    /// A number or truth value, by its text.
    Bare(Seq<char>),
}

/// Whether a value without quotes ends before `c`.
pub open spec fn ends_value(c: char) -> bool {
    c == ',' || c == '}'
}

/// How many characters of `s` precede the end of a value without quotes.
pub open spec fn bare_len(s: Seq<char>) -> int
    decreases s.len(),
{
    if s.len() == 0 || ends_value(s[0]) {
        0
    } else {
        1 + bare_len(s.skip(1))
    }
}

/// Reads one value and gives what follows it.
pub open spec fn read_value(s: Seq<char>) -> Option<(JsonValue, Seq<char>)> {
    if s.len() == 0 {
        None
    } else if s[0] == '"' {
        match read_string(s.skip(1)) {
            Some((value, rest)) => Some((JsonValue::Text(value), rest)),
            None => None,
        }
    } else if bare_len(s) == 0 {
        None
    } else {
        Some((JsonValue::Bare(s.take(bare_len(s))), s.skip(bare_len(s))))
    }
}

/// Reads one member, a name and a value, and gives what follows it.
pub open spec fn read_member(s: Seq<char>) -> Option<((Seq<char>, JsonValue), Seq<char>)> {
    if s.len() == 0 || s[0] != '"' {
        None
    } else {
        match read_string(s.skip(1)) {
            Some((key, rest)) => if rest.len() == 0 || rest[0] != ':' {
                None
            } else {
                match read_value(rest.skip(1)) {
                    Some((value, rest)) => Some(((key, value), rest)),
                    None => None,
                }
            },
            None => None,
        }
    }
}

/// Reads members up to the closing brace, which ends the text. `fuel` bounds
/// their number.
pub open spec fn read_members(s: Seq<char>, fuel: nat) -> Option<Seq<(Seq<char>, JsonValue)>>
    decreases fuel,
{
    if fuel == 0 {
        None
    } else {
        match read_member(s) {
            None => None,
            Some((member, rest)) => if rest =~= seq!['}'] {
                Some(seq![member])
            } else if rest.len() == 0 || rest[0] != ',' {
                None
            } else {
                match read_members(rest.skip(1), (fuel - 1) as nat) {
                    Some(members) => Some(seq![member] + members),
                    None => None,
                }
            },
        }
    }
}

/// Reads a flat JSON object with at least one member: its members, in order.
pub open spec fn read_object(s: Seq<char>) -> Option<Seq<(Seq<char>, JsonValue)>> {
    if s.len() == 0 || s[0] != '{' {
        None
    } else {
        read_members(s.skip(1), s.len())
    }
}

/// Whether `esc` writes `c` so that a JSON reader finds `c` again.
pub open spec fn escapes(esc: Seq<char>, c: char) -> bool {
    ||| esc == seq![c] && c != '"' && c != '\\' && !is_control(c)
    ||| esc.len() > 0 && esc[0] == '\\' && read_escape(esc) == Some((c, esc.len() as int))
}

/// Whether a name is written as itself in JSON.
pub open spec fn is_plain(s: Seq<char>) -> bool {
    forall|i: int|
        0 <= i < s.len() ==> (#[trigger] s[i]) != '"' && s[i] != '\\' && !is_control(s[i])
}

/// Whether a text can stand as a value without quotes.
pub open spec fn is_bare(s: Seq<char>) -> bool {
    &&& s.len() > 0
    &&& s[0] != '"'
    &&& forall|i: int| 0 <= i < s.len() ==> !ends_value(#[trigger] s[i])
}

/// A string literal whose characters are each escaped reads back.
proof fn lemma_escaped_reads_back(
    s: Seq<char>,
    f: spec_fn(char) -> Seq<char>,
    rest: Seq<char>,
)
    requires
        forall|i: int| 0 <= i < s.len() ==> escapes(f(#[trigger] s[i]), s[i]),
    ensures
        read_string(text::expand(s, f) + seq!['"'] + rest) == Some((s, rest)),
    decreases s.len(),
{
    let tail = seq!['"'] + rest;
    let whole = text::expand(s, f) + seq!['"'] + rest;
    assert(whole =~= text::expand(s, f) + tail);
    if s.len() == 0 {
        assert(whole =~= tail);
        assert(whole.skip(1) =~= rest);
        assert(s =~= Seq::<char>::empty());
    } else {
        let c = s[0];
        let t = s.skip(1);
        assert(s =~= seq![c] + t);
        text::lemma_expand_concat(seq![c], t, f);
        text::lemma_expand_one(c, f);
        assert forall|i: int| 0 <= i < t.len() implies escapes(f(#[trigger] t[i]), t[i]) by {
            assert(t[i] == s[i + 1]);
        }
        lemma_escaped_reads_back(t, f, rest);
        assert(escapes(f(s[0]), s[0]));
        let more = text::expand(t, f) + seq!['"'] + rest;
        assert(whole =~= f(c) + more);
        if f(c) == seq![c] && c != '"' && c != '\\' && !is_control(c) {
            assert(whole[0] == c);
            assert(whole.skip(1) =~= more);
        } else {
            assert(read_escape(whole) == read_escape(f(c)));
            assert(whole[0] == '\\');
            assert(whole.skip(f(c).len() as int) =~= more);
        }
    }
}

/// The escape of a control character reads back.
proof fn lemma_control_escape(c: char)
    requires
        is_control(c),
    ensures
        escapes(json_str_char(c), c),
{
    let high = text::hex_char(c as int / 16);
    let low = text::hex_char(c as int % 16);
    assert(hex_digit_value('0') == Some(0int));
    assert(hex_digit_value(high) == Some(c as int / 16));
    assert(hex_digit_value(low) == Some(c as int % 16));
    assert(numbered_char('0', '0', high, low) == Some(c));
}

/// Whatever the portal puts into a JSON string, a reader finds there again,
/// and the string ends where the portal ended it.
pub proof fn json_str_reads_back(s: Seq<char>, rest: Seq<char>)
    ensures
        read_string(json_str_text(s) + seq!['"'] + rest) == Some((s, rest)),
{
    let f = |c: char| json_str_char(c);
    assert forall|i: int| 0 <= i < s.len() implies escapes(f(#[trigger] s[i]), s[i]) by {
        if is_control(s[i]) {
            lemma_control_escape(s[i]);
        }
    }
    lemma_escaped_reads_back(s, f, rest);
}

/// Whatever is put into a JSON string of the payload, a reader finds there
/// again, and no text can end the string early or add a member: for every
/// text without control characters.
pub proof fn json_escape_reads_back(s: Seq<char>, rest: Seq<char>)
    requires
        no_controls(s),
    ensures
        read_string(json_escape_text(s) + seq!['"'] + rest) == Some((s, rest)),
{
    let f = |c: char| json_escape_char(c);
    assert forall|i: int| 0 <= i < s.len() implies escapes(f(#[trigger] s[i]), s[i]) by {}
    lemma_escaped_reads_back(s, f, rest);
}

/// A plain text reads back as itself.
proof fn lemma_plain_reads_back(s: Seq<char>, rest: Seq<char>)
    requires
        is_plain(s),
    ensures
        read_string(s + seq!['"'] + rest) == Some((s, rest)),
{
    let f = |c: char| seq![c];
    lemma_expand_identity(s);
    lemma_escaped_reads_back(s, f, rest);
}

/// Replacing each character by itself changes nothing.
proof fn lemma_expand_identity(s: Seq<char>)
    ensures
        text::expand(s, |c: char| seq![c]) == s,
    decreases s.len(),
{
    if s.len() == 0 {
        assert(s =~= Seq::<char>::empty());
    } else {
        lemma_expand_identity(s.drop_last());
        assert(s =~= s.drop_last() + seq![s.last()]);
    }
}

/// Whether `part` is written so that `member` is read from it, whatever value
/// end follows.
pub open spec fn reads_as(part: Seq<char>, member: (Seq<char>, JsonValue)) -> bool {
    forall|rest: Seq<char>|
        rest.len() > 0 && ends_value(rest[0]) ==> #[trigger] read_member(part + rest) == Some(
            (member, rest),
        )
}

/// A value without quotes ends at the first comma or brace.
proof fn lemma_bare_len(value: Seq<char>, rest: Seq<char>)
    requires
        forall|i: int| 0 <= i < value.len() ==> !ends_value(#[trigger] value[i]),
        rest.len() > 0,
        ends_value(rest[0]),
    ensures
        bare_len(value + rest) == value.len(),
    decreases value.len(),
{
    if value.len() == 0 {
        assert(value + rest =~= rest);
    } else {
        let t = value.skip(1);
        assert forall|i: int| 0 <= i < t.len() implies !ends_value(#[trigger] t[i]) by {
            assert(t[i] == value[i + 1]);
        }
        lemma_bare_len(t, rest);
        assert((value + rest).skip(1) =~= t + rest);
        assert(!ends_value(value[0]));
    }
}

/// A member without quotes reads back.
pub proof fn lemma_bare_member_reads(key: Seq<char>, value: Seq<char>)
    requires
        is_plain(key),
        is_bare(value),
    ensures
        reads_as(bare_member(key, value), (key, JsonValue::Bare(value))),
{
    let part = bare_member(key, value);
    assert forall|rest: Seq<char>| rest.len() > 0 && ends_value(rest[0]) implies
        #[trigger] read_member(part + rest) == Some(((key, JsonValue::Bare(value)), rest)) by {
        let after = seq![':'] + value + rest;
        lemma_plain_reads_back(key, after);
        assert((part + rest).skip(1) =~= key + seq!['"'] + after);
        assert(after.skip(1) =~= value + rest);
        lemma_bare_len(value, rest);
        assert((value + rest).take(value.len() as int) =~= value);
        assert((value + rest).skip(value.len() as int) =~= rest);
        assert((value + rest)[0] == value[0]);
    }
}

/// A member with a string reads back if the inside of its literal does.
proof fn lemma_text_member_reads(key: Seq<char>, escaped: Seq<char>, value: Seq<char>)
    requires
        is_plain(key),
        forall|rest: Seq<char>|
            #[trigger] read_string(escaped + seq!['"'] + rest) == Some((value, rest)),
    ensures
        reads_as(text_member(key, escaped), (key, JsonValue::Text(value))),
{
    let part = text_member(key, escaped);
    assert forall|rest: Seq<char>| rest.len() > 0 && ends_value(rest[0]) implies
        #[trigger] read_member(part + rest) == Some(((key, JsonValue::Text(value)), rest)) by {
        let after = seq![':', '"'] + escaped + seq!['"'] + rest;
        lemma_plain_reads_back(key, after);
        assert((part + rest).skip(1) =~= key + seq!['"'] + after);
        assert(after.skip(1).skip(1) =~= escaped + seq!['"'] + rest);
        assert(after.skip(1)[0] == '"');
    }
}

/// A member escaped with `json_str` reads back.
pub proof fn lemma_json_str_member_reads(key: Seq<char>, value: Seq<char>)
    requires
        is_plain(key),
    ensures
        reads_as(text_member(key, json_str_text(value)), (key, JsonValue::Text(value))),
{
    assert forall|rest: Seq<char>|
        #[trigger] read_string(json_str_text(value) + seq!['"'] + rest) == Some((value, rest)) by {
        json_str_reads_back(value, rest);
    }
    lemma_text_member_reads(key, json_str_text(value), value);
}

/// A member escaped with `json_escape` reads back.
pub proof fn lemma_json_escape_member_reads(key: Seq<char>, value: Seq<char>)
    requires
        is_plain(key),
        no_controls(value),
    ensures
        reads_as(text_member(key, json_escape_text(value)), (key, JsonValue::Text(value))),
{
    assert forall|rest: Seq<char>|
        #[trigger] read_string(json_escape_text(value) + seq!['"'] + rest) == Some(
            (value, rest),
        ) by {
        json_escape_reads_back(value, rest);
    }
    lemma_text_member_reads(key, json_escape_text(value), value);
}

/// A member whose text needs no escape reads back.
pub proof fn lemma_plain_member_reads(key: Seq<char>, value: Seq<char>)
    requires
        is_plain(key),
        is_plain(value),
    ensures
        reads_as(text_member(key, value), (key, JsonValue::Text(value))),
{
    assert forall|rest: Seq<char>|
        #[trigger] read_string(value + seq!['"'] + rest) == Some((value, rest)) by {
        lemma_plain_reads_back(value, rest);
    }
    lemma_text_member_reads(key, value, value);
}

/// The first of several parts stands first in their join.
proof fn lemma_comma_join_first(parts: Seq<Seq<char>>)
    requires
        parts.len() > 1,
    ensures
        comma_join(parts) == parts[0] + seq![','] + comma_join(parts.skip(1)),
    decreases parts.len(),
{
    if parts.len() == 2 {
        assert(comma_join(parts.drop_last()) == parts[0]);
        assert(comma_join(parts.skip(1)) == parts[1]);
    } else {
        lemma_comma_join_first(parts.drop_last());
        assert(parts.drop_last().skip(1) =~= parts.skip(1).drop_last());
        assert(comma_join(parts) =~= parts[0] + seq![','] + comma_join(parts.skip(1)));
    }
}

/// Members that each read back do so together.
proof fn lemma_members_read_back(
    parts: Seq<Seq<char>>,
    members: Seq<(Seq<char>, JsonValue)>,
    fuel: nat,
)
    requires
        parts.len() == members.len(),
        0 < parts.len() <= fuel,
        forall|i: int| 0 <= i < parts.len() ==> reads_as(#[trigger] parts[i], members[i]),
    ensures
        read_members(comma_join(parts) + seq!['}'], fuel) == Some(members),
    decreases parts.len(),
{
    let close = seq!['}'];
    assert(reads_as(parts[0], members[0]));
    if parts.len() == 1 {
        assert(read_member(parts[0] + close) == Some((members[0], close)));
        assert(members =~= seq![members[0]]);
    } else {
        lemma_comma_join_first(parts);
        let tail = comma_join(parts.skip(1)) + close;
        let rest = seq![','] + tail;
        assert(comma_join(parts) + close =~= parts[0] + rest);
        assert(read_member(parts[0] + rest) == Some((members[0], rest)));
        assert(rest.skip(1) =~= tail);
        let parts1 = parts.skip(1);
        let members1 = members.skip(1);
        assert forall|i: int| 0 <= i < parts1.len() implies reads_as(
            #[trigger] parts1[i],
            members1[i],
        ) by {
            assert(parts1[i] == parts[i + 1]);
            assert(members1[i] == members[i + 1]);
        }
        lemma_members_read_back(parts1, members1, (fuel - 1) as nat);
        assert(members =~= seq![members[0]] + members1);
        assert(rest[0] == ',');
    }
}

/// The join is at least as long as the number of parts, if none is empty.
proof fn lemma_comma_join_len(parts: Seq<Seq<char>>)
    requires
        forall|i: int| 0 <= i < parts.len() ==> (#[trigger] parts[i]).len() > 0,
    ensures
        comma_join(parts).len() >= parts.len(),
    decreases parts.len(),
{
    if parts.len() > 1 {
        assert forall|i: int| 0 <= i < parts.len() - 1 implies (
        #[trigger] parts.drop_last()[i]).len() > 0 by {
            assert(parts.drop_last()[i] == parts[i]);
        }
        lemma_comma_join_len(parts.drop_last());
    }
}

/// An object of members that each read back reads back as these members.
pub proof fn lemma_object_reads_back(
    parts: Seq<Seq<char>>,
    members: Seq<(Seq<char>, JsonValue)>,
)
    requires
        parts.len() == members.len(),
        0 < parts.len(),
        forall|i: int| 0 <= i < parts.len() ==> reads_as(#[trigger] parts[i], members[i]),
    ensures
        read_object(object_text(parts)) == Some(members),
{
    let s = object_text(parts);
    let close = seq!['}'];
    assert(s.skip(1) =~= comma_join(parts) + close);
    assert forall|i: int| 0 <= i < parts.len() implies (#[trigger] parts[i]).len() > 0 by {
        assert(reads_as(parts[i], members[i]));
        if parts[i].len() == 0 {
            assert(parts[i] + close =~= close);
            assert(read_member(parts[i] + close) is None);
        }
    }
    lemma_comma_join_len(parts);
    lemma_members_read_back(parts, members, s.len());
}

/// Decimal numbers can stand as values without quotes.
pub proof fn lemma_decimal_is_bare(n: nat)
    ensures
        is_bare(text::decimal(n)),
{
    text::lemma_decimal(n);
    assert(text::is_digit(text::decimal(n)[0]));
}

/// Truth values can stand as values without quotes.
pub proof fn lemma_bool_is_bare(b: bool)
    ensures
        is_bare(bool_text(b)),
{
    reveal_strlit("true");
    reveal_strlit("false");
}

/// The members that a reader finds in a reply.
pub open spec fn reply_members(ok: bool, msg: Seq<char>) -> Seq<(Seq<char>, JsonValue)> {
    seq![("ok"@, JsonValue::Bare(bool_text(ok))), ("msg"@, JsonValue::Text(msg))]
}

/// A reply with an escaped message is an object with exactly the two members
/// `ok` and `msg`, and a reader finds the message in it, whatever it is.
pub proof fn reply_reads_back(ok: bool, msg: Seq<char>)
    ensures
        read_object(object_text(reply_parts(ok, json_str_text(msg)))) == Some(
            reply_members(ok, msg),
        ),
{
    reveal_strlit("ok");
    reveal_strlit("msg");
    lemma_bool_is_bare(ok);
    lemma_bare_member_reads("ok"@, bool_text(ok));
    lemma_json_str_member_reads("msg"@, msg);
    lemma_object_reads_back(reply_parts(ok, json_str_text(msg)), reply_members(ok, msg));
}

/// So does a reply whose message needs no escape.
pub proof fn plain_reply_reads_back(ok: bool, msg: Seq<char>)
    requires
        is_plain(msg),
    ensures
        read_object(object_text(reply_parts(ok, msg))) == Some(reply_members(ok, msg)),
{
    reveal_strlit("ok");
    reveal_strlit("msg");
    lemma_bool_is_bare(ok);
    lemma_bare_member_reads("ok"@, bool_text(ok));
    lemma_plain_member_reads("msg"@, msg);
    lemma_object_reads_back(reply_parts(ok, msg), reply_members(ok, msg));
}

// ---------------------------------------------------------------------------
// What is escaped, and how
// ---------------------------------------------------------------------------

/// Escaping works character by character.
pub proof fn escaping_is_piecewise(a: Seq<char>, b: Seq<char>)
    ensures
        json_str_text(a + b) == json_str_text(a) + json_str_text(b),
        json_escape_text(a + b) == json_escape_text(a) + json_escape_text(b),
{
    text::lemma_expand_concat(a, b, |c: char| json_str_char(c));
    text::lemma_expand_concat(a, b, |c: char| json_escape_char(c));
}

/// The portal escapes quotes, backslashes and control characters, and leaves
/// every other character as it is.
pub proof fn json_str_escapes_what_it_must(c: char)
    ensures
        c != '"' && c != '\\' && c >= ' ' ==> json_str_text(seq![c]) == seq![c],
        c == '"' || c == '\\' ==> json_str_text(seq![c]) == seq!['\\', c],
        c == '\n' ==> json_str_text(seq![c]) == seq!['\\', 'n'],
        c == '\r' ==> json_str_text(seq![c]) == seq!['\\', 'r'],
        c == '\t' ==> json_str_text(seq![c]) == seq!['\\', 't'],
        ' ' > c && c != '\n' && c != '\r' && c != '\t' ==> json_str_text(seq![c])
            == seq!['\\', 'u', '0', '0'] + text::hex_byte(c as u8),
{
    text::lemma_expand_one(c, |c: char| json_str_char(c));
    if ' ' > c {
        assert(seq!['\\', 'u', '0', '0'] + text::hex_byte(c as u8) =~= seq![
            '\\',
            'u',
            '0',
            '0',
            text::hex_char(c as int / 16),
            text::hex_char(c as int % 16),
        ]);
    }
}

/// The payload escapes quotes and backslashes, and leaves every other character
/// as it is.
pub proof fn json_escape_escapes_what_it_must(c: char)
    ensures
        c == '"' || c == '\\' ==> json_escape_text(seq![c]) == seq!['\\', c],
        c != '"' && c != '\\' ==> json_escape_text(seq![c]) == seq![c],
        json_escape_text(Seq::empty()) == Seq::<char>::empty(),
        json_str_text(Seq::empty()) == Seq::<char>::empty(),
{
    text::lemma_expand_one(c, |c: char| json_escape_char(c));
}

/// An object is its members in braces; another member comes after a comma.
pub proof fn object_grows_by_a_comma(parts: Seq<Seq<char>>, part: Seq<char>)
    ensures
        object_text(Seq::empty()) == seq!['{', '}'],
        object_text(seq![part]) == seq!['{'] + part + seq!['}'],
        parts.len() > 0 ==> object_text(parts.push(part)) == object_text(parts).drop_last()
            + seq![','] + part + seq!['}'],
{
    assert(object_text(Seq::empty()) =~= seq!['{', '}']);
    assert(parts.push(part).drop_last() =~= parts);
    if parts.len() > 0 {
        assert(object_text(parts.push(part)) =~= object_text(parts).drop_last() + seq![','] + part
            + seq!['}']);
    }
}

} // verus!
