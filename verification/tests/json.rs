//! JSON texts.
use weathernode::json::{
    json_escape, json_str, write_bare_member, write_bool_member, write_number_member,
    write_object, write_reply, write_text_member,
};

#[test]
fn json_str_escapes_special() {
    assert_eq!(json_str(r#"a"b\c"#), r#"a\"b\\c"#);
}

#[test]
fn json_str_escapes_newline() {
    assert_eq!(json_str("a\nb"), r"a\nb");
}

#[test]
fn json_escape_plain() {
    assert_eq!(json_escape("hello"), "hello");
}

#[test]
fn json_escape_quotes() {
    assert_eq!(json_escape(r#"say "hi""#), r#"say \"hi\""#);
}

#[test]
fn json_escape_backslash() {
    assert_eq!(json_escape(r"path\to"), r"path\\to");
}

#[test]
fn json_escape_both() {
    assert_eq!(json_escape(r#"a\"b"#), r#"a\\\"b"#);
}

#[test]
fn json_str_escapes_line_ends_and_tabs() {
    assert_eq!(json_str("a\r\n\tb"), r"a\r\n\tb");
    assert_eq!(json_str("\u{1}ü"), r"\u0001ü");
    assert_eq!(json_str(""), "");
}

#[test]
fn json_escape_leaves_line_ends() {
    assert_eq!(json_escape("a\nb"), "a\nb");
}

#[test]
fn members_and_objects() {
    assert_eq!(write_text_member("k", "v"), r#""k":"v""#);
    assert_eq!(write_bare_member("k", "1.5"), r#""k":1.5"#);
    assert_eq!(write_bool_member("k", false), r#""k":false"#);
    assert_eq!(write_bool_member("k", true), r#""k":true"#);
    assert_eq!(write_number_member("k", 0), r#""k":0"#);
    assert_eq!(write_number_member("k", u64::MAX), r#""k":18446744073709551615"#);
    let parts = vec![write_bool_member("a", true), write_text_member("b", "x")];
    assert_eq!(write_object(&parts), r#"{"a":true,"b":"x"}"#);
    assert_eq!(write_object(&Vec::new()), "{}");
}

#[test]
fn replies() {
    assert_eq!(write_reply(true, "Gespeichert"), r#"{"ok":true,"msg":"Gespeichert"}"#);
    assert_eq!(
        write_reply(false, &json_str(r#"a"b"#)),
        r#"{"ok":false,"msg":"a\"b"}"#
    );
}

#[test]
fn json_str_leaves_no_control_character() {
    assert_eq!(json_str("\u{0}\u{8}\u{c}\u{1f} \u{7f}"), "\\u0000\\u0008\\u000c\\u001f \u{7f}");
    let all: String = (0u8..128).map(char::from).collect();
    assert!(json_str(&all).chars().all(|c| c >= ' '));
}
