//! Text building blocks.
use weathernode::text::{
    decimal_text, parse_number, push_hex, replaced, split_on, split_once_on,
};

#[test]
fn replacing_characters() {
    assert_eq!(replaced("a+b+", '+', ' '), "a b ");
    assert_eq!(replaced("äöä", 'ä', 'a'), "aöa");
    assert_eq!(replaced("", 'a', 'b'), "");
}

#[test]
fn splitting() {
    assert_eq!(split_on("a&b&&c", '&'), vec!["a", "b", "", "c"]);
    assert_eq!(split_on("", '&'), vec![""]);
    assert_eq!(split_on("&", '&'), vec!["", ""]);
}

#[test]
fn splitting_once() {
    assert_eq!(
        split_once_on("a=b=c", '='),
        Some(("a".to_string(), "b=c".to_string()))
    );
    assert_eq!(split_once_on("abc", '='), None);
    assert_eq!(split_once_on("=", '='), Some((String::new(), String::new())));
    assert_eq!(
        split_once_on("ü=日", '='),
        Some(("ü".to_string(), "日".to_string()))
    );
}

#[test]
fn decimals() {
    assert_eq!(decimal_text(0), "0");
    assert_eq!(decimal_text(1883), "1883");
    assert_eq!(decimal_text(u64::MAX), "18446744073709551615");
}

#[test]
fn parsing_numbers() {
    assert_eq!(parse_number("0", 255), Some(0));
    assert_eq!(parse_number("255", 255), Some(255));
    assert_eq!(parse_number("256", 255), None);
    assert_eq!(parse_number("+7", 255), Some(7));
    assert_eq!(parse_number("007", 255), Some(7));
    assert_eq!(parse_number("", 255), None);
    assert_eq!(parse_number("+", 255), None);
    assert_eq!(parse_number("++7", 255), None);
    assert_eq!(parse_number("-7", 255), None);
    assert_eq!(parse_number(" 7", 255), None);
    assert_eq!(parse_number("7x", 255), None);
    assert_eq!(parse_number("٧", 255), None);
    assert_eq!(parse_number("99999999999999999999999999", u64::MAX), None);
    assert_eq!(parse_number("18446744073709551615", u64::MAX), Some(u64::MAX));
    assert_eq!(parse_number("18446744073709551616", u64::MAX), None);
}

#[test]
fn numbers_read_back() {
    for n in [0u64, 9, 10, 99, 65535, 4294967295] {
        assert_eq!(parse_number(&decimal_text(n), 4294967295), Some(n));
    }
}

#[test]
fn hexadecimal_bytes() {
    let mut s = String::new();
    push_hex(&mut s, 0x00);
    push_hex(&mut s, 0xa1);
    push_hex(&mut s, 0xff);
    push_hex(&mut s, 0x0b);
    assert_eq!(s, "00a1ff0b");
}
