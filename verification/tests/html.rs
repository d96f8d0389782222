//! HTML texts.
use weathernode::html::{format_save_error, html_escape, SAVE_ERROR_HEAD, SAVE_ERROR_TAIL};

#[test]
fn html_escape_entities() {
    assert_eq!(html_escape("<b>&\"x\"</b>"), "&lt;b>&amp;\"x\"&lt;/b>");
}

#[test]
fn html_escape_escapes_references() {
    assert_eq!(html_escape("&lt;"), "&amp;lt;");
    assert_eq!(html_escape(""), "");
    assert_eq!(html_escape("ä"), "ä");
}

#[test]
fn save_error_page_shows_the_message() {
    let page = format_save_error("pins <1> & 2");
    assert_eq!(
        page,
        format!("{}pins &lt;1> &amp; 2{}", SAVE_ERROR_HEAD, SAVE_ERROR_TAIL)
    );
    assert!(page.starts_with("<!DOCTYPE html><html><head>\n<meta charset=\"utf-8\">"));
    assert!(page.contains("body{font-family:"));
    assert!(page.contains("<p>pins &lt;1> &amp; 2</p>\n<a href=\"/\">"));
    assert!(page.ends_with("</div></body></html>"));
}
