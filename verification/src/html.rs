//! HTML text of the portal.
use vstd::prelude::*;
use vstd::string::*;

use crate::text;

verus! {

/// What stands for `c` in HTML text content.
pub open spec fn html_char(c: char) -> Seq<char> {
    if c == '&' {
        "&amp;"@
    } else if c == '<' {
        "&lt;"@
    } else {
        seq![c]
    }
}

/// `s` with ampersands and opening angle brackets escaped.
pub open spec fn html_text(s: Seq<char>) -> Seq<char> {
    text::expand(s, |c: char| html_char(c))
}

/// Escapes a string for safe embedding inside HTML text content.
pub fn html_escape(s: &str) -> (r: String)
    ensures
        r@ == html_text(s@),
{
    let mut out = String::new();
    for c in it: s.chars()
        invariant
            it.seq() == s@,
            out@ == html_text(s@.take(it.index())),
    {
        assert(s@.take(it.index() + 1).drop_last() =~= s@.take(it.index()));
        let ghost before = out@;
        if c == '&' {
            out.append("&amp;");
        } else if c == '<' {
            out.append("&lt;");
        } else {
            out.push(c);
        }
        assert(out@ =~= before + html_char(c));
    }
    assert(s@.take(s@.len() as int) =~= s@);
    out
}

/// The page that reports a rejected form, up to the message.
pub const SAVE_ERROR_HEAD: &'static str = r#"<!DOCTYPE html><html><head>
<meta charset="utf-8"><meta name="viewport" content="width=device-width,initial-scale=1">
<title>Fehler</title>
<style>
body{font-family:-apple-system,BlinkMacSystemFont,'Segoe UI',sans-serif;background:#eef2f7;padding:1.2rem}
.card{background:#fff;border-radius:12px;box-shadow:0 2px 16px rgba(0,0,0,.1);
       max-width:480px;margin:2rem auto;padding:2rem;text-align:center}
.icon{font-size:2.8rem;color:#c0392b;margin-bottom:.6rem}
h2{color:#c0392b;font-size:1.1rem;margin-bottom:.7rem}
p{color:#555;line-height:1.6;font-size:.92rem;word-break:break-word}
a{display:inline-block;margin-top:1rem;padding:.4rem 1.2rem;background:#1558a8;
   color:#fff;text-decoration:none;border-radius:6px;font-size:.9rem}
</style></head>
<body><div class="card">
<div class="icon">&#9888;</div>
<h2>Ung&uuml;ltige Konfiguration</h2>
<p>"#;

/// The page that reports a rejected form, after the message.
pub const SAVE_ERROR_TAIL: &'static str = r#"</p>
<a href="/">&#8592; Zur&uuml;ck</a>
</div></body></html>"#;

/// The page that reports a rejected form.
pub open spec fn save_error_page(msg: Seq<char>) -> Seq<char> {
    SAVE_ERROR_HEAD@ + html_text(msg) + SAVE_ERROR_TAIL@
}

/// Builds an HTML error page for a form that was rejected.
pub fn format_save_error(msg: &str) -> (r: String)
    ensures
        r@ == save_error_page(msg@),
{
    let mut out = SAVE_ERROR_HEAD.to_string();
    out.append(html_escape(msg).as_str());
    out.append(SAVE_ERROR_TAIL);
    out
}

/// The page that says that a form was taken and that the node restarts.
pub const FORM_TAKEN_PAGE: &'static str = r#"<!DOCTYPE html>
<html><head>
<meta charset="utf-8">
<meta name="viewport" content="width=device-width,initial-scale=1">
<title>Gespeichert</title>
<style>
  body{font-family:-apple-system,BlinkMacSystemFont,'Segoe UI',sans-serif;
       background:#eef2f7;min-height:100vh;padding:1.2rem}
  .card{background:#fff;border-radius:12px;
        box-shadow:0 2px 16px rgba(0,0,0,.1);
        max-width:480px;margin:2rem auto;padding:2rem;text-align:center}
  .icon{font-size:2.8rem;color:#1c7a42;margin-bottom:.6rem}
  h2{color:#1c7a42;font-size:1.2rem;margin-bottom:.7rem}
  p{color:#555;line-height:1.6;font-size:.95rem}
</style>
</head>
<body>
<div class="card">
  <div class="icon">&#10003;</div>
  <h2>Konfiguration gespeichert</h2>
  <p>Das Ger&auml;t startet jetzt neu und verbindet sich mit dem konfigurierten WLAN.</p>
</div>
</body></html>"#;

// ---------------------------------------------------------------------------
// Laws
// ---------------------------------------------------------------------------

/// HTML text content without tags, with the references `&amp;` and `&lt;`
/// replaced by what they refer to.
pub open spec fn shown(s: Seq<char>) -> Seq<char>
    decreases s.len(),
{
    if s.len() == 0 {
        Seq::empty()
    } else if s.len() >= 5 && s.take(5) == "&amp;"@ {
        seq!['&'] + shown(s.skip(5))
    } else if s.len() >= 4 && s.take(4) == "&lt;"@ {
        seq!['<'] + shown(s.skip(4))
    } else {
        seq![s[0]] + shown(s.skip(1))
    }
}

/// Escaped text opens no tag.
pub proof fn escaped_text_opens_no_tag(s: Seq<char>)
    ensures
        !html_text(s).contains('<'),
    decreases s.len(),
{
    if s.len() > 0 {
        escaped_text_opens_no_tag(s.drop_last());
        let init = html_text(s.drop_last());
        let last = html_char(s.last());
        reveal_strlit("&amp;");
        reveal_strlit("&lt;");
        assert forall|i: int| 0 <= i < html_text(s).len() implies html_text(s)[i] != '<' by {
            if i < init.len() {
                assert(init.contains(init[i]));
            } else {
                assert(html_text(s)[i] == last[i - init.len()]);
            }
        }
    }
}

/// Escaped text refers to the text that was escaped.
pub proof fn escaped_text_is_shown(s: Seq<char>)
    ensures
        shown(html_text(s)) == s,
    decreases s.len(),
{
    let f = |c: char| html_char(c);
    if s.len() == 0 {
        assert(s =~= Seq::<char>::empty());
    } else {
        let c = s[0];
        let t = s.skip(1);
        let rest = html_text(t);
        assert(s =~= seq![c] + t);
        text::lemma_expand_concat(seq![c], t, f);
        text::lemma_expand_one(c, f);
        escaped_text_is_shown(t);
        reveal_strlit("&amp;");
        reveal_strlit("&lt;");
        let whole = html_text(s);
        assert(whole =~= html_char(c) + rest);
        assert("&amp;"@[1] == 'a' && "&lt;"@[1] == 'l');
        if c == '&' {
            assert(whole.take(5) =~= "&amp;"@);
            assert(whole.skip(5) =~= rest);
        } else if c == '<' {
            assert(whole.take(4) =~= "&lt;"@);
            assert(whole.skip(4) =~= rest);
            if whole.len() >= 5 {
                assert(whole.take(5)[1] == 'l');
            }
        } else {
            assert(whole[0] == c);
            if whole.len() >= 5 {
                assert(whole.take(5)[0] == c);
            }
            if whole.len() >= 4 {
                assert(whole.take(4)[0] == c);
            }
            assert(whole.skip(1) =~= rest);
        }
    }
}

/// Escaping works character by character: it changes ampersands and opening
/// angle brackets, and leaves every other character as it is.
pub proof fn html_escapes_what_it_must(a: Seq<char>, c: char)
    ensures
        html_text(Seq::empty()) == Seq::<char>::empty(),
        html_text(a.push(c)) == html_text(a) + if c == '&' {
            "&amp;"@
        } else if c == '<' {
            "&lt;"@
        } else {
            seq![c]
        },
{
    assert(a.push(c).drop_last() =~= a);
}

/// The page that reports a rejected form is the same for every message but for
/// the message, which stands there once, escaped.
pub proof fn error_pages_differ_in_the_message(a: Seq<char>, b: Seq<char>)
    ensures
        ({
            let n = SAVE_ERROR_HEAD@.len() as int;
            let page = save_error_page(a);
            let m = page.len() - SAVE_ERROR_TAIL@.len();
            &&& n <= m
            &&& page.take(n) == save_error_page(b).take(n)
            &&& page.take(n) == SAVE_ERROR_HEAD@
            &&& page.skip(m) == SAVE_ERROR_TAIL@
            &&& shown(page.subrange(n, m)) == a
            &&& !page.subrange(n, m).contains('<')
        }),
{
    let n = SAVE_ERROR_HEAD@.len() as int;
    let page = save_error_page(a);
    let m = page.len() - SAVE_ERROR_TAIL@.len();
    assert(page.take(n) =~= SAVE_ERROR_HEAD@);
    assert(save_error_page(b).take(n) =~= SAVE_ERROR_HEAD@);
    assert(page.skip(m) =~= SAVE_ERROR_TAIL@);
    assert(page.subrange(n, m) =~= html_text(a));
    escaped_text_is_shown(a);
    escaped_text_opens_no_tag(a);
}

} // verus!
