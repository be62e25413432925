//! What the page is told to evaluate when the settings change: the plugin
//! bundle, the user's custom CSS (as a replaced style element) and the
//! user's custom JS.

use vstd::prelude::*;

verus! {

/// Custom-CSS script up to the JSON string literal of the CSS text, which
/// the page evaluates to the CSS text itself.
pub const CUSTOM_CSS_HEAD: &'static str = r#"(function(){
                var el = document.getElementById('ytm-custom-css');
                if (el) el.remove();
                if (!document.head) return;
                el = document.createElement('style');
                el.id = 'ytm-custom-css';
                el.textContent = "#;

/// Custom-CSS script after the JSON string literal of the CSS text.
pub const CUSTOM_CSS_TAIL: &'static str = r#";
                document.head.appendChild(el);
            })();"#;

/// Removes the injected custom style element, if any.
pub const REMOVE_CUSTOM_CSS_SCRIPT: &'static str = "(function(){ var el=document.getElementById('ytm-custom-css'); if(el)el.remove(); })();";

pub open spec fn lower_hex_digit(d: u32) -> char {
    seq!['0', '1', '2', '3', '4', '5', '6', '7', '8', '9', 'a', 'b', 'c', 'd', 'e', 'f'][d as int]
}

/// How one character stands inside a JSON string literal: the quote, the
/// backslash and the control characters below U+0020 are escaped (the
/// latter as `\b \t \n \f \r` where those exist, else as `\u00xx`
/// with lower-case hex); every other character stands for itself.
pub open spec fn json_char(c: char) -> Seq<char> {
    if c == '"' {
        seq!['\\', '"']
    } else if c == '\\' {
        seq!['\\', '\\']
    } else if c == '\u{8}' {
        seq!['\\', 'b']
    } else if c == '\t' {
        seq!['\\', 't']
    } else if c == '\n' {
        seq!['\\', 'n']
    } else if c == '\u{c}' {
        seq!['\\', 'f']
    } else if c == '\r' {
        seq!['\\', 'r']
    } else if (c as u32) < 0x20 {
        seq!['\\', 'u', '0', '0', lower_hex_digit(c as u32 / 16), lower_hex_digit(c as u32 % 16)]
    } else {
        seq![c]
    }
}

/// The characters of `s`, each as it stands inside a JSON string literal.
pub open spec fn json_escaped(s: Seq<char>) -> Seq<char>
    decreases s.len(),
{
    if s.len() == 0 {
        Seq::empty()
    } else {
        json_escaped(s.drop_last()) + json_char(s.last())
    }
}

/// The JSON string literal for a text: quoted, with escapes.
pub open spec fn json_string_literal(s: Seq<char>) -> Seq<char> {
    seq!['"'] + json_escaped(s) + seq!['"']
}

/// Relies on serde_json::to_string on a `str`: it writes into a `Vec`, which
/// cannot fail, the quoted text with serde_json's escape table (quote,
/// backslash, and bytes below 0x20 as `\b \t \n \f \r` or `\u00xx`).
#[verifier::external_body]
fn quote_json(s: &str) -> (r: Option<String>)
    ensures
        r is Some,
        r matches Some(t) ==> t@ == json_string_literal(s@),
{
    serde_json::to_string(s).ok()
}

/// The script that replaces the custom style element with one holding
/// the CSS whose JSON string literal is `quoted`.
pub open spec fn style_text(quoted: Seq<char>) -> Seq<char> {
    CUSTOM_CSS_HEAD@ + quoted + CUSTOM_CSS_TAIL@
}

/// The style-replacing script for CSS already written as a JSON string
/// literal.
pub fn style_script(quoted: &str) -> (r: String)
    ensures
        r@ == style_text(quoted@),
{
    let mut r = String::from_str(CUSTOM_CSS_HEAD);
    r.append(quoted);
    r.append(CUSTOM_CSS_TAIL);
    r
}

/// The script that applies `css`: empty CSS removes the style element;
/// otherwise the element is replaced by one holding `css`, carried as a
/// JSON string literal.
pub fn custom_css_script(css: &str) -> (r: String)
    ensures
        css@.len() == 0 ==> r@ == REMOVE_CUSTOM_CSS_SCRIPT@,
        css@.len() > 0 ==> r@ == style_text(json_string_literal(css@)),
{
    if css.is_empty() {
        return String::from_str(REMOVE_CUSTOM_CSS_SCRIPT);
    }
    let quoted = quote_json(css).unwrap();
    style_script(quoted.as_str())
}

/// The scripts to evaluate after a settings change, in order: the plugin
/// bundle (when non-empty), the custom-CSS script, then the custom JS
/// (when non-empty).
pub open spec fn reapply_order(
    bundle: Seq<char>,
    css_script: Seq<char>,
    custom_js: Seq<char>,
) -> Seq<Seq<char>> {
    (if bundle.len() > 0 {
        seq![bundle]
    } else {
        Seq::empty()
    }) + seq![css_script] + (if custom_js.len() > 0 {
        seq![custom_js]
    } else {
        Seq::empty()
    })
}

/// Lists, in evaluation order, what a settings change re-applies to the
/// live page.
pub fn settings_change_scripts(bundle: String, css_script: String, custom_js: String) -> (r: Vec<
    String,
>)
    ensures
        r@.map_values(|s: String| s@) == reapply_order(bundle@, css_script@, custom_js@),
{
    let ghost (b, c, j) = (bundle@, css_script@, custom_js@);
    let mut r: Vec<String> = Vec::new();
    if !bundle.as_str().is_empty() {
        r.push(bundle);
    }
    r.push(css_script);
    if !custom_js.as_str().is_empty() {
        r.push(custom_js);
    }
    assert(r@.map_values(|s: String| s@) =~= reapply_order(b, c, j));
    r
}

} // verus!
