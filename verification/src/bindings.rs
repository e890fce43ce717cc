//! Contracts for the functions of other crates, and of the standard
//! library, that the library calls.
//!
//! Nothing in this file is proved. Each item says what the library assumes
//! of the function it names.

use vstd::prelude::*;
use crate::template::has_partial;

verus! {

/// Appends one character to a string.
///
/// Trusted: wraps `String::push`, which appends the given `char` to the end
/// of the string.
#[verifier::external_body]
pub(crate) fn push_char(s: &mut String, c: char)
    ensures
        final(s)@ == old(s)@.push(c),
{
    s.push(c)
}

/// The error of `http::header::HeaderName::from_bytes`.
#[verifier::external_type_specification]
#[verifier::external_body]
pub struct ExInvalidHeaderName(http::header::InvalidHeaderName);

/// The error of `http::header::HeaderValue::from_bytes`.
#[verifier::external_type_specification]
#[verifier::external_body]
pub struct ExInvalidHeaderValue(http::header::InvalidHeaderValue);

/// The error of `url::Url::parse`.
#[verifier::external_type_specification]
#[verifier::external_body]
pub struct ExUrlParseError(url::ParseError);

/// A byte that may stand in a header's name: a letter, a digit, or one of
/// ``!#$%&'*+-.^_`|~``.
pub open spec fn is_header_name_byte(b: u8) -> bool {
    ||| 0x61 <= b <= 0x7a
    ||| 0x41 <= b <= 0x5a
    ||| 0x30 <= b <= 0x39
    ||| b == 0x21
    ||| 0x23 <= b <= 0x27
    ||| b == 0x2a
    ||| b == 0x2b
    ||| b == 0x2d
    ||| b == 0x2e
    ||| 0x5e <= b <= 0x60
    ||| b == 0x7c
    ||| b == 0x7e
}

/// The lower-case form of an ASCII letter; any other byte is unchanged.
pub open spec fn lower_byte(b: u8) -> u8 {
    if 0x41 <= b <= 0x5a {
        (b + 0x20) as u8
    } else {
        b
    }
}

/// The names that `http` accepts: between 1 and 65535 name bytes.
pub open spec fn is_header_name(bytes: Seq<u8>) -> bool {
    &&& 0 < bytes.len() <= 65535
    &&& forall|i: int| 0 <= i < bytes.len() ==> is_header_name_byte(#[trigger] bytes[i])
}

/// The form in which `http` keeps a name: its letters in lower case.
pub open spec fn lowered_header_name(bytes: Seq<u8>) -> Seq<char> {
    Seq::new(bytes.len(), |i: int| lower_byte(bytes[i]) as char)
}

/// A byte that may stand in a header's value: a tab, or anything from the
/// space upwards but DEL.
pub open spec fn is_header_value_byte(b: u8) -> bool {
    (b >= 32 && b != 127) || b == 9
}

/// The values that `http` accepts.
pub open spec fn is_header_value(bytes: Seq<u8>) -> bool {
    forall|i: int| 0 <= i < bytes.len() ==> is_header_value_byte(#[trigger] bytes[i])
}

/// Checks and normalises a header's name.
///
/// Trusted: wraps `http::header::HeaderName::from_bytes`. It fails on an
/// empty name, on one of more than 65535 bytes and on one that holds a byte
/// outside its table of name characters; otherwise the name it returns reads,
/// through `as_str`, as the input with its upper-case letters lowered.
#[verifier::external_body]
pub(crate) fn header_name_from_bytes(bytes: &[u8]) -> (r: Result<
    String,
    http::header::InvalidHeaderName,
>)
    ensures
        r is Ok <==> is_header_name(bytes@),
        r matches Ok(name) ==> name@ == lowered_header_name(bytes@),
{
    http::header::HeaderName::from_bytes(bytes).map(|name| name.as_str().to_owned())
}

/// Checks a header's value.
///
/// Trusted: wraps `http::header::HeaderValue::from_bytes`, which fails
/// exactly when some byte is below 32 and no tab, or is 127.
#[verifier::external_body]
pub(crate) fn header_value_from_bytes(bytes: &[u8]) -> (r: Result<
    (),
    http::header::InvalidHeaderValue,
>)
    ensures
        r is Ok <==> is_header_value(bytes@),
{
    http::header::HeaderValue::from_bytes(bytes).map(|_| ())
}

/// The text of the absolute URL that `input` parses to, or `None` where
/// `input` is not an absolute URL. This is the result of `url::Url::parse`,
/// read through `String::from`.
pub uninterp spec fn url_parsed(input: Seq<char>) -> Option<Seq<char>>;

/// Parses an absolute URL and returns it in its normal form.
///
/// Trusted: wraps `url::Url::parse`, whose result depends on `input` alone.
#[verifier::external_body]
pub(crate) fn parse_url(input: &str) -> (r: Result<String, url::ParseError>)
    ensures
        match r {
            Ok(u) => url_parsed(input@) == Some(u@),
            Err(_) => url_parsed(input@) is None,
        },
{
    url::Url::parse(input).map(String::from)
}

/// A JSON value of `serde_json`. The library hands such values on and never
/// looks inside one.
#[verifier::external_type_specification]
#[verifier::external_body]
pub struct ExJsonValue(serde_json::Value);

/// The error of `serde_json::from_str` and `serde_json::to_string_pretty`.
#[verifier::external_type_specification]
#[verifier::external_body]
pub struct ExJsonError(serde_json::Error);

/// The error of `handlebars::Handlebars::render_template`.
#[verifier::external_type_specification]
#[verifier::external_body]
pub struct ExRenderError(handlebars::RenderError);

/// The document that a JSON value holds, written as compact JSON text.
pub uninterp spec fn json_text(value: serde_json::Value) -> Seq<char>;

/// The document that `text` holds, or `None` where `text` is not one JSON
/// document. This is the result of `serde_json::from_str`.
pub uninterp spec fn json_document(text: Seq<char>) -> Option<Seq<char>>;

/// The document `doc` laid out over several indented lines, or `None` where
/// it cannot be written. This is the result of
/// `serde_json::to_string_pretty`.
pub uninterp spec fn json_pretty(doc: Seq<char>) -> Option<Seq<char>>;

/// The object `doc` with its member `key` set to the string `val`. This is
/// the effect of assigning through `serde_json::Value`'s index operator.
pub uninterp spec fn json_with_text(doc: Seq<char>, key: Seq<char>, val: Seq<char>) -> Seq<char>;

/// What `template` renders to when its placeholders are filled from the
/// document `context`, or `None` where it cannot be rendered, as when a
/// placeholder is malformed. This is the result of
/// `handlebars::Handlebars::render_template` on a registry that holds no
/// templates or helpers of its own and writes values as they are, without
/// escaping. It is used of templates without partial tags only.
pub uninterp spec fn rendered(template: Seq<char>, context: Seq<char>) -> Option<Seq<char>>;

/// Whether a compact JSON text is that of an object: only an object's text
/// starts with an opening brace.
pub open spec fn is_object_text(doc: Seq<char>) -> bool {
    doc.len() > 0 && doc[0] == '{'
}

/// The compact text of the object without members.
pub open spec fn empty_object_text() -> Seq<char> {
    seq!['{', '}']
}

/// Reads a JSON document.
///
/// Trusted: wraps `serde_json::from_str`, which reads the whole text as one
/// value or fails; what it returns depends on the text alone.
#[verifier::external_body]
pub(crate) fn json_from_str(text: &str) -> (r: Result<serde_json::Value, serde_json::Error>)
    ensures
        match r {
            Ok(value) => json_document(text@) == Some(json_text(value)),
            Err(_) => json_document(text@) is None,
        },
{
    serde_json::from_str::<serde_json::Value>(text)
}

/// Writes a JSON value over several indented lines.
///
/// Trusted: wraps `serde_json::to_string_pretty`, whose result depends on
/// the value alone.
#[verifier::external_body]
pub(crate) fn json_to_string_pretty(value: &serde_json::Value) -> (r: Result<
    String,
    serde_json::Error,
>)
    ensures
        match r {
            Ok(text) => json_pretty(json_text(*value)) == Some(text@),
            Err(_) => json_pretty(json_text(*value)) is None,
        },
{
    serde_json::to_string_pretty(value)
}

/// Tells whether a JSON value is an object.
///
/// Trusted: wraps `serde_json::Value::is_object`.
#[verifier::external_body]
pub(crate) fn json_is_object(value: &serde_json::Value) -> (r: bool)
    ensures
        r == is_object_text(json_text(*value)),
{
    value.is_object()
}

/// The JSON object without members.
///
/// Trusted: wraps `serde_json::Map::new`.
#[verifier::external_body]
pub(crate) fn json_empty_object() -> (value: serde_json::Value)
    ensures
        json_text(value) == empty_object_text(),
{
    serde_json::Value::Object(serde_json::Map::new())
}

/// Sets the member `key` of a JSON object to the string `val`.
///
/// Trusted: wraps the index operator of `serde_json::Value`, which adds the
/// member to an object or replaces the one it has, and panics on a value
/// that is neither an object nor null.
#[verifier::external_body]
pub(crate) fn json_set_text(value: &mut serde_json::Value, key: &str, val: &str)
    requires
        is_object_text(json_text(*old(value))),
    ensures
        json_text(*final(value)) == json_with_text(json_text(*old(value)), key@, val@),
        is_object_text(json_text(*final(value))),
{
    value[key] = serde_json::Value::String(val.to_owned());
}

/// Renders a template against a JSON value.
///
/// Trusted: wraps `handlebars::Handlebars::render_template` on a new
/// registry whose escape function is `handlebars::no_escape`; what it
/// returns depends on the template and the value alone. A template with a
/// partial tag is left out: a partial that is defined in the template can
/// include itself, and rendering it does not end.
#[verifier::external_body]
pub(crate) fn render_template(template: &str, context: &serde_json::Value) -> (r: Result<
    String,
    handlebars::RenderError,
>)
    requires
        !has_partial(template@),
    ensures
        match r {
            Ok(text) => rendered(template@, json_text(*context)) == Some(text@),
            Err(_) => rendered(template@, json_text(*context)) is None,
        },
{
    let mut registry = handlebars::Handlebars::new();
    registry.register_escape_fn(handlebars::no_escape);
    registry.render_template(template, context)
}

} // verus!
