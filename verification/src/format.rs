//! Formatting a response for display.

use vstd::prelude::*;
use crate::bindings::{
    json_document, json_from_str, json_pretty, json_to_string_pretty, push_char,
};
use crate::text::{
    chars_of, decimal, first_at, lemma_first_at_is, lowered, pairs_view, push_decimal,
    reads_lowered,
};

verus! {

/// A response: the status code, the headers in the order in which they
/// came, and the body as text.
#[derive(Debug)]
pub struct Response {
    pub status: u16,
    pub headers: Vec<(String, String)>,
    pub body: String,
}

/// How the body of a response is laid out.
#[derive(Clone, Copy, Debug, PartialEq, Eq, Structural)]
pub enum ContentType {
    /// Re-written as indented JSON, where it is JSON.
    Json,
    /// Passed through unchanged.
    Unknown,
}

/// The header name `content-type`.
pub open spec fn content_type_name() -> Seq<char> {
    seq!['c', 'o', 'n', 't', 'e', 'n', 't', '-', 't', 'y', 'p', 'e']
}

/// The media type `application/json`.
pub open spec fn json_media_type() -> Seq<char> {
    seq!['a', 'p', 'p', 'l', 'i', 'c', 'a', 't', 'i', 'o', 'n', '/', 'j', 's', 'o', 'n']
}

/// Whether a header is the content type header, in whatever case its name
/// is written.
pub open spec fn is_content_type(header: (Seq<char>, Seq<char>)) -> bool {
    lowered(header.0) == content_type_name()
}

/// The media type that a content type header names: its value up to the
/// first semicolon, in lower case.
pub open spec fn media_type(value: Seq<char>) -> Seq<char> {
    lowered(value.subrange(0, first_at(value, 0, |c: char| c == ';')))
}

/// How the body is laid out under these headers: as JSON where the first
/// content type header names exactly `application/json`, unchanged where it
/// names anything else or where there is none.
pub open spec fn content_type_of(headers: Seq<(Seq<char>, Seq<char>)>) -> ContentType {
    let at = first_at(headers, 0, |h: (Seq<char>, Seq<char>)| is_content_type(h));
    if at < headers.len() && media_type(headers[at].1) == json_media_type() {
        ContentType::Json
    } else {
        ContentType::Unknown
    }
}

/// A text written as indented JSON, where it is JSON and can be written
/// so.
pub open spec fn indented(text: Seq<char>) -> Option<Seq<char>> {
    match json_document(text) {
        None => None,
        Some(doc) => json_pretty(doc),
    }
}

/// The body as indented JSON, where it has such a form and the form is
/// stable: written as indented JSON once more, it stays as it is.
pub open spec fn pretty_body(body: Seq<char>) -> Option<Seq<char>> {
    match indented(body) {
        None => None,
        Some(text) => if indented(text) == Some(text) {
            Some(text)
        } else {
            None
        },
    }
}

/// The body as it is shown, given its stable form as indented JSON. A body
/// that is laid out as JSON and has no such form is shown as it came.
pub open spec fn shown_body(content_type: ContentType, body: Seq<char>, pretty: Option<Seq<char>>)
    -> Seq<char> {
    match content_type {
        ContentType::Unknown => body,
        ContentType::Json => match pretty {
            None => body,
            Some(text) => text,
        },
    }
}

/// The body as it is shown. A body that is laid out as JSON is shown in its
/// stable indented form. Where it has none, because it is no JSON or
/// because its indented form would change if it were laid out again, it is
/// shown as it came.
pub open spec fn formatted_body(content_type: ContentType, body: Seq<char>) -> Seq<char> {
    shown_body(content_type, body, pretty_body(body))
}

/// The headers as lines `name: value`, each ended by a line feed.
pub open spec fn header_lines(headers: Seq<(Seq<char>, Seq<char>)>) -> Seq<char>
    decreases headers.len(),
{
    if headers.len() == 0 {
        Seq::empty()
    } else {
        header_lines(headers.drop_last()) + headers.last().0 + seq![':', ' '] + headers.last().1
            + seq!['\n']
    }
}

/// A response, as plain values.
pub struct Reply {
    pub status: u16,
    pub headers: Seq<(Seq<char>, Seq<char>)>,
    pub body: Seq<char>,
}

impl View for Response {
    type V = Reply;

    open spec fn view(&self) -> Reply {
        Reply { status: self.status, headers: pairs_view(self.headers@), body: self.body@ }
    }
}

/// The status line, the header lines and one empty line: what stands
/// before the body where more than the body is shown.
pub open spec fn head(status: u16, headers: Seq<(Seq<char>, Seq<char>)>) -> Seq<char> {
    decimal(status as nat) + seq!['\n'] + header_lines(headers) + seq!['\n']
}

/// What is shown of a response, given the form of its body as indented
/// JSON. In raw mode that is the body alone. Otherwise it is the status
/// line, the header lines, one empty line and the body, whether or not there
/// are headers.
pub open spec fn formatted_with(reply: Reply, raw: bool, pretty: Option<Seq<char>>) -> Seq<char> {
    let shown = shown_body(content_type_of(reply.headers), reply.body, pretty);
    if raw {
        shown
    } else {
        head(reply.status, reply.headers) + shown
    }
}

/// What is shown of a response.
pub open spec fn formatted(reply: Reply, raw: bool) -> Seq<char> {
    formatted_with(reply, raw, pretty_body(reply.body))
}

/// Whether a header's name reads `content-type`, in whatever case.
fn names_content_type(name: &str) -> (r: bool)
    ensures
        r == (lowered(name@) == content_type_name()),
{
    let name = chars_of(name);
    let word = ['c', 'o', 'n', 't', 'e', 'n', 't', '-', 't', 'y', 'p', 'e'];
    assert(word@ =~= content_type_name());
    assert(name@.subrange(0, name@.len() as int) =~= name@);
    reads_lowered(name.as_slice(), 0, name.len(), &word)
}

/// Whether a content type header's value names `application/json`.
fn names_json(value: &str) -> (r: bool)
    ensures
        r == (media_type(value@) == json_media_type()),
{
    let value = chars_of(value);
    let n = value.len();
    let mut end: usize = 0;
    while end < n && value[end] != ';'
        invariant
            n == value@.len(),
            end <= n,
            forall|i: int| 0 <= i < end ==> value@[i] != ';',
        decreases n - end,
    {
        end += 1;
    }
    proof {
        lemma_first_at_is(value@, 0, |c: char| c == ';', end as int);
    }
    let word = ['a', 'p', 'p', 'l', 'i', 'c', 'a', 't', 'i', 'o', 'n', '/', 'j', 's', 'o', 'n'];
    assert(word@ =~= json_media_type());
    reads_lowered(value.as_slice(), 0, end, &word)
}

/// Decides from the headers how the body is laid out.
pub fn get_content_type(headers: &Vec<(String, String)>) -> (content_type: ContentType)
    ensures
        content_type == content_type_of(pairs_view(headers@)),
{
    let ghost hs = pairs_view(headers@);
    let mut i: usize = 0;
    while i < headers.len()
        invariant
            i <= headers@.len(),
            hs == pairs_view(headers@),
            forall|j: int| 0 <= j < i ==> !is_content_type(#[trigger] hs[j]),
        decreases headers@.len() - i,
    {
        assert(hs[i as int] == (headers@[i as int].0@, headers@[i as int].1@));
        if names_content_type(headers[i].0.as_str()) {
            proof {
                lemma_first_at_is(hs, 0, |h: (Seq<char>, Seq<char>)| is_content_type(h), i as int);
            }
            return if names_json(headers[i].1.as_str()) {
                ContentType::Json
            } else {
                ContentType::Unknown
            };
        }
        i += 1;
    }
    proof {
        lemma_first_at_is(hs, 0, |h: (Seq<char>, Seq<char>)| is_content_type(h), i as int);
    }
    ContentType::Unknown
}

/// Writes a text as indented JSON, where it is JSON.
fn indent_json(content: &str) -> (r: Option<String>)
    ensures
        match r {
            Some(text) => indented(content@) == Some(text@),
            None => indented(content@) is None,
        },
{
    match json_from_str(content) {
        Err(_) => None,
        Ok(value) => match json_to_string_pretty(&value) {
            Err(_) => None,
            Ok(text) => Some(text),
        },
    }
}

/// Writes a text as indented JSON, where it is JSON and the indented form
/// is stable. The form is written a second time to see that it is.
pub fn pretty_json(content: &str) -> (pretty: Option<String>)
    ensures
        match pretty {
            Some(text) => pretty_body(content@) == Some(text@),
            None => pretty_body(content@) is None,
        },
{
    match indent_json(content) {
        None => None,
        Some(text) => match indent_json(text.as_str()) {
            None => None,
            Some(again) => if again == text {
                Some(text)
            } else {
                None
            },
        },
    }
}

/// Lays out the body: as indented JSON where it is to be laid out as JSON
/// and has a stable indented form, and as it came otherwise. What it
/// returns, laid out again, stays as it is.
pub fn format_content_type(content_type: ContentType, content: String) -> (shown: String)
    ensures
        shown@ == formatted_body(content_type, content@),
        formatted_body(content_type, shown@) == shown@,
{
    proof {
        lemma_formatted_body_again(content_type, content@);
    }
    match content_type {
        ContentType::Unknown => content,
        ContentType::Json => match pretty_json(content.as_str()) {
            None => content,
            Some(pretty) => pretty,
        },
    }
}

/// Puts the status line and the header lines before the body, unless the
/// body alone is to be shown.
fn layout(status: u16, headers: &Vec<(String, String)>, body: String, raw: bool) -> (shown: String)
    ensures
        shown@ == if raw {
            body@
        } else {
            head(status, pairs_view(headers@)) + body@
        },
{
    if raw {
        return body;
    }
    let ghost hs = pairs_view(headers@);
    let mut shown = String::new();
    push_decimal(&mut shown, status);
    push_char(&mut shown, '\n');
    let ghost start = shown@;
    let mut i: usize = 0;
    assert(hs.take(0) =~= Seq::empty());
    while i < headers.len()
        invariant
            i <= headers@.len(),
            hs == pairs_view(headers@),
            shown@ == start + header_lines(hs.take(i as int)),
        decreases headers@.len() - i,
    {
        proof {
            let next = hs.take(i + 1);
            assert(next.drop_last() =~= hs.take(i as int));
            assert(next.last() == (headers@[i as int].0@, headers@[i as int].1@));
        }
        shown.append(headers[i].0.as_str());
        shown.append(": ");
        shown.append(headers[i].1.as_str());
        push_char(&mut shown, '\n');
        proof {
            reveal_strlit(": ");
            assert(": "@ =~= seq![':', ' ']);
            assert(shown@ =~= start + header_lines(hs.take(i + 1)));
        }
        i += 1;
    }
    assert(hs.take(headers@.len() as int) =~= hs);
    push_char(&mut shown, '\n');
    shown.append(body.as_str());
    assert(shown@ =~= head(status, hs) + body@);
    shown
}

/// Formats a response for display, given the stable form of its body as
/// indented JSON: `None` where the body has no such form.
pub fn format_with(resp: Response, raw: bool, pretty: Option<String>) -> (shown: String)
    ensures
        shown@ == formatted_with(
            resp@,
            raw,
            match pretty {
                Some(text) => Some(text@),
                None => None,
            },
        ),
{
    let content_type = get_content_type(&resp.headers);
    let Response { status, headers, body } = resp;
    let body = match content_type {
        ContentType::Unknown => body,
        ContentType::Json => match pretty {
            None => body,
            Some(text) => text,
        },
    };
    layout(status, &headers, body, raw)
}

/// Formats a response for display. With `raw` the result is the body alone,
/// without the status line and the header lines.
pub fn format_response(resp: Response, raw: bool) -> (shown: String)
    ensures
        shown@ == formatted(resp@, raw),
        raw ==> shown@ == formatted_body(content_type_of(resp@.headers), resp@.body),
{
    let content_type = get_content_type(&resp.headers);
    let Response { status, headers, body } = resp;
    let body = format_content_type(content_type, body);
    layout(status, &headers, body, raw)
}

/// In raw mode what is shown is the body as it is laid out, and nothing
/// else; otherwise the same body stands behind the status line, the header
/// lines and one empty line.
pub proof fn lemma_raw_is_the_body(reply: Reply)
    ensures
        formatted(reply, true) == formatted_body(content_type_of(reply.headers), reply.body),
        formatted(reply, false) == head(reply.status, reply.headers) + formatted(reply, true),
{
}

/// The stable indented form of a body is its own stable indented form.
pub proof fn lemma_pretty_body_again(body: Seq<char>)
    ensures
        pretty_body(body) matches Some(text) ==> pretty_body(text) == Some(text),
{
}

/// Laying out a body that was laid out before changes nothing.
pub proof fn lemma_formatted_body_again(content_type: ContentType, body: Seq<char>)
    ensures
        formatted_body(content_type, formatted_body(content_type, body)) == formatted_body(
            content_type,
            body,
        ),
{
    lemma_pretty_body_again(body);
}

/// Formatting in raw mode a response whose body was formatted before shows
/// the same text.
pub proof fn lemma_formatted_again(reply: Reply)
    ensures
        formatted(Reply { body: formatted(reply, true), ..reply }, true) == formatted(reply, true),
{
    lemma_formatted_body_again(content_type_of(reply.headers), reply.body);
}

} // verus!
