//! A request that is written out as a request file compiles to itself.

use vstd::prelude::*;
use crate::bindings::url_parsed;
use crate::error::ErrorKind;
use crate::grammar::{
    header_name, header_value, headers_end, is_header_line, is_name_char, is_space, request_line,
};
use crate::header::{header_of, header_sendable, is_value};
use crate::method::Method;
use crate::request::{compiled, compiled_with, target, Compiled};
use crate::text::{
    join_lines, lemma_first_at, lemma_first_at_is, lemma_join_lines_cons, lemma_lines_cons,
    lemma_lines_nonempty, line_content, line_end, lines, lines_from, lowered,
};

verus! {

/// A token: one or more characters, none of them white space.
pub open spec fn is_token(t: Seq<char>) -> bool {
    t.len() > 0 && forall|i: int| 0 <= i < t.len() ==> !is_space(#[trigger] t[i])
}

/// A header's name as a request file can hold it: one or more name
/// characters.
pub open spec fn is_name(name: Seq<char>) -> bool {
    name.len() > 0 && forall|i: int| 0 <= i < name.len() ==> is_name_char(#[trigger] name[i])
}

/// The name of every method is a token, and names it.
pub proof fn lemma_method_name(method: Method)
    ensures
        is_token(method.name()),
        Method::named(method.name()) == Some(method),
{
    reveal_strlit("OPTIONS");
    reveal_strlit("GET");
    reveal_strlit("POST");
    reveal_strlit("PUT");
    reveal_strlit("DELETE");
    reveal_strlit("HEAD");
    reveal_strlit("TRACE");
    reveal_strlit("CONNECT");
    reveal_strlit("PATCH");
    assert(Method::Options.name().len() == 7 && Method::Options.name()[0] == 'O');
    assert(Method::Get.name().len() == 3 && Method::Get.name()[0] == 'G');
    assert(Method::Post.name().len() == 4 && Method::Post.name()[1] == 'O');
    assert(Method::Put.name().len() == 3 && Method::Put.name()[0] == 'P');
    assert(Method::Delete.name().len() == 6 && Method::Delete.name()[0] == 'D');
    assert(Method::Head.name().len() == 4 && Method::Head.name()[1] == 'E');
    assert(Method::Trace.name().len() == 5 && Method::Trace.name()[0] == 'T');
    assert(Method::Connect.name().len() == 7 && Method::Connect.name()[0] == 'C');
    assert(Method::Patch.name().len() == 5 && Method::Patch.name()[0] == 'P');
}

/// A method token, one space and a URL token make a request line, and that
/// line holds the two tokens.
pub proof fn lemma_request_line(m: Seq<char>, u: Seq<char>)
    requires
        is_token(m),
        is_token(u),
    ensures
        request_line(m + seq![' '] + u) == Some((m, u)),
        forall|i: int| 0 <= i < (m + seq![' '] + u).len() ==> (m + seq![' '] + u)[i] != '\n',
        (m + seq![' '] + u).last() != '\r',
{
    let line = m + seq![' '] + u;
    let a = m.len() as int;
    assert forall|i: int| 0 <= i < line.len() implies line[i] != '\n' by {
        if i < a {
            assert(line[i] == m[i]);
        } else if i > a {
            assert(line[i] == u[i - a - 1]);
        }
    }
    assert(line.last() == u.last());
    assert(line[0] == m[0]);
    lemma_first_at_is(line, 0, |c: char| !is_space(c), 0);
    assert forall|i: int| 0 <= i < a implies !is_space(#[trigger] line[i]) by {
        assert(line[i] == m[i]);
    }
    assert(line[a] == ' ');
    lemma_first_at_is(line, 0, |c: char| is_space(c), a);
    assert(line[a + 1] == u[0]);
    lemma_first_at_is(line, a, |c: char| !is_space(c), a + 1);
    assert forall|i: int| a + 1 <= i < line.len() implies !is_space(#[trigger] line[i]) by {
        assert(line[i] == u[i - a - 1]);
    }
    lemma_first_at_is(line, a + 1, |c: char| is_space(c), line.len() as int);
    assert(line.subrange(0, a) =~= m);
    assert(line.subrange(a + 1, line.len() as int) =~= u);
}

/// The line that a header is written as.
pub open spec fn header_line(header: (Seq<char>, Seq<char>)) -> Seq<char> {
    header.0 + seq![':', ' '] + header.1
}

/// A header that a request file can hold: its name is a name, and its
/// value is a value that is not empty.
pub open spec fn is_written_header(header: (Seq<char>, Seq<char>)) -> bool {
    &&& is_name(header.0)
    &&& header.1.len() > 0
    &&& is_value(header.1)
}

/// A header that a request file can hold and that can be sent: its name
/// has at most 65535 characters.
pub open spec fn is_header(header: (Seq<char>, Seq<char>)) -> bool {
    is_written_header(header) && header.0.len() <= 65535
}

/// Whether the name of each header is short enough to be sent.
pub open spec fn names_fit(headers: Seq<(Seq<char>, Seq<char>)>) -> bool {
    forall|i: int| 0 <= i < headers.len() ==> (#[trigger] headers[i]).0.len() <= 65535
}

/// The line of a header is a header line, and holds the header's name and
/// value. The header can be sent unless its name is too long.
pub proof fn lemma_header_line(header: (Seq<char>, Seq<char>))
    requires
        is_written_header(header),
    ensures
        is_header_line(header_line(header)),
        header_name(header_line(header)) == header.0,
        header_value(header_line(header)) == header.1,
        header_sendable(header_line(header)) <==> header.0.len() <= 65535,
        forall|i: int| 0 <= i < header_line(header).len() ==> header_line(header)[i] != '\n',
        header_line(header).last() != '\r',
{
    let line = header_line(header);
    let k = header.0.len() as int;
    assert forall|i: int| 0 <= i < k implies is_name_char(#[trigger] line[i]) by {
        assert(line[i] == header.0[i]);
    }
    assert(line[k] == ':');
    assert(line[k + 1] == ' ');
    lemma_first_at_is(line, 0, |c: char| !is_name_char(c), k);
    assert(line.subrange(0, k) =~= header.0);
    assert(line.subrange(k + 2, line.len() as int) =~= header.1);
    assert forall|i: int| 0 <= i < line.len() implies line[i] != '\n' by {
        if i < k {
            assert(line[i] == header.0[i]);
        } else if i >= k + 2 {
            assert(line[i] == header.1[i - k - 2]);
        }
    }
    assert(line.last() == header.1.last());
}

/// The lines of the headers, each ended by a line feed.
pub open spec fn header_block(headers: Seq<(Seq<char>, Seq<char>)>) -> Seq<char>
    decreases headers.len(),
{
    if headers.len() == 0 {
        Seq::empty()
    } else {
        header_line(headers[0]) + seq!['\n'] + header_block(headers.drop_first())
    }
}

/// The text of a request file: the request line, a line for each header,
/// an empty line, and the body.
pub open spec fn written(
    method: Method,
    url: Seq<char>,
    headers: Seq<(Seq<char>, Seq<char>)>,
    body: Seq<char>,
) -> Seq<char> {
    method.name() + seq![' '] + url + seq!['\n'] + header_block(headers) + seq!['\n'] + body
}

/// The headers as they are sent: each name in lower case.
pub open spec fn sent_headers(headers: Seq<(Seq<char>, Seq<char>)>) -> Seq<(Seq<char>, Seq<char>)> {
    Seq::new(headers.len(), |i: int| (lowered(headers[i].0), headers[i].1))
}

/// The lines of the headers.
pub open spec fn header_lines_of(headers: Seq<(Seq<char>, Seq<char>)>) -> Seq<Seq<char>> {
    Seq::new(headers.len(), |i: int| header_line(headers[i]))
}

/// The lines of a text that starts with a block of headers: the lines of the
/// headers, and the lines of what follows the block.
pub proof fn lemma_header_block_lines(headers: Seq<(Seq<char>, Seq<char>)>, tail: Seq<char>)
    requires
        forall|i: int| 0 <= i < headers.len() ==> is_written_header(#[trigger] headers[i]),
    ensures
        lines(header_block(headers) + tail) == header_lines_of(headers) + lines(tail),
    decreases headers.len(),
{
    if headers.len() == 0 {
        assert(header_block(headers) + tail =~= tail);
        assert(header_lines_of(headers) + lines(tail) =~= lines(tail));
    } else {
        let first = header_line(headers[0]);
        let rest = headers.drop_first();
        assert(is_written_header(headers[0]));
        lemma_header_line(headers[0]);
        assert forall|i: int| 0 <= i < rest.len() implies is_written_header(#[trigger] rest[i]) by {
            assert(rest[i] == headers[i + 1]);
        }
        lemma_header_block_lines(rest, tail);
        lemma_lines_cons(first, header_block(rest) + tail);
        assert(header_block(headers) + tail =~= first + seq!['\n'] + (header_block(rest) + tail));
        assert(header_lines_of(headers) =~= seq![first] + header_lines_of(rest));
        assert(seq![first] + (header_lines_of(rest) + lines(tail)) =~= header_lines_of(headers)
            + lines(tail));
    }
}

/// A request that is written out as a request file compiles to itself,
/// whatever its URL token parses to: to its method, to its headers in their
/// order, and to a body that starts with the line feed of the empty line and
/// goes on with the lines of the body that was written. Where the name of a
/// header is too long to be sent, it does not compile.
pub proof fn lemma_written_compiles_with(
    method: Method,
    url: Seq<char>,
    headers: Seq<(Seq<char>, Seq<char>)>,
    body: Seq<char>,
    parsed: Seq<char>,
)
    requires
        is_token(url),
        forall|i: int| 0 <= i < headers.len() ==> is_written_header(#[trigger] headers[i]),
        body.len() > 0,
    ensures
        target(written(method, url, headers, body)) == Ok::<(Method, Seq<char>), ErrorKind>(
            (method, url),
        ),
        compiled_with(written(method, url, headers, body), Some(parsed)) == if names_fit(headers) {
            Ok::<Compiled, ErrorKind>(
                Compiled {
                    method,
                    url: parsed,
                    headers: sent_headers(headers),
                    body: Some(seq!['\n'] + join_lines(lines(body))),
                },
            )
        } else {
            Err::<Compiled, ErrorKind>(ErrorKind::InvalidHeader)
        },
{
    let first = method.name() + seq![' '] + url;
    let text = written(method, url, headers, body);
    let n = headers.len() as int;
    let hl = header_lines_of(headers);
    let blank = Seq::<char>::empty();
    lemma_method_name(method);
    lemma_request_line(method.name(), url);
    let after = header_block(headers) + (seq!['\n'] + body);
    assert(text =~= first + seq!['\n'] + after);
    lemma_lines_cons(first, after);
    lemma_header_block_lines(headers, seq!['\n'] + body);
    assert(seq!['\n'] + body =~= blank + seq!['\n'] + body);
    lemma_lines_cons(blank, body);
    lemma_lines_nonempty(body);
    let ls = lines(text);
    assert(ls =~= seq![first] + (hl + (seq![blank] + lines(body))));
    assert(ls.len() == 1 + n + 1 + lines(body).len());
    assert(ls[0] == first);
    assert forall|i: int| 1 <= i < 1 + n implies ls[i] == header_line(headers[i - 1])
        && is_header_line(ls[i]) && (header_sendable(ls[i]) <==> headers[i - 1].0.len() <= 65535)
        && header_of(ls[i]) == sent_headers(headers)[i - 1] by {
        assert(ls[i] == hl[i - 1]);
        assert(is_written_header(headers[i - 1]));
        lemma_header_line(headers[i - 1]);
    }
    assert(ls[1 + n] == blank);
    lemma_first_at(blank, 0, |c: char| !is_name_char(c));
    assert(!is_header_line(blank));
    let not_header = |l: Seq<char>| !is_header_line(l);
    assert forall|i: int| 1 <= i < 1 + n implies !not_header(#[trigger] ls[i]) by {
        assert(is_header_line(ls[i]));
    }
    lemma_first_at_is(ls, 1, not_header, 1 + n);
    assert(headers_end(ls, 1) == 1 + n);
    if names_fit(headers) {
        assert forall|i: int| 1 <= i < 1 + n implies header_sendable(#[trigger] ls[i]) by {
            assert(headers[i - 1].0.len() <= 65535);
        }
        assert(!(exists|i: int| 1 <= i < 1 + n && !header_sendable(#[trigger] ls[i])));
        assert(Seq::new(n as nat, |i: int| header_of(ls[i + 1])) =~= sent_headers(headers));
        assert(ls.skip(1 + n) =~= seq![blank] + lines(body));
        lemma_join_lines_cons(blank, lines(body));
        assert(blank + seq!['\n'] + join_lines(lines(body)) =~= seq!['\n'] + join_lines(
            lines(body),
        ));
    } else {
        let k = choose|k: int| 0 <= k < headers.len() && !((#[trigger] headers[k]).0.len() <= 65535);
        assert(!header_sendable(ls[k + 1]));
        assert(exists|i: int| 1 <= i < 1 + n && !header_sendable(#[trigger] ls[i]));
    }
}

/// A request that is written out as a request file compiles to itself: to
/// its method, to its URL as the URL parser reads it, to its headers in
/// their order, and to a body that starts with the line feed of the empty
/// line and goes on with the lines of the body that was written.
pub proof fn lemma_written_compiles(
    method: Method,
    url: Seq<char>,
    headers: Seq<(Seq<char>, Seq<char>)>,
    body: Seq<char>,
)
    requires
        is_token(url),
        url_parsed(url) is Some,
        forall|i: int| 0 <= i < headers.len() ==> is_header(#[trigger] headers[i]),
        body.len() > 0,
    ensures
        compiled(written(method, url, headers, body)) == Ok::<Compiled, ErrorKind>(
            Compiled {
                method,
                url: url_parsed(url)->0,
                headers: sent_headers(headers),
                body: Some(seq!['\n'] + join_lines(lines(body))),
            },
        ),
{
    lemma_written_compiles_with(method, url, headers, body, url_parsed(url)->0);
}

/// A text whose lines, joined again, are the text itself: every line feed
/// in it is followed by something, and none follows a carriage return.
pub open spec fn keeps_its_lines(s: Seq<char>) -> bool {
    forall|i: int|
        0 <= i < s.len() && #[trigger] s[i] == '\n' ==> i + 1 < s.len() && (i == 0 || s[i - 1]
            != '\r')
}

/// Joining the lines from `from` on gives the text from `from` on.
proof fn lemma_join_lines_from(s: Seq<char>, from: int)
    requires
        keeps_its_lines(s),
        0 <= from <= s.len(),
    ensures
        join_lines(lines_from(s, from)) == s.subrange(from, s.len() as int),
    decreases s.len() - from,
{
    if from < s.len() {
        lemma_first_at(s, from, |c: char| c == '\n');
        let end = line_end(s, from);
        let line = s.subrange(from, end);
        if end < s.len() {
            assert(s[end] == '\n');
            assert(line_content(s, from, end) == line);
            lemma_join_lines_from(s, end + 1);
            lemma_first_at(s, end + 1, |c: char| c == '\n');
            assert(lines_from(s, end + 1).len() > 0);
            lemma_join_lines_cons(line, lines_from(s, end + 1));
            assert(line + seq!['\n'] + s.subrange(end + 1, s.len() as int) =~= s.subrange(
                from,
                s.len() as int,
            ));
        } else {
            assert(line_content(s, from, end) == line);
            assert(join_lines(seq![line]) == line);
        }
    } else {
        assert(s.subrange(from, s.len() as int) =~= Seq::<char>::empty());
    }
}

/// The lines of a text that keeps its lines, joined again, are the text.
pub proof fn lemma_join_lines_of_lines(s: Seq<char>)
    requires
        keeps_its_lines(s),
    ensures
        join_lines(lines(s)) == s,
{
    lemma_join_lines_from(s, 0);
    assert(s.subrange(0, s.len() as int) =~= s);
}

/// A request with a body that keeps its lines compiles to that body behind
/// one line feed: the line feed of the empty line that parts the body from
/// the headers.
pub proof fn lemma_written_body(
    method: Method,
    url: Seq<char>,
    headers: Seq<(Seq<char>, Seq<char>)>,
    body: Seq<char>,
)
    requires
        is_token(url),
        url_parsed(url) is Some,
        forall|i: int| 0 <= i < headers.len() ==> is_header(#[trigger] headers[i]),
        body.len() > 0,
        keeps_its_lines(body),
    ensures
        compiled(written(method, url, headers, body)) == Ok::<Compiled, ErrorKind>(
            Compiled {
                method,
                url: url_parsed(url)->0,
                headers: sent_headers(headers),
                body: Some(seq!['\n'] + body),
            },
        ),
{
    lemma_written_compiles(method, url, headers, body);
    lemma_join_lines_of_lines(body);
}

/// A text of one line compiles to a request without headers and without a
/// body, where it compiles.
pub proof fn lemma_one_line(text: Seq<char>)
    requires
        lines(text).len() == 1,
    ensures
        compiled(text) matches Ok(request) ==> request.headers.len() == 0 && request.body is None,
{
    let ls = lines(text);
    lemma_first_at_is(ls, 1, |l: Seq<char>| !is_header_line(l), 1);
}

/// A method and a URL alone compile to a request without headers and
/// without a body, with or without a line ending behind them.
pub proof fn lemma_request_line_alone(method: Method, url: Seq<char>, ended: bool)
    requires
        is_token(url),
        url_parsed(url) is Some,
    ensures
        compiled(
            method.name() + seq![' '] + url + if ended {
                seq!['\n']
            } else {
                Seq::empty()
            },
        ) == Ok::<Compiled, ErrorKind>(
            Compiled { method, url: url_parsed(url)->0, headers: Seq::empty(), body: None },
        ),
{
    let first = method.name() + seq![' '] + url;
    let text = first + if ended {
        seq!['\n']
    } else {
        Seq::empty()
    };
    lemma_method_name(method);
    lemma_request_line(method.name(), url);
    if ended {
        assert(text =~= first + seq!['\n'] + Seq::<char>::empty());
        lemma_lines_cons(first, Seq::empty());
        assert(lines(Seq::<char>::empty()) =~= Seq::<Seq<char>>::empty());
        assert(lines(text) =~= seq![first]);
    } else {
        assert(text =~= first);
        assert forall|i: int| 0 <= i < first.len() implies !(|c: char| c == '\n')(
            #[trigger] first[i],
        ) by {}
        lemma_first_at_is(first, 0, |c: char| c == '\n', first.len() as int);
        assert(first.subrange(0, first.len() as int) =~= first);
        assert(lines(text) =~= seq![first]);
    }
    let ls = lines(text);
    lemma_first_at_is(ls, 1, |l: Seq<char>| !is_header_line(l), 1);
    assert(Seq::new(0, |i: int| header_of(ls[i + 1])) =~= Seq::<(Seq<char>, Seq<char>)>::empty());
}

} // verus!
