//! The shape of a request file's lines: the request line and header lines.

use vstd::prelude::*;
use crate::text::{first_at, lemma_first_at, lemma_first_at_is};

verus! {

/// White space between the tokens of the request line: the ASCII white
/// space characters.
pub open spec fn is_space(c: char) -> bool {
    c == ' ' || c == '\t' || c == '\n' || c == '\x0c' || c == '\r'
}

/// Where the token starts that comes at or after `from`: the first
/// character there that is no white space. `line.len()` where none follows.
pub open spec fn token_start(line: Seq<char>, from: int) -> int {
    first_at(line, from, |c: char| !is_space(c))
}

/// Where the token ends that starts at `from`: the first white space at or
/// after `from`, or `line.len()`.
pub open spec fn token_end(line: Seq<char>, from: int) -> int {
    first_at(line, from, |c: char| is_space(c))
}

/// The two tokens of a request line, the method and the URL. A line that
/// holds fewer or more than two tokens is no request line.
pub open spec fn request_line(line: Seq<char>) -> Option<(Seq<char>, Seq<char>)> {
    let a = token_start(line, 0);
    let b = token_end(line, a);
    let c = token_start(line, b);
    let d = token_end(line, c);
    if a < line.len() && c < line.len() && token_start(line, d) == line.len() {
        Some((line.subrange(a, b), line.subrange(c, d)))
    } else {
        None
    }
}

/// A character of a header's name in a request file: an ASCII letter, a
/// digit or a hyphen.
pub open spec fn is_name_char(c: char) -> bool {
    ('A' <= c <= 'Z') || ('a' <= c <= 'z') || ('0' <= c <= '9') || c == '-'
}

/// The length of the longest prefix of `line` made of name characters.
pub open spec fn name_end(line: Seq<char>) -> int {
    first_at(line, 0, |c: char| !is_name_char(c))
}

/// A header line is one or more name characters, a colon, one space, and
/// one or more characters of any kind.
pub open spec fn is_header_line(line: Seq<char>) -> bool {
    let k = name_end(line);
    0 < k && k + 2 < line.len() && line[k] == ':' && line[k + 1] == ' '
}

/// The name of a header line: what stands before its first `": "`.
pub open spec fn header_name(line: Seq<char>) -> Seq<char> {
    line.subrange(0, name_end(line))
}

/// The value of a header line: what stands behind its first `": "`.
pub open spec fn header_value(line: Seq<char>) -> Seq<char> {
    line.subrange(name_end(line) + 2, line.len() as int)
}

/// In a header line the name ends where `": "` stands first: the line is
/// split at its first colon and space.
pub proof fn lemma_split_at_first_colon(line: Seq<char>)
    requires
        is_header_line(line),
    ensures
        line[name_end(line)] == ':',
        line[name_end(line) + 1] == ' ',
        forall|i: int| 0 <= i < name_end(line) ==> #[trigger] line[i] != ':',
{
    lemma_first_at(line, 0, |c: char| !is_name_char(c));
}

/// Index of the first line at or after `from` that is no header line, or
/// `ls.len()`.
pub open spec fn headers_end(ls: Seq<Seq<char>>, from: int) -> int {
    first_at(ls, from, |l: Seq<char>| !is_header_line(l))
}

/// Whether `c` is ASCII white space.
pub fn space(c: char) -> (r: bool)
    ensures
        r == is_space(c),
{
    c == ' ' || c == '\t' || c == '\n' || c == '\x0c' || c == '\r'
}

/// Whether `c` may stand in a header's name.
pub fn name_char(c: char) -> (r: bool)
    ensures
        r == is_name_char(c),
{
    ('A' <= c && c <= 'Z') || ('a' <= c && c <= 'z') || ('0' <= c && c <= '9') || c == '-'
}

/// Finds the start of the next token.
pub fn skip_spaces(line: &[char], from: usize) -> (at: usize)
    requires
        from <= line@.len(),
    ensures
        at == token_start(line@, from as int),
        from <= at <= line@.len(),
{
    let mut at: usize = from;
    while at < line.len() && space(line[at])
        invariant
            from <= at <= line@.len(),
            forall|i: int| from <= i < at ==> is_space(line@[i]),
        decreases line@.len() - at,
    {
        at += 1;
    }
    proof {
        lemma_first_at_is(line@, from as int, |c: char| !is_space(c), at as int);
    }
    at
}

/// Finds the end of the token that starts at `from`.
pub fn skip_token(line: &[char], from: usize) -> (at: usize)
    requires
        from <= line@.len(),
    ensures
        at == token_end(line@, from as int),
        from <= at <= line@.len(),
{
    let mut at: usize = from;
    while at < line.len() && !space(line[at])
        invariant
            from <= at <= line@.len(),
            forall|i: int| from <= i < at ==> !is_space(line@[i]),
        decreases line@.len() - at,
    {
        at += 1;
    }
    proof {
        lemma_first_at_is(line@, from as int, |c: char| is_space(c), at as int);
    }
    at
}

/// Splits a request line into its method and URL tokens, each given as an
/// index range of `line`.
pub fn split_request_line(line: &[char]) -> (r: Option<((usize, usize), (usize, usize))>)
    ensures
        match r {
            Some((m, u)) => {
                &&& m.0 <= m.1 <= u.0 <= u.1 <= line@.len()
                &&& request_line(line@) == Some(
                    (
                        line@.subrange(m.0 as int, m.1 as int),
                        line@.subrange(u.0 as int, u.1 as int),
                    ),
                )
            },
            None => request_line(line@) is None,
        },
{
    let a = skip_spaces(line, 0);
    let b = skip_token(line, a);
    let c = skip_spaces(line, b);
    let d = skip_token(line, c);
    let e = skip_spaces(line, d);
    if a < line.len() && c < line.len() && e == line.len() {
        Some(((a, b), (c, d)))
    } else {
        None
    }
}

/// Tells whether `line` is a header line, and if so where its name ends.
pub fn scan_header(line: &[char]) -> (r: Option<usize>)
    ensures
        r is Some <==> is_header_line(line@),
        r matches Some(k) ==> k == name_end(line@) && 0 < k && k + 2 < line.len(),
{
    let n = line.len();
    let mut k: usize = 0;
    while k < n && name_char(line[k])
        invariant
            n == line@.len(),
            k <= n,
            forall|i: int| 0 <= i < k ==> is_name_char(line@[i]),
        decreases n - k,
    {
        k += 1;
    }
    proof {
        lemma_first_at_is(line@, 0, |c: char| !is_name_char(c), k as int);
    }
    if 0 < k && n - k > 2 && line[k] == ':' && line[k + 1] == ' ' {
        Some(k)
    } else {
        None
    }
}

} // verus!
