//! Requests: the file a request is stored in, and what it compiles to.

use vstd::prelude::*;
use vstd::slice::slice_subrange;
use crate::bindings::{parse_url, url_parsed};
use crate::env::{env_document, Env};
use crate::error::ErrorKind;
use crate::grammar::{headers_end, is_header_line, request_line, scan_header, split_request_line};
use crate::header::{header_of, header_sendable, read_header};
use crate::method::Method;
use crate::template::{context, context_text, render, render_result};
use crate::text::{
    chars_of, clone_pairs, join_lines, join_pieces, lemma_first_at, lemma_first_at_is, lines,
    pairs_view, pieces, ranges_within, split_lines, string_of, trim_end, trim_end_matches,
    trim_start, trim_start_matches,
};

verus! {

/// What a request file compiles to, as plain values.
pub struct Compiled {
    pub method: Method,
    pub url: Seq<char>,
    pub headers: Seq<(Seq<char>, Seq<char>)>,
    pub body: Option<Seq<char>>,
}

/// The method and the URL token that the first of the lines holds.
pub open spec fn target_of(ls: Seq<Seq<char>>) -> Result<(Method, Seq<char>), ErrorKind> {
    if ls.len() == 0 {
        Err(ErrorKind::MalformedRequestLine)
    } else {
        match request_line(ls[0]) {
            None => Err(ErrorKind::MalformedRequestLine),
            Some((m, u)) => match Method::named(m) {
                None => Err(ErrorKind::InvalidMethod),
                Some(method) => Ok((method, u)),
            },
        }
    }
}

/// The headers and the body that the lines behind the first hold.
///
/// The header lines that follow the first line without a gap are the
/// headers. The first line that is no header line starts the body, which
/// runs to the last line. That line may be empty, and it may be a header
/// that was mistyped: it is the body's first line all the same, and no
/// error. Where no such line follows, there is no body.
pub open spec fn content_of(ls: Seq<Seq<char>>) -> Result<
    (Seq<(Seq<char>, Seq<char>)>, Option<Seq<char>>),
    ErrorKind,
>
    recommends
        ls.len() > 0,
{
    let end = headers_end(ls, 1);
    if exists|i: int| 1 <= i < end && !header_sendable(#[trigger] ls[i]) {
        Err(ErrorKind::InvalidHeader)
    } else {
        Ok(
            (
                Seq::new((end - 1) as nat, |i: int| header_of(ls[i + 1])),
                if end < ls.len() {
                    Some(join_lines(ls.skip(end)))
                } else {
                    None
                },
            ),
        )
    }
}

/// The method and the URL token of a request file.
pub open spec fn target(text: Seq<char>) -> Result<(Method, Seq<char>), ErrorKind> {
    target_of(lines(text))
}

/// What the text of a request file compiles to, given what its URL token
/// parses to: `None` where the token is no absolute URL.
///
/// The first line is judged first, the method before the URL, and then the
/// headers in their order.
pub open spec fn compiled_with(text: Seq<char>, url: Option<Seq<char>>) -> Result<
    Compiled,
    ErrorKind,
> {
    match target(text) {
        Err(e) => Err(e),
        Ok((method, _)) => match url {
            None => Err(ErrorKind::InvalidUrl),
            Some(url) => match content_of(lines(text)) {
                Err(e) => Err(e),
                Ok((headers, body)) => Ok(Compiled { method, url, headers, body }),
            },
        },
    }
}

/// What the text of a request file compiles to.
pub open spec fn compiled(text: Seq<char>) -> Result<Compiled, ErrorKind> {
    match target(text) {
        Err(e) => Err(e),
        Ok((_, token)) => compiled_with(text, url_parsed(token)),
    }
}

/// Whether a request is what some text compiles to, for some reading of
/// its URL token.
pub open spec fn is_compiled(request: Compiled) -> bool {
    exists|text: Seq<char>, url: Option<Seq<char>>|
        compiled_with(text, url) == Ok::<Compiled, ErrorKind>(request)
}

/// A compiled request: what is sent. Only compiling a text makes one, so
/// that each is what some request file holds.
#[derive(Debug)]
pub struct RequestInner {
    method: Method,
    url: String,
    headers: Vec<(String, String)>,
    body: Option<String>,
}

impl View for RequestInner {
    type V = Compiled;

    closed spec fn view(&self) -> Compiled {
        Compiled {
            method: self.method,
            url: self.url@,
            headers: pairs_view(self.headers@),
            body: match self.body {
                Some(b) => Some(b@),
                None => None,
            },
        }
    }
}

impl RequestInner {
    /// Some text compiles to this request.
    #[verifier::type_invariant]
    spec fn from_text(self) -> bool {
        is_compiled(self@)
    }

    /// The method.
    pub fn method(&self) -> (method: Method)
        ensures
            method == self@.method,
    {
        self.method
    }

    /// The absolute URL, in its normal form.
    pub fn url(&self) -> (url: &str)
        ensures
            url@ == self@.url,
    {
        self.url.as_str()
    }

    /// The headers in the order of the file; a name may occur twice.
    pub fn headers(&self) -> (headers: &Vec<(String, String)>)
        ensures
            pairs_view(headers@) == self@.headers,
    {
        &self.headers
    }

    /// The body, where the file holds one. An empty body is not an absent
    /// one.
    pub fn body(&self) -> (body: Option<&String>)
        ensures
            match body {
                Some(text) => self@.body == Some(text@),
                None => self@.body is None,
            },
    {
        self.body.as_ref()
    }
}

impl Clone for RequestInner {
    fn clone(&self) -> (copy: Self)
        ensures
            copy@ == self@,
    {
        let url = self.url.clone();
        let headers = clone_pairs(&self.headers);
        let body = match &self.body {
            Some(b) => Some(b.clone()),
            None => None,
        };
        proof {
            use_type_invariant(self);
            assert(self@ == Compiled {
                method: self.method,
                url: url@,
                headers: pairs_view(headers@),
                body: match body {
                    Some(b) => Some(b@),
                    None => None,
                },
            });
        }
        RequestInner { method: self.method, url, headers, body }
    }
}

/// Reads the method and the URL token from the first of the lines.
fn read_target(chars: &[char], ranges: &Vec<(usize, usize)>) -> (r: Result<
    (Method, String),
    ErrorKind,
>)
    requires
        ranges_within(ranges@, chars@.len()),
    ensures
        match r {
            Ok(found) => target_of(pieces(chars@, ranges@)) == Ok::<
                (Method, Seq<char>),
                ErrorKind,
            >((found.0, found.1@)),
            Err(e) => target_of(pieces(chars@, ranges@)) == Err::<(Method, Seq<char>), ErrorKind>(e),
        },
{
    if ranges.len() == 0 {
        return Err(ErrorKind::MalformedRequestLine);
    }
    let first = slice_subrange(chars, ranges[0].0, ranges[0].1);
    assert(first@ == pieces(chars@, ranges@)[0]);
    let (m, u) = match split_request_line(first) {
        None => {
            return Err(ErrorKind::MalformedRequestLine);
        },
        Some(tokens) => tokens,
    };
    match Method::from_token(string_of(first, m.0, m.1).as_str()) {
        None => Err(ErrorKind::InvalidMethod),
        Some(method) => Ok((method, string_of(first, u.0, u.1))),
    }
}

/// Reads the headers and the body from the lines behind the first.
fn read_content(chars: &[char], ranges: &Vec<(usize, usize)>) -> (r: Result<
    (Vec<(String, String)>, Option<String>),
    ErrorKind,
>)
    requires
        ranges_within(ranges@, chars@.len()),
        ranges@.len() > 0,
    ensures
        match r {
            Ok(found) => content_of(pieces(chars@, ranges@)) == Ok::<
                (Seq<(Seq<char>, Seq<char>)>, Option<Seq<char>>),
                ErrorKind,
            >(
                (
                    pairs_view(found.0@),
                    match found.1 {
                        Some(b) => Some(b@),
                        None => None,
                    },
                ),
            ),
            Err(e) => content_of(pieces(chars@, ranges@)) == Err::<
                (Seq<(Seq<char>, Seq<char>)>, Option<Seq<char>>),
                ErrorKind,
            >(e),
        },
{
    let ghost ls = pieces(chars@, ranges@);
    let ghost not_header = |l: Seq<char>| !is_header_line(l);
    let mut headers: Vec<(String, String)> = Vec::new();
    let mut i: usize = 1;
    proof {
        if ranges@.len() == 1 {
            lemma_first_at_is(ls, 1, not_header, 1);
        }
    }
    let mut in_headers = true;
    while in_headers && i < ranges.len()
        invariant
            ranges_within(ranges@, chars@.len()),
            ls == pieces(chars@, ranges@),
            not_header == |l: Seq<char>| !is_header_line(l),
            1 <= i <= ranges@.len(),
            !in_headers || i == ranges@.len() ==> i == headers_end(ls, 1),
            forall|j: int| 1 <= j < i ==> is_header_line(#[trigger] ls[j]),
            forall|j: int| 1 <= j < i ==> header_sendable(#[trigger] ls[j]),
            headers@.len() == i - 1,
            forall|j: int|
                0 <= j < i - 1 ==> (#[trigger] headers@[j]).0@ == header_of(ls[j + 1]).0
                    && headers@[j].1@ == header_of(ls[j + 1]).1,
        decreases
                ranges@.len() - i,
                if in_headers {
                    1int
                } else {
                    0int
                },
    {
        let line = slice_subrange(chars, ranges[i].0, ranges[i].1);
        assert(line@ == ls[i as int]);
        match scan_header(line) {
            None => {
                proof {
                    lemma_first_at_is(ls, 1, not_header, i as int);
                }
                in_headers = false;
            },
            Some(k) => {
                match read_header(line, k) {
                    None => {
                        proof {
                            lemma_first_at(ls, 1, not_header);
                            assert(i < headers_end(ls, 1));
                        }
                        return Err(ErrorKind::InvalidHeader);
                    },
                    Some(h) => {
                        headers.push(h);
                    },
                }
                i += 1;
                proof {
                    if i == ranges@.len() {
                        lemma_first_at_is(ls, 1, not_header, i as int);
                    }
                }
            },
        }
    }
    let body = if i < ranges.len() {
        Some(join_pieces(chars, ranges, i))
    } else {
        None
    };
    assert(pairs_view(headers@) =~= Seq::new((i - 1) as nat, |j: int| header_of(ls[j + 1])));
    Ok((headers, body))
}

/// The method and the URL token of a request file: the two tokens of its
/// first line.
pub fn request_target(text: &str) -> (r: Result<(Method, String), ErrorKind>)
    ensures
        match r {
            Ok(found) => target(text@) == Ok::<(Method, Seq<char>), ErrorKind>(
                (found.0, found.1@),
            ),
            Err(e) => target(text@) == Err::<(Method, Seq<char>), ErrorKind>(e),
        },
{
    let chars = chars_of(text);
    let ranges = split_lines(chars.as_slice());
    read_target(chars.as_slice(), &ranges)
}

/// Puts a request together from the lines and from what the URL token
/// parsed to.
fn assemble(chars: &[char], ranges: &Vec<(usize, usize)>, method: Method, url: Option<String>) -> (r:
    Result<RequestInner, ErrorKind>)
    requires
        ranges_within(ranges@, chars@.len()),
        pieces(chars@, ranges@) == lines(chars@),
        target(chars@) matches Ok(found) && found.0 == method,
    ensures
        match r {
            Ok(req) => compiled_with(
                chars@,
                match url {
                    Some(u) => Some(u@),
                    None => None,
                },
            ) == Ok::<Compiled, ErrorKind>(req@),
            Err(e) => compiled_with(
                chars@,
                match url {
                    Some(u) => Some(u@),
                    None => None,
                },
            ) == Err::<Compiled, ErrorKind>(e),
        },
{
    let url = match url {
        None => {
            return Err(ErrorKind::InvalidUrl);
        },
        Some(url) => url,
    };
    let (headers, body) = match read_content(chars, ranges) {
        Err(e) => {
            return Err(e);
        },
        Ok(content) => content,
    };
    proof {
        assert(compiled_with(chars@, Some(url@)) == Ok::<Compiled, ErrorKind>(
            Compiled {
                method,
                url: url@,
                headers: pairs_view(headers@),
                body: match body {
                    Some(b) => Some(b@),
                    None => None,
                },
            },
        ));
    }
    Ok(RequestInner { method, url, headers, body })
}

/// Compiles the text of a request file, given what its URL token parsed
/// to: `None` where the token is no absolute URL.
pub fn compile_with_url(text: &str, url: Option<String>) -> (r: Result<RequestInner, ErrorKind>)
    ensures
        match r {
            Ok(req) => compiled_with(
                text@,
                match url {
                    Some(u) => Some(u@),
                    None => None,
                },
            ) == Ok::<Compiled, ErrorKind>(req@),
            Err(e) => compiled_with(
                text@,
                match url {
                    Some(u) => Some(u@),
                    None => None,
                },
            ) == Err::<Compiled, ErrorKind>(e),
        },
{
    let chars = chars_of(text);
    let ranges = split_lines(chars.as_slice());
    match read_target(chars.as_slice(), &ranges) {
        Err(e) => Err(e),
        Ok(found) => assemble(chars.as_slice(), &ranges, found.0, url),
    }
}

/// Compiles the text of a request file.
pub fn compile(text: &str) -> (r: Result<RequestInner, ErrorKind>)
    ensures
        match r {
            Ok(req) => compiled(text@) == Ok::<Compiled, ErrorKind>(req@),
            Err(e) => compiled(text@) == Err::<Compiled, ErrorKind>(e),
        },
{
    let chars = chars_of(text);
    let ranges = split_lines(chars.as_slice());
    match read_target(chars.as_slice(), &ranges) {
        Err(e) => Err(e),
        Ok(found) => {
            let url = match parse_url(found.1.as_str()) {
                Ok(url) => Some(url),
                Err(_) => None,
            };
            assemble(chars.as_slice(), &ranges, found.0, url)
        },
    }
}

/// The name of the request stored at `fpath` below the directory `dir`:
/// the path without the directory, without `/` and without `.reqq`.
pub open spec fn request_name(fpath: Seq<char>, dir: Seq<char>) -> Seq<char> {
    trim_end_matches(
        trim_start_matches(trim_start_matches(fpath, dir), seq!['/']),
        seq!['.', 'r', 'e', 'q', 'q'],
    )
}

/// The context that a request is rendered against, given what the
/// environment has loaded (`None`: there is no environment) and the
/// overrides.
pub open spec fn env_context(
    env: Option<Option<Seq<char>>>,
    overrides: Seq<(Seq<char>, Seq<char>)>,
) -> Result<Option<Seq<char>>, ErrorKind> {
    match env {
        None => Ok(context_text(None, overrides)),
        Some(loaded) => match env_document(loaded) {
            Err(e) => Err(e),
            Ok(doc) => Ok(context_text(Some(doc), overrides)),
        },
    }
}

/// The text that is compiled: the template, rendered where there is a
/// context.
pub open spec fn prepared(
    template: Option<Seq<char>>,
    env: Option<Option<Seq<char>>>,
    overrides: Seq<(Seq<char>, Seq<char>)>,
) -> Result<Seq<char>, ErrorKind> {
    match template {
        None => Err(ErrorKind::RequestNotFound),
        Some(text) => match env_context(env, overrides) {
            Err(e) => Err(e),
            Ok(context) => render_result(text, context),
        },
    }
}

/// The rendered text and what it compiles to.
pub open spec fn executed(
    template: Option<Seq<char>>,
    env: Option<Option<Seq<char>>>,
    overrides: Seq<(Seq<char>, Seq<char>)>,
) -> Result<(Seq<char>, Compiled), ErrorKind> {
    match prepared(template, env, overrides) {
        Err(e) => Err(e),
        Ok(text) => match compiled(text) {
            Err(e) => Err(e),
            Ok(request) => Ok((text, request)),
        },
    }
}

/// What an environment that may be absent has loaded.
pub open spec fn env_loaded(env: Option<Env>) -> Option<Option<Seq<char>>> {
    match env {
        Some(e) => Some(e.loaded()),
        None => None,
    }
}

/// A request file: where it is stored, its text once that is loaded, and
/// what the text compiled to.
#[derive(Debug)]
pub struct Request {
    pub fpath: String,
    pub fstr: Option<String>,
    pub inner: Option<RequestInner>,
}

impl Clone for Request {
    fn clone(&self) -> (copy: Self)
        ensures
            copy.fpath@ == self.fpath@,
            copy.loaded() == self.loaded(),
            copy.compiled() == self.compiled(),
    {
        Request {
            fpath: self.fpath.clone(),
            fstr: match &self.fstr {
                Some(text) => Some(text.clone()),
                None => None,
            },
            inner: match &self.inner {
                Some(inner) => Some(inner.clone()),
                None => None,
            },
        }
    }
}

impl Request {
    /// The text that the request has loaded, or rendered.
    pub open spec fn loaded(&self) -> Option<Seq<char>> {
        match self.fstr {
            Some(text) => Some(text@),
            None => None,
        }
    }

    /// What the request has compiled to.
    pub open spec fn compiled(&self) -> Option<Compiled> {
        match self.inner {
            Some(inner) => Some(inner@),
            None => None,
        }
    }

    /// A request that is stored at `fpath` and not loaded yet.
    pub fn new(fpath: String) -> (req: Request)
        ensures
            req.fpath == fpath,
            req.fstr is None,
            req.inner is None,
    {
        Request { fpath, fstr: None, inner: None }
    }

    /// The name under which the request is known.
    pub fn name(&self, dir: &str) -> (name: String)
        ensures
            name@ == request_name(self.fpath@, dir@),
    {
        let path = chars_of(self.fpath.as_str());
        let dir = chars_of(dir);
        let n = path.len();
        let a = trim_start(path.as_slice(), 0, n, dir.as_slice());
        let b = trim_start(path.as_slice(), a, n, &['/']);
        let c = trim_end(path.as_slice(), b, n, &['.', 'r', 'e', 'q', 'q']);
        proof {
            assert(path@.subrange(0, n as int) =~= path@);
            assert(['/']@ =~= seq!['/']);
            assert(['.', 'r', 'e', 'q', 'q']@ =~= seq!['.', 'r', 'e', 'q', 'q']);
        }
        string_of(path.as_slice(), b, c)
    }

    /// Takes the contents of the file. A request that is loaded keeps what
    /// it has: its contents are read once.
    pub fn load(&mut self, contents: String)
        ensures
            final(self).fpath == old(self).fpath,
            final(self).inner == old(self).inner,
            final(self).fstr == if old(self).fstr is Some {
                old(self).fstr
            } else {
                Some(contents)
            },
    {
        if self.fstr.is_none() {
            self.fstr = Some(contents);
        }
    }

    /// The text to compile: the loaded text, rendered against the
    /// environment and the overrides where there are any.
    fn prepare(&self, env: &Option<Env>, extra_args: &Vec<(String, String)>) -> (r: Result<
        String,
        ErrorKind,
    >)
        ensures
            match r {
                Ok(text) => prepared(self.loaded(), env_loaded(*env), pairs_view(extra_args@))
                    == Ok::<Seq<char>, ErrorKind>(text@),
                Err(e) => prepared(self.loaded(), env_loaded(*env), pairs_view(extra_args@))
                    == Err::<Seq<char>, ErrorKind>(e),
            },
    {
        let template = match &self.fstr {
            None => {
                return Err(ErrorKind::RequestNotFound);
            },
            Some(text) => text,
        };
        let value = match env {
            None => None,
            Some(e) => match e.json() {
                Err(e) => {
                    return Err(e);
                },
                Ok(v) => Some(v),
            },
        };
        match context(value, extra_args) {
            None => Ok(template.clone()),
            Some(ctx) => render(template.as_str(), &ctx),
        }
    }

    /// Renders the loaded text against an environment and the overrides, and
    /// keeps the result in place of the text. On an error nothing changes.
    pub fn apply_env(&mut self, env: Env, extra_args: &Vec<(String, String)>) -> (r: Result<
        (),
        ErrorKind,
    >)
        ensures
            final(self).fpath == old(self).fpath,
            final(self).inner == old(self).inner,
            match r {
                Ok(_) => final(self).fstr is Some && prepared(
                    old(self).loaded(),
                    Some(env.loaded()),
                    pairs_view(extra_args@),
                ) == Ok::<Seq<char>, ErrorKind>(final(self).fstr->0@),
                Err(e) => final(self).fstr == old(self).fstr && prepared(
                    old(self).loaded(),
                    Some(env.loaded()),
                    pairs_view(extra_args@),
                ) == Err::<Seq<char>, ErrorKind>(e),
            },
    {
        let env = Some(env);
        match self.prepare(&env, extra_args) {
            Err(e) => Err(e),
            Ok(text) => {
                self.fstr = Some(text);
                Ok(())
            },
        }
    }

    /// Compiles the request for an environment and overrides, keeps the
    /// rendered text and the compiled request, and returns the request to
    /// send. On an error nothing changes.
    pub fn execute(&mut self, env: Option<Env>, extra_args: &Vec<(String, String)>) -> (r: Result<
        RequestInner,
        ErrorKind,
    >)
        ensures
            final(self).fpath == old(self).fpath,
            match r {
                Ok(request) => {
                    &&& executed(old(self).loaded(), env_loaded(env), pairs_view(extra_args@))
                        == Ok::<(Seq<char>, Compiled), ErrorKind>(
                        (final(self).fstr->0@, request@),
                    )
                    &&& final(self).fstr is Some
                    &&& final(self).compiled() == Some(request@)
                },
                Err(e) => {
                    &&& executed(old(self).loaded(), env_loaded(env), pairs_view(extra_args@))
                        == Err::<(Seq<char>, Compiled), ErrorKind>(e)
                    &&& final(self).fstr == old(self).fstr
                    &&& final(self).inner == old(self).inner
                },
            },
    {
        let text = match self.prepare(&env, extra_args) {
            Err(e) => {
                return Err(e);
            },
            Ok(text) => text,
        };
        let request = match compile(text.as_str()) {
            Err(e) => {
                return Err(e);
            },
            Ok(request) => request,
        };
        let copy = request.clone();
        self.fstr = Some(text);
        self.inner = Some(request);
        Ok(copy)
    }

    /// Compiles the request, for an environment where one is given, and
    /// keeps the rendered text and the compiled request. On an error nothing
    /// changes.
    pub fn parse(&mut self, env: Option<Env>) -> (r: Result<(), ErrorKind>)
        ensures
            final(self).fpath == old(self).fpath,
            match r {
                Ok(_) => {
                    &&& final(self).fstr is Some
                    &&& final(self).inner is Some
                    &&& executed(old(self).loaded(), env_loaded(env), Seq::empty()) == Ok::<
                        (Seq<char>, Compiled),
                        ErrorKind,
                    >((final(self).fstr->0@, final(self).inner->0@))
                },
                Err(e) => {
                    &&& executed(old(self).loaded(), env_loaded(env), Seq::empty()) == Err::<
                        (Seq<char>, Compiled),
                        ErrorKind,
                    >(e)
                    &&& final(self).fstr == old(self).fstr
                    &&& final(self).inner == old(self).inner
                },
            },
    {
        let extra_args: Vec<(String, String)> = Vec::new();
        assert(pairs_view(extra_args@) =~= Seq::empty());
        match self.execute(env, &extra_args) {
            Err(e) => Err(e),
            Ok(_) => Ok(()),
        }
    }
}

} // verus!
