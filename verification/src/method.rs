//! The HTTP verbs.

use vstd::prelude::*;

verus! {

/// The HTTP verbs that a request file may name.
#[derive(Clone, Copy, Debug, PartialEq, Eq, Structural)]
pub enum Method {
    Options,
    Get,
    Post,
    Put,
    Delete,
    Head,
    Trace,
    Connect,
    Patch,
}

impl Method {
    /// The verb as it is written in a request file and sent on the wire.
    pub open spec fn name(self) -> Seq<char> {
        match self {
            Method::Options => "OPTIONS"@,
            Method::Get => "GET"@,
            Method::Post => "POST"@,
            Method::Put => "PUT"@,
            Method::Delete => "DELETE"@,
            Method::Head => "HEAD"@,
            Method::Trace => "TRACE"@,
            Method::Connect => "CONNECT"@,
            Method::Patch => "PATCH"@,
        }
    }

    /// The verb that `token` spells, letter for letter and in upper case.
    pub open spec fn named(token: Seq<char>) -> Option<Method> {
        if token == Method::Options.name() {
            Some(Method::Options)
        } else if token == Method::Get.name() {
            Some(Method::Get)
        } else if token == Method::Post.name() {
            Some(Method::Post)
        } else if token == Method::Put.name() {
            Some(Method::Put)
        } else if token == Method::Delete.name() {
            Some(Method::Delete)
        } else if token == Method::Head.name() {
            Some(Method::Head)
        } else if token == Method::Trace.name() {
            Some(Method::Trace)
        } else if token == Method::Connect.name() {
            Some(Method::Connect)
        } else if token == Method::Patch.name() {
            Some(Method::Patch)
        } else {
            None
        }
    }

    /// The verb as it is written in a request file and sent on the wire.
    pub fn as_str(&self) -> (s: &'static str)
        ensures
            s@ == self.name(),
    {
        match self {
            Method::Options => "OPTIONS",
            Method::Get => "GET",
            Method::Post => "POST",
            Method::Put => "PUT",
            Method::Delete => "DELETE",
            Method::Head => "HEAD",
            Method::Trace => "TRACE",
            Method::Connect => "CONNECT",
            Method::Patch => "PATCH",
        }
    }

    /// Reads a verb.
    pub fn from_token(token: &str) -> (r: Option<Method>)
        ensures
            r == Method::named(token@),
    {
        let word = String::from_str(token);
        if word == String::from_str(Method::Options.as_str()) {
            Some(Method::Options)
        } else if word == String::from_str(Method::Get.as_str()) {
            Some(Method::Get)
        } else if word == String::from_str(Method::Post.as_str()) {
            Some(Method::Post)
        } else if word == String::from_str(Method::Put.as_str()) {
            Some(Method::Put)
        } else if word == String::from_str(Method::Delete.as_str()) {
            Some(Method::Delete)
        } else if word == String::from_str(Method::Head.as_str()) {
            Some(Method::Head)
        } else if word == String::from_str(Method::Trace.as_str()) {
            Some(Method::Trace)
        } else if word == String::from_str(Method::Connect.as_str()) {
            Some(Method::Connect)
        } else if word == String::from_str(Method::Patch.as_str()) {
            Some(Method::Patch)
        } else {
            None
        }
    }
}

} // verus!
