//! The ways in which compiling or executing a request can fail.

use vstd::prelude::*;

verus! {

/// Why an execution stopped. Every kind ends the execution it occurs in;
/// nothing is retried.
#[derive(Clone, Copy, Debug, PartialEq, Eq, Structural)]
pub enum ErrorKind {
    /// The contents of an environment could not be read.
    ConfigReadError,
    /// The contents of an environment are not a JSON document.
    ConfigParseError,
    /// The template holds a malformed placeholder.
    TemplateError,
    /// The catalog has no request of the given name.
    RequestNotFound,
    /// The catalog has no environment of the given name.
    EnvironmentNotFound,
    /// The first line is not a method and a URL.
    MalformedRequestLine,
    /// The method is not a known HTTP verb.
    InvalidMethod,
    /// The URL is not an absolute URL.
    InvalidUrl,
    /// A header's name or value holds bytes that a header cannot carry.
    InvalidHeader,
    /// The request could not be sent, or no response came back.
    TransportError,
}

impl ErrorKind {
    /// The text of `message`.
    pub open spec fn text(self) -> Seq<char> {
        match self {
            ErrorKind::ConfigReadError => "Failed to read the environment."@,
            ErrorKind::ConfigParseError => "The environment is not valid JSON."@,
            ErrorKind::TemplateError => "Failed to render the request template."@,
            ErrorKind::RequestNotFound => "Request not found."@,
            ErrorKind::EnvironmentNotFound => "Environment not found."@,
            ErrorKind::MalformedRequestLine => "Failed reading first line."@,
            ErrorKind::InvalidMethod => "Invalid HTTP method."@,
            ErrorKind::InvalidUrl => "Invalid URL."@,
            ErrorKind::InvalidHeader => "Invalid header."@,
            ErrorKind::TransportError => "Failed to send the request."@,
        }
    }

    /// A sentence for the person who ran the request.
    pub fn message(&self) -> (s: &'static str)
        ensures
            s@ == self.text(),
    {
        match self {
            ErrorKind::ConfigReadError => "Failed to read the environment.",
            ErrorKind::ConfigParseError => "The environment is not valid JSON.",
            ErrorKind::TemplateError => "Failed to render the request template.",
            ErrorKind::RequestNotFound => "Request not found.",
            ErrorKind::EnvironmentNotFound => "Environment not found.",
            ErrorKind::MalformedRequestLine => "Failed reading first line.",
            ErrorKind::InvalidMethod => "Invalid HTTP method.",
            ErrorKind::InvalidUrl => "Invalid URL.",
            ErrorKind::InvalidHeader => "Invalid header.",
            ErrorKind::TransportError => "Failed to send the request.",
        }
    }
}

} // verus!
