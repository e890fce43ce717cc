//! Stored HTTP requests: compile a request file against an environment,
//! and format the response that comes back.

pub mod args;
pub mod bindings;
pub mod env;
pub mod error;
pub mod execution;
pub mod format;
pub mod grammar;
pub mod header;
pub mod method;
pub mod order;
pub mod reqq;
pub mod request;
pub mod roundtrip;
pub mod template;
pub mod text;

pub use crate::args::{build_extra_args_map, parse_extra_arg};
pub use crate::env::Env;
pub use crate::error::ErrorKind;
pub use crate::execution::{Action, Event, Execution, Step};
pub use crate::format::{format_response, ContentType, Response};
pub use crate::method::Method;
pub use crate::request::{Request, RequestInner};
pub use crate::reqq::{Reqq, ReqqOpts};
