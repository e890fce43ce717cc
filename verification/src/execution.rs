//! The course of one execution: what is read, what is sent, and what is
//! shown in the end.

use vstd::prelude::*;
use crate::env::Env;
use crate::error::ErrorKind;
use crate::format::{format_response, formatted, Reply, Response};
use crate::request::{executed, Compiled, Request, RequestInner};
use crate::text::pairs_view;

verus! {

/// What an execution waits for.
#[derive(Clone, Copy, Debug, PartialEq, Eq, Structural)]
pub enum Pending {
    /// The contents of the request file.
    Request,
    /// The contents of the environment file.
    Env,
    /// The response to the request that was sent.
    Response,
}

/// One execution of a request: what it has so far, and what it waits for.
/// The library does no reading and no sending itself. It says what is to
/// be done, and goes on when it is handed the outcome.
#[derive(Debug)]
pub struct Execution {
    req: Request,
    env: Option<Env>,
    extra_args: Vec<(String, String)>,
    raw: bool,
    pending: Pending,
}

/// What the caller is to do for an execution.
#[derive(Debug)]
pub enum Action {
    /// Read the file at this path.
    Read(String),
    /// Send this request.
    Send(RequestInner),
}

/// The outcome of what the caller did.
#[derive(Debug)]
pub enum Event {
    /// The contents of the file, or `None` where it could not be read.
    Read(Option<String>),
    /// The response, or `None` where the request could not be sent or
    /// nothing came back.
    Sent(Option<Response>),
}

/// Where an execution stands.
#[derive(Debug)]
pub enum Step {
    /// The caller is to perform the action and to resume the execution
    /// with its outcome.
    Next(Execution, Action),
    /// The execution is over; this is what is shown.
    Done(String),
}

/// An execution, as plain values.
pub struct Run {
    /// The path of the request file.
    pub path: Seq<char>,
    /// The text of the request, once loaded.
    pub template: Option<Seq<char>>,
    /// The path of the environment file and its text, once loaded.
    pub env: Option<(Seq<char>, Option<Seq<char>>)>,
    pub overrides: Seq<(Seq<char>, Seq<char>)>,
    pub raw: bool,
    pub pending: Pending,
}

/// An action, as plain values.
pub enum Task {
    Read(Seq<char>),
    Send(Compiled),
}

/// An event, as plain values.
pub enum Input {
    Read(Option<Seq<char>>),
    Sent(Option<Reply>),
}

/// A step, as plain values.
pub enum Progress {
    Next(Run, Task),
    Done(Seq<char>),
}

impl View for Execution {
    type V = Run;

    closed spec fn view(&self) -> Run {
        Run {
            path: self.req.fpath@,
            template: self.req.loaded(),
            env: match self.env {
                Some(env) => Some((env.fpath@, env.loaded())),
                None => None,
            },
            overrides: pairs_view(self.extra_args@),
            raw: self.raw,
            pending: self.pending,
        }
    }
}

impl View for Action {
    type V = Task;

    open spec fn view(&self) -> Task {
        match self {
            Action::Read(path) => Task::Read(path@),
            Action::Send(request) => Task::Send(request@),
        }
    }
}

impl View for Event {
    type V = Input;

    open spec fn view(&self) -> Input {
        match self {
            Event::Read(Some(text)) => Input::Read(Some(text@)),
            Event::Read(None) => Input::Read(None),
            Event::Sent(Some(resp)) => Input::Sent(Some(resp@)),
            Event::Sent(None) => Input::Sent(None),
        }
    }
}

impl View for Step {
    type V = Progress;

    open spec fn view(&self) -> Progress {
        match self {
            Step::Next(exec, action) => Progress::Next(exec@, action@),
            Step::Done(shown) => Progress::Done(shown@),
        }
    }
}

/// What the environment of a run has loaded; `None` where the run has no
/// environment.
pub open spec fn run_env(run: Run) -> Option<Option<Seq<char>>> {
    match run.env {
        Some(env) => Some(env.1),
        None => None,
    }
}

/// How a run goes on from what it has. It reads the request file first, then
/// the environment file where it has an environment. With both it compiles
/// the request, and has it sent.
pub open spec fn planned(run: Run) -> Result<Progress, ErrorKind> {
    if run.template is None {
        Ok(Progress::Next(Run { pending: Pending::Request, ..run }, Task::Read(run.path)))
    } else {
        match run.env {
            Some((file, None)) => Ok(
                Progress::Next(Run { pending: Pending::Env, ..run }, Task::Read(file)),
            ),
            _ => match executed(run.template, run_env(run), run.overrides) {
                Err(e) => Err(e),
                Ok((text, request)) => Ok(
                    Progress::Next(
                        Run { template: Some(text), pending: Pending::Response, ..run },
                        Task::Send(request),
                    ),
                ),
            },
        }
    }
}

/// The run with the contents of its request file, unless it has them.
pub open spec fn with_template(run: Run, text: Seq<char>) -> Run {
    if run.template is Some {
        run
    } else {
        Run { template: Some(text), ..run }
    }
}

/// The run with the contents of its environment file, unless it has them.
pub open spec fn with_env_text(run: Run, text: Seq<char>) -> Run {
    match run.env {
        Some((file, None)) => Run { env: Some((file, Some(text))), ..run },
        _ => run,
    }
}

/// How a run goes on when it is handed an event. An event that is not the
/// outcome it waits for counts as the failure of what it waits for: a
/// request file that cannot be had is a request that was not found.
pub open spec fn resumed(run: Run, input: Input) -> Result<Progress, ErrorKind> {
    match run.pending {
        Pending::Request => match input {
            Input::Read(Some(text)) => planned(with_template(run, text)),
            _ => Err(ErrorKind::RequestNotFound),
        },
        Pending::Env => match input {
            Input::Read(Some(text)) => planned(with_env_text(run, text)),
            _ => Err(ErrorKind::ConfigReadError),
        },
        Pending::Response => match input {
            Input::Sent(Some(reply)) => Ok(Progress::Done(formatted(reply, run.raw))),
            _ => Err(ErrorKind::TransportError),
        },
    }
}

/// The view of a step, or the error.
pub open spec fn progress(r: Result<Step, ErrorKind>) -> Result<Progress, ErrorKind> {
    match r {
        Ok(step) => Ok(step@),
        Err(e) => Err(e),
    }
}

impl Execution {
    /// Begins the execution of a request, with an environment where there
    /// is one.
    pub(crate) fn begin(
        req: Request,
        env: Option<Env>,
        extra_args: Vec<(String, String)>,
        raw: bool,
    ) -> (r: Result<Step, ErrorKind>)
        ensures
            progress(r) == planned(
                Run {
                    path: req.fpath@,
                    template: req.loaded(),
                    env: match env {
                        Some(env) => Some((env.fpath@, env.loaded())),
                        None => None,
                    },
                    overrides: pairs_view(extra_args@),
                    raw,
                    pending: Pending::Request,
                },
            ),
    {
        Execution { req, env, extra_args, raw, pending: Pending::Request }.plan()
    }

    /// Goes on from what the execution has.
    fn plan(self) -> (r: Result<Step, ErrorKind>)
        ensures
            progress(r) == planned(self@),
    {
        let Execution { mut req, env, extra_args, raw, pending } = self;
        if req.fstr.is_none() {
            let path = req.fpath.clone();
            return Ok(
                Step::Next(
                    Execution { req, env, extra_args, raw, pending: Pending::Request },
                    Action::Read(path),
                ),
            );
        }
        let copy = match &env {
            None => None,
            Some(e) => {
                if e.fstr.is_none() {
                    let path = e.fpath.clone();
                    return Ok(
                        Step::Next(
                            Execution { req, env, extra_args, raw, pending: Pending::Env },
                            Action::Read(path),
                        ),
                    );
                }
                Some(e.clone())
            },
        };
        match req.execute(copy, &extra_args) {
            Err(e) => Err(e),
            Ok(request) => Ok(
                Step::Next(
                    Execution { req, env, extra_args, raw, pending: Pending::Response },
                    Action::Send(request),
                ),
            ),
        }
    }

    /// Takes the outcome of the action that the execution waited for, and
    /// goes on.
    pub fn resume(self, event: Event) -> (r: Result<Step, ErrorKind>)
        ensures
            progress(r) == resumed(self@, event@),
    {
        let Execution { mut req, mut env, extra_args, raw, pending } = self;
        match pending {
            Pending::Request => match event {
                Event::Read(Some(text)) => {
                    req.load(text);
                    Execution { req, env, extra_args, raw, pending }.plan()
                },
                _ => Err(ErrorKind::RequestNotFound),
            },
            Pending::Env => match event {
                Event::Read(Some(text)) => {
                    let env = match env {
                        Some(mut e) => {
                            e.load(text);
                            Some(e)
                        },
                        None => None,
                    };
                    Execution { req, env, extra_args, raw, pending }.plan()
                },
                _ => Err(ErrorKind::ConfigReadError),
            },
            Pending::Response => match event {
                Event::Sent(Some(resp)) => Ok(Step::Done(format_response(resp, raw))),
                _ => Err(ErrorKind::TransportError),
            },
        }
    }
}

/// An execution sends one request: once it waits for the response, it ends
/// with the next event, whatever that is.
pub proof fn lemma_one_request_is_sent(run: Run, input: Input)
    requires
        run.pending == Pending::Response,
    ensures
        !(resumed(run, input) matches Ok(Progress::Next(_, _))),
{
}

/// An execution reads before it sends: it asks for a request to be sent
/// only when it has the text of the request, and that of the environment
/// where it has one.
pub proof fn lemma_reads_come_first(run: Run)
    requires
        planned(run) matches Ok(Progress::Next(_, Task::Send(_))),
    ensures
        run.template is Some,
        run.env matches Some(env) ==> env.1 is Some,
{
}


} // verus!
