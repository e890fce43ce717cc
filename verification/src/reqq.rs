//! The catalog of requests and environments.

use vstd::prelude::*;
use crate::env::{env_name, Env};
use crate::error::ErrorKind;
use crate::execution::{planned, progress, Execution, Pending, Progress, Run, Step};
use crate::order::{ordered, sort_names};
use crate::request::{request_name, Request};
use crate::text::{
    chars_of, first_at, lemma_first_at_is, match_at, pairs_view, starts_with, strings_view,
    trim_start, trim_start_matches,
};

verus! {

/// Where the catalog lies, and how responses are shown.
pub struct ReqqOpts<'a> {
    pub dir: &'a str,
    pub raw: bool,
}

/// The requests and environments that are stored below one directory.
pub struct Reqq<'a> {
    dir: &'a str,
    reqs: Vec<Request>,
    envs: Vec<Env>,
    raw: bool,
}

/// A catalog, as plain values: the paths of its request files and of its
/// environment files.
pub struct Catalog {
    pub dir: Seq<char>,
    pub requests: Seq<Seq<char>>,
    pub envs: Seq<Seq<char>>,
    pub raw: bool,
}

/// The folder below `dir` that holds the environments.
pub open spec fn env_folder(dir: Seq<char>) -> Seq<char> {
    dir + seq!['/', 'e', 'n', 'v', 's']
}

/// Whether the catalog lists the file at `fpath`: a path that is nothing but
/// the directory is left out.
pub open spec fn is_listed(fpath: Seq<char>, dir: Seq<char>) -> bool {
    trim_start_matches(fpath, dir).len() > 0
}

/// Whether the file at `fpath` is an environment: it is, where its path
/// starts with the folder of the environments.
pub open spec fn is_env_path(fpath: Seq<char>, dir: Seq<char>) -> bool {
    is_listed(fpath, dir) && starts_with(fpath, env_folder(dir))
}

/// Whether the file at `fpath` is a request: every listed file outside the
/// folder of the environments is.
pub open spec fn is_request_path(fpath: Seq<char>, dir: Seq<char>) -> bool {
    is_listed(fpath, dir) && !starts_with(fpath, env_folder(dir))
}

/// The paths of the requests.
pub open spec fn request_paths(reqs: Seq<Request>) -> Seq<Seq<char>> {
    Seq::new(reqs.len(), |i: int| reqs[i].fpath@)
}

/// The paths of the environments.
pub open spec fn env_paths(envs: Seq<Env>) -> Seq<Seq<char>> {
    Seq::new(envs.len(), |i: int| envs[i].fpath@)
}

/// The catalog of the files at `fpaths`: requests and environments, each in
/// the order of `fpaths`.
pub open spec fn catalog_of(dir: Seq<char>, raw: bool, fpaths: Seq<Seq<char>>) -> Catalog {
    Catalog {
        dir,
        requests: fpaths.filter(|f: Seq<char>| is_request_path(f, dir)),
        envs: fpaths.filter(|f: Seq<char>| is_env_path(f, dir)),
        raw,
    }
}

/// Index of the first request of the catalog with the given name, or the
/// number of requests where none has it.
pub open spec fn request_at(catalog: Catalog, name: Seq<char>) -> int {
    first_at(catalog.requests, 0, |f: Seq<char>| request_name(f, catalog.dir) == name)
}

/// Index of the first environment of the catalog with the given name, or the
/// number of environments where none has it.
pub open spec fn env_at(catalog: Catalog, name: Seq<char>) -> int {
    first_at(catalog.envs, 0, |f: Seq<char>| env_name(f, catalog.dir) == name)
}

/// The names of the requests, in the order of the catalog.
pub open spec fn request_names(catalog: Catalog) -> Seq<Seq<char>> {
    Seq::new(catalog.requests.len(), |i: int| request_name(catalog.requests[i], catalog.dir))
}

/// The names of the environments, in the order of the catalog.
pub open spec fn env_names(catalog: Catalog) -> Seq<Seq<char>> {
    Seq::new(catalog.envs.len(), |i: int| env_name(catalog.envs[i], catalog.dir))
}

impl<'a> View for Reqq<'a> {
    type V = Catalog;

    closed spec fn view(&self) -> Catalog {
        Catalog {
            dir: self.dir@,
            requests: request_paths(self.reqs@),
            envs: env_paths(self.envs@),
            raw: self.raw,
        }
    }
}

impl<'a> Reqq<'a> {
    /// Nothing in the catalog is loaded: each execution reads its files
    /// itself.
    #[verifier::type_invariant]
    spec fn unloaded(self) -> bool {
        &&& forall|i: int|
            0 <= i < self.reqs@.len() ==> (#[trigger] self.reqs@[i]).fstr is None
                && self.reqs@[i].inner is None
        &&& forall|i: int| 0 <= i < self.envs@.len() ==> (#[trigger] self.envs@[i]).fstr is None
    }

    /// Builds the catalog of the directory `opts.dir` from the paths of the
    /// files found below it.
    pub fn new(opts: ReqqOpts<'a>, fpaths: Vec<String>) -> (r: Result<Reqq<'a>, ErrorKind>)
        ensures
            r matches Ok(reqq) && reqq@ == catalog_of(opts.dir@, opts.raw, strings_view(fpaths@)),
    {
        let dir = chars_of(opts.dir);
        let mut folder = chars_of(opts.dir);
        folder.push('/');
        folder.push('e');
        folder.push('n');
        folder.push('v');
        folder.push('s');
        assert(folder@ =~= env_folder(opts.dir@));
        let ghost all = strings_view(fpaths@);
        let ghost is_req = |f: Seq<char>| is_request_path(f, opts.dir@);
        let ghost is_env = |f: Seq<char>| is_env_path(f, opts.dir@);
        let mut reqs: Vec<Request> = Vec::new();
        let mut envs: Vec<Env> = Vec::new();
        let mut i: usize = 0;
        proof {
            reveal(Seq::filter);
            assert(all.take(0) =~= Seq::empty());
            assert(request_paths(reqs@) =~= all.take(0).filter(is_req));
            assert(env_paths(envs@) =~= all.take(0).filter(is_env));
        }
        while i < fpaths.len()
            invariant
                i <= fpaths@.len(),
                all == strings_view(fpaths@),
                dir@ == opts.dir@,
                folder@ == env_folder(opts.dir@),
                is_req == |f: Seq<char>| is_request_path(f, opts.dir@),
                is_env == |f: Seq<char>| is_env_path(f, opts.dir@),
                request_paths(reqs@) == all.take(i as int).filter(is_req),
                env_paths(envs@) == all.take(i as int).filter(is_env),
                forall|j: int|
                    0 <= j < reqs@.len() ==> (#[trigger] reqs@[j]).fstr is None
                        && reqs@[j].inner is None,
                forall|j: int| 0 <= j < envs@.len() ==> (#[trigger] envs@[j]).fstr is None,
            decreases fpaths@.len() - i,
        {
            let path = chars_of(fpaths[i].as_str());
            let n = path.len();
            let listed = trim_start(path.as_slice(), 0, n, dir.as_slice()) < n;
            let in_folder = match_at(path.as_slice(), 0, folder.as_slice());
            proof {
                reveal(Seq::filter);
                let next = all.take(i + 1);
                assert(next.drop_last() =~= all.take(i as int));
                assert(next.last() == path@);
                assert(path@.subrange(0, n as int) =~= path@);
            }
            if listed && in_folder {
                let ghost before = env_paths(envs@);
                envs.push(Env::new(fpaths[i].clone()));
                assert(env_paths(envs@) =~= before.push(path@));
            } else if listed {
                let ghost before = request_paths(reqs@);
                reqs.push(Request::new(fpaths[i].clone()));
                assert(request_paths(reqs@) =~= before.push(path@));
            }
            i += 1;
        }
        assert(all.take(fpaths@.len() as int) =~= all);
        Ok(Reqq { dir: opts.dir, reqs, envs, raw: opts.raw })
    }

    /// The names of all requests, in order. A name that two requests share
    /// is listed twice.
    pub fn list_reqs(&self) -> (names: Vec<String>)
        ensures
            ordered(strings_view(names@)),
            strings_view(names@).to_multiset() == request_names(self@).to_multiset(),
    {
        let mut names: Vec<String> = Vec::new();
        let mut i: usize = 0;
        while i < self.reqs.len()
            invariant
                i <= self.reqs@.len(),
                names@.len() == i,
                forall|j: int|
                    0 <= j < i ==> (#[trigger] names@[j])@ == request_name(
                        self.reqs@[j].fpath@,
                        self.dir@,
                    ),
            decreases self.reqs@.len() - i,
        {
            names.push(self.reqs[i].name(self.dir));
            i += 1;
        }
        assert(strings_view(names@) =~= request_names(self@));
        sort_names(&names)
    }

    /// The names of all environments, in order. A name that two
    /// environments share is listed twice.
    pub fn list_envs(&self) -> (names: Vec<String>)
        ensures
            ordered(strings_view(names@)),
            strings_view(names@).to_multiset() == env_names(self@).to_multiset(),
    {
        let mut names: Vec<String> = Vec::new();
        let mut i: usize = 0;
        while i < self.envs.len()
            invariant
                i <= self.envs@.len(),
                names@.len() == i,
                forall|j: int|
                    0 <= j < i ==> (#[trigger] names@[j])@ == env_name(
                        self.envs@[j].fpath@,
                        self.dir@,
                    ),
            decreases self.envs@.len() - i,
        {
            names.push(self.envs[i].name(self.dir));
            i += 1;
        }
        assert(strings_view(names@) =~= env_names(self@));
        sort_names(&names)
    }

    /// Looks up a request by name. Of two requests of one name, the first in
    /// the catalog is found.
    pub fn get_req(&self, name: &str) -> (r: Result<Request, ErrorKind>)
        ensures
            match r {
                Ok(req) => {
                    &&& request_at(self@, name@) < self@.requests.len()
                    &&& req.fpath@ == self@.requests[request_at(self@, name@)]
                    &&& req.fstr is None
                    &&& req.inner is None
                },
                Err(e) => e == ErrorKind::RequestNotFound && request_at(self@, name@)
                    == self@.requests.len(),
            },
    {
        proof {
            use_type_invariant(self);
        }
        let ghost named = |f: Seq<char>| request_name(f, self@.dir) == name@;
        let wanted = String::from_str(name);
        let mut i: usize = 0;
        while i < self.reqs.len()
            invariant
                i <= self.reqs@.len(),
                wanted@ == name@,
                named == |f: Seq<char>| request_name(f, self@.dir) == name@,
                forall|j: int| 0 <= j < i ==> !named(#[trigger] self@.requests[j]),
            decreases self.reqs@.len() - i,
        {
            assert(self@.requests[i as int] == self.reqs@[i as int].fpath@);
            if self.reqs[i].name(self.dir) == wanted {
                proof {
                    lemma_first_at_is(self@.requests, 0, named, i as int);
                }
                return Ok(Request::new(self.reqs[i].fpath.clone()));
            }
            i += 1;
        }
        proof {
            lemma_first_at_is(self@.requests, 0, named, i as int);
        }
        Err(ErrorKind::RequestNotFound)
    }

    /// Looks up an environment by name. Of two environments of one name, the
    /// first in the catalog is found.
    pub fn get_env(&self, name: &str) -> (r: Result<Env, ErrorKind>)
        ensures
            match r {
                Ok(env) => {
                    &&& env_at(self@, name@) < self@.envs.len()
                    &&& env.fpath@ == self@.envs[env_at(self@, name@)]
                    &&& env.fstr is None
                },
                Err(e) => e == ErrorKind::EnvironmentNotFound && env_at(self@, name@)
                    == self@.envs.len(),
            },
    {
        let ghost named = |f: Seq<char>| env_name(f, self@.dir) == name@;
        let wanted = String::from_str(name);
        let mut i: usize = 0;
        while i < self.envs.len()
            invariant
                i <= self.envs@.len(),
                wanted@ == name@,
                named == |f: Seq<char>| env_name(f, self@.dir) == name@,
                forall|j: int| 0 <= j < i ==> !named(#[trigger] self@.envs[j]),
            decreases self.envs@.len() - i,
        {
            assert(self@.envs[i as int] == self.envs@[i as int].fpath@);
            if self.envs[i].name(self.dir) == wanted {
                proof {
                    lemma_first_at_is(self@.envs, 0, named, i as int);
                }
                return Ok(Env::new(self.envs[i].fpath.clone()));
            }
            i += 1;
        }
        proof {
            lemma_first_at_is(self@.envs, 0, named, i as int);
        }
        Err(ErrorKind::EnvironmentNotFound)
    }
}

/// How the execution of the request `name` starts. The request is looked up
/// first, then the environment where one is named; nothing is read or sent
/// for a name that the catalog does not have.
pub open spec fn started(
    catalog: Catalog,
    name: Seq<char>,
    env_name: Option<Seq<char>>,
    overrides: Seq<(Seq<char>, Seq<char>)>,
) -> Result<Progress, ErrorKind> {
    let at = request_at(catalog, name);
    if at >= catalog.requests.len() {
        Err(ErrorKind::RequestNotFound)
    } else {
        let run = Run {
            path: catalog.requests[at],
            template: None,
            env: None,
            overrides,
            raw: catalog.raw,
            pending: Pending::Request,
        };
        match env_name {
            None => planned(run),
            Some(n) => {
                let e = env_at(catalog, n);
                if e >= catalog.envs.len() {
                    Err(ErrorKind::EnvironmentNotFound)
                } else {
                    planned(Run { env: Some((catalog.envs[e], None)), ..run })
                }
            },
        }
    }
}

impl<'a> Reqq<'a> {
    /// Starts the execution of the request `req_name`, with the environment
    /// `env_name` where one is named, and with the overrides `extra_args`.
    pub fn execute(
        &self,
        req_name: &str,
        env_name: Option<String>,
        extra_args: Vec<(String, String)>,
    ) -> (r: Result<Step, ErrorKind>)
        ensures
            progress(r) == started(
                self@,
                req_name@,
                match env_name {
                    Some(n) => Some(n@),
                    None => None,
                },
                pairs_view(extra_args@),
            ),
            request_at(self@, req_name@) == self@.requests.len() ==> r == Err::<Step, ErrorKind>(
                ErrorKind::RequestNotFound,
            ),
    {
        let req = match self.get_req(req_name) {
            Err(e) => {
                return Err(e);
            },
            Ok(req) => req,
        };
        let env = match env_name {
            None => None,
            Some(n) => match self.get_env(n.as_str()) {
                Err(e) => {
                    return Err(e);
                },
                Ok(env) => Some(env),
            },
        };
        Execution::begin(req, env, extra_args, self.raw)
    }
}

/// For a request that the catalog does not have nothing is read and
/// nothing is sent: the execution ends before it has begun.
pub proof fn lemma_unknown_request_asks_nothing(
    catalog: Catalog,
    name: Seq<char>,
    env_name: Option<Seq<char>>,
    overrides: Seq<(Seq<char>, Seq<char>)>,
)
    requires
        forall|i: int|
            0 <= i < catalog.requests.len() ==> request_name(
                #[trigger] catalog.requests[i],
                catalog.dir,
            ) != name,
    ensures
        started(catalog, name, env_name, overrides) == Err::<Progress, ErrorKind>(
            ErrorKind::RequestNotFound,
        ),
{
    lemma_first_at_is(
        catalog.requests,
        0,
        |f: Seq<char>| request_name(f, catalog.dir) == name,
        catalog.requests.len() as int,
    );
}

} // verus!
