//! Environments: named JSON documents that fill a request's placeholders.

use vstd::prelude::*;
use crate::bindings::{json_document, json_from_str, json_text};
use crate::error::ErrorKind;
use crate::text::{chars_of, string_of, trim_end, trim_end_matches, trim_start, trim_start_matches};

verus! {

/// An environment file: where it is stored and, once loaded, what it holds.
#[derive(Debug)]
pub struct Env {
    pub fpath: String,
    pub fstr: Option<String>,
}

/// The name of the environment stored at `fpath` below the directory `dir`:
/// the path without the directory, without `/envs/` and without `.json`.
pub open spec fn env_name(fpath: Seq<char>, dir: Seq<char>) -> Seq<char> {
    trim_end_matches(
        trim_start_matches(trim_start_matches(fpath, dir), seq!['/', 'e', 'n', 'v', 's', '/']),
        seq!['.', 'j', 's', 'o', 'n'],
    )
}

/// The document of an environment: that of the text it has loaded.
pub open spec fn env_document(loaded: Option<Seq<char>>) -> Result<Seq<char>, ErrorKind> {
    match loaded {
        None => Err(ErrorKind::ConfigReadError),
        Some(text) => match json_document(text) {
            None => Err(ErrorKind::ConfigParseError),
            Some(doc) => Ok(doc),
        },
    }
}

impl Clone for Env {
    fn clone(&self) -> (copy: Self)
        ensures
            copy.fpath@ == self.fpath@,
            copy.loaded() == self.loaded(),
    {
        Env {
            fpath: self.fpath.clone(),
            fstr: match &self.fstr {
                Some(text) => Some(text.clone()),
                None => None,
            },
        }
    }
}

impl Env {
    /// What the environment has loaded, as plain text.
    pub open spec fn loaded(&self) -> Option<Seq<char>> {
        match self.fstr {
            Some(text) => Some(text@),
            None => None,
        }
    }

    /// An environment that is stored at `fpath` and not loaded yet.
    pub fn new(fpath: String) -> (env: Env)
        ensures
            env.fpath == fpath,
            env.fstr is None,
    {
        Env { fpath, fstr: None }
    }

    /// The name under which the environment is known.
    pub fn name(&self, dir: &str) -> (name: String)
        ensures
            name@ == env_name(self.fpath@, dir@),
    {
        let path = chars_of(self.fpath.as_str());
        let dir = chars_of(dir);
        let n = path.len();
        let a = trim_start(path.as_slice(), 0, n, dir.as_slice());
        let b = trim_start(path.as_slice(), a, n, &['/', 'e', 'n', 'v', 's', '/']);
        let c = trim_end(path.as_slice(), b, n, &['.', 'j', 's', 'o', 'n']);
        proof {
            assert(path@.subrange(0, n as int) =~= path@);
            assert(['/', 'e', 'n', 'v', 's', '/']@ =~= seq!['/', 'e', 'n', 'v', 's', '/']);
            assert(['.', 'j', 's', 'o', 'n']@ =~= seq!['.', 'j', 's', 'o', 'n']);
        }
        string_of(path.as_slice(), b, c)
    }

    /// Takes the contents of the file. An environment that is loaded keeps
    /// what it has: its contents are read once.
    pub fn load(&mut self, contents: String)
        ensures
            final(self).fpath == old(self).fpath,
            final(self).fstr == if old(self).fstr is Some {
                old(self).fstr
            } else {
                Some(contents)
            },
    {
        if self.fstr.is_none() {
            self.fstr = Some(contents);
        }
    }

    /// The JSON value that the loaded text holds.
    pub fn json(&self) -> (r: Result<serde_json::Value, ErrorKind>)
        ensures
            match r {
                Ok(value) => env_document(self.loaded()) == Ok::<Seq<char>, ErrorKind>(
                    json_text(value),
                ),
                Err(e) => env_document(self.loaded()) == Err::<Seq<char>, ErrorKind>(e),
            },
    {
        match &self.fstr {
            None => Err(ErrorKind::ConfigReadError),
            Some(text) => match json_from_str(text.as_str()) {
                Err(_) => Err(ErrorKind::ConfigParseError),
                Ok(value) => Ok(value),
            },
        }
    }
}

} // verus!
