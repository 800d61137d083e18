use vstd::prelude::*;

use crate::config::{GitCmd, Remote, Repo};

verus! {

/// One operation's failure: the directory key it ran against and the
/// stringified exit status or launch error.
#[derive(Clone, Debug, PartialEq)]
pub struct GitError {
    pub key: String,
    pub msg: String,
}

impl GitError {
    pub fn new(key: String, msg: String) -> (r: GitError)
        ensures
            r.key@ == key@,
            r.msg@ == msg@,
    {
        GitError { key, msg }
    }

    /// The failure line shown for this error: `key: msg`.
    pub fn message(&self) -> (s: String)
        ensures
            s@ == self.key@ + ": "@ + self.msg@,
    {
        let mut s = self.key.clone();
        s.append(": ");
        s.append(self.msg.as_str());
        s
    }
}

/// One subprocess invocation, fully determined before it runs: the
/// program, its arguments in order, and the directory to run it in.
pub struct Invocation {
    pub program: String,
    pub args: Vec<String>,
    pub current_dir: Option<String>,
}

pub struct InvocationView {
    pub program: Seq<char>,
    pub args: Seq<Seq<char>>,
    pub current_dir: Option<Seq<char>>,
}

impl View for Invocation {
    type V = InvocationView;

    open spec fn view(&self) -> InvocationView {
        InvocationView {
            program: self.program@,
            args: self.args.deep_view(),
            current_dir: match self.current_dir {
                Some(d) => Some(d@),
                None => None,
            },
        }
    }
}

/// The invocation that clones `url` into `dir`:
/// `git -c color.ui=always clone <url> <dir>`, run from the current
/// directory.
pub open spec fn clone_invocation(git: Seq<char>, url: Seq<char>, dir: Seq<char>) -> InvocationView {
    InvocationView {
        program: git,
        args: seq!["-c"@, "color.ui=always"@, "clone"@, url, dir],
        current_dir: None,
    }
}

/// The invocation that fast-forward-pulls inside `dir`:
/// `git -c color.ui=always pull --ff-only`, run from `dir`.
pub open spec fn pull_invocation(git: Seq<char>, dir: Seq<char>) -> InvocationView {
    InvocationView {
        program: git,
        args: seq!["-c"@, "color.ui=always"@, "pull"@, "--ff-only"@],
        current_dir: Some(dir),
    }
}

impl GitCmd {
    /// The clone of `repo` into `dir`, as the exact subprocess
    /// invocation to run.
    pub fn cloner(&self, dir: &str, repo: &Repo) -> (inv: Invocation)
        ensures
            inv@ == clone_invocation(self@, repo.spec_url(), dir@),
    {
        let mut args: Vec<String> = Vec::new();
        args.push(String::from_str("-c"));
        args.push(String::from_str("color.ui=always"));
        args.push(String::from_str("clone"));
        args.push(repo.url());
        args.push(dir.to_owned());
        let inv = Invocation { program: self.path().to_owned(), args, current_dir: None };
        proof {
            assert(inv@.args =~= clone_invocation(self@, repo.spec_url(), dir@).args);
        }
        inv
    }

    /// The fast-forward-only pull inside `dir`, as the exact
    /// subprocess invocation to run.
    pub fn pull(&self, dir: &str) -> (inv: Invocation)
        ensures
            inv@ == pull_invocation(self@, dir@),
    {
        let mut args: Vec<String> = Vec::new();
        args.push(String::from_str("-c"));
        args.push(String::from_str("color.ui=always"));
        args.push(String::from_str("pull"));
        args.push(String::from_str("--ff-only"));
        let inv = Invocation {
            program: self.path().to_owned(),
            args,
            current_dir: Some(dir.to_owned()),
        };
        proof {
            assert(inv@.args =~= pull_invocation(self@, dir@).args);
        }
        inv
    }
}

/// Classifies one finished operation: a successful exit yields the
/// directory key; a non-zero exit or a launch failure yields a
/// `GitError` carrying the key and the stringified status.
pub fn process_outcome(key: String, success: bool, status: String) -> (r: Result<String, GitError>)
    ensures
        success ==> (r matches Ok(k) && k@ == key@),
        !success ==> (r matches Err(e) && e.key@ == key@ && e.msg@ == status@),
{
    if success {
        Ok(key)
    } else {
        Err(GitError { key, msg: status })
    }
}

} // verus!
