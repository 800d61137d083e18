use vstd::prelude::*;

use crate::config::{GitCmd, Remote, Repo, Selection};
use crate::git::{clone_invocation, pull_invocation, Invocation};

verus! {

/// Whether a resolved selection is dispatched in this run: an
/// `Explicit` selection always is; an `Optional` one only when its
/// directory already exists.
pub fn should_sync<T>(select: &Selection<T>, dir_exists: bool) -> (r: bool)
    ensures
        r == (select is Explicit || dir_exists),
{
    match select {
        Selection::Explicit(_) => true,
        Selection::Optional(_) => dir_exists,
    }
}

/// The clone-vs-pull decision for one target, taken at the moment the
/// operation begins — not when it was scheduled: pull inside the
/// directory when it exists, clone into it otherwise.
pub fn sync_one(git: &GitCmd, dir: &str, repo: &Repo, dir_exists: bool) -> (inv: Invocation)
    ensures
        dir_exists ==> inv@ == pull_invocation(git@, dir@),
        !dir_exists ==> inv@ == clone_invocation(git@, repo.spec_url(), dir@),
{
    if dir_exists {
        git.pull(dir)
    } else {
        git.cloner(dir, repo)
    }
}

} // verus!
