use vstd::prelude::*;

verus! {

/// Why one requested directory is skipped before a pull — or that it
/// may proceed.
#[derive(Clone, Copy, Debug, PartialEq, Eq, Structural)]
pub enum PullCheck {
    NoSuchDirectory,
    NotGitRepository,
    Proceed,
}

/// The pre-pull check for one requested directory: the directory must
/// exist, and must hold a `.git` entry; the existence check comes
/// first. Only a directory that passes both is pulled.
pub fn pull_check(is_dir: bool, has_git_dir: bool) -> (r: PullCheck)
    ensures
        r == (if !is_dir {
            PullCheck::NoSuchDirectory
        } else if !has_git_dir {
            PullCheck::NotGitRepository
        } else {
            PullCheck::Proceed
        }),
{
    if !is_dir {
        PullCheck::NoSuchDirectory
    } else if !has_git_dir {
        PullCheck::NotGitRepository
    } else {
        PullCheck::Proceed
    }
}

} // verus!
