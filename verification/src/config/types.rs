use vstd::prelude::*;

verus! {

/// Identity of a remote GitHub repository, as the contracts see it:
/// the owner's account name and the project name.
pub struct GitHubView {
    pub user: Seq<char>,
    pub project: Seq<char>,
}

/// Identity of a remote GitHub repository: owner account and project name.
#[derive(Clone, Debug, PartialEq)]
pub struct GitHub {
    pub user: String,
    pub project: String,
}

impl View for GitHub {
    type V = GitHubView;

    open spec fn view(&self) -> GitHubView {
        GitHubView { user: self.user@, project: self.project@ }
    }
}

impl GitHub {
    pub fn new(user: &str, project: &str) -> (r: GitHub)
        ensures
            r@ == (GitHubView { user: user@, project: project@ }),
    {
        GitHub { user: user.to_owned(), project: project.to_owned() }
    }
}

/// The remote URL a GitHub descriptor renders to, character for
/// character: `https://github.com/{user}/{project}.git`.
pub open spec fn github_url(v: GitHubView) -> Seq<char> {
    "https://github.com/"@ + v.user + "/"@ + v.project + ".git"@
}

/// A repository on some supported hosting service. GitHub is the one
/// supported kind.
#[derive(Clone, Debug, PartialEq)]
pub enum Repo {
    GitHub(GitHub),
}

pub enum RepoView {
    GitHub(GitHubView),
}

impl View for Repo {
    type V = RepoView;

    open spec fn view(&self) -> RepoView {
        match self {
            Repo::GitHub(g) => RepoView::GitHub(g@),
        }
    }
}

/// The remote URL of a repository of any hosting kind.
pub open spec fn repo_url(v: RepoView) -> Seq<char> {
    match v {
        RepoView::GitHub(g) => github_url(g),
    }
}

/// Anything that deterministically renders to a remote URL.
pub trait Remote {
    spec fn spec_url(&self) -> Seq<char>;

    fn url(&self) -> (s: String)
        ensures
            s@ == self.spec_url(),
    ;
}

impl Remote for GitHub {
    open spec fn spec_url(&self) -> Seq<char> {
        github_url(self@)
    }

    fn url(&self) -> (s: String) {
        let mut url = String::from_str("https://github.com/");
        url.append(self.user.as_str());
        url.append("/");
        url.append(self.project.as_str());
        url.append(".git");
        url
    }
}

impl Remote for Repo {
    open spec fn spec_url(&self) -> Seq<char> {
        repo_url(self@)
    }

    fn url(&self) -> (s: String) {
        match self {
            Repo::GitHub(repo) => repo.url(),
        }
    }
}

/// A configured repository, tagged with how it takes part in an
/// untargeted sync: `Explicit` entries are always targets, `Optional`
/// entries only when their directory already exists (or when the entry
/// is requested by name).
#[derive(Clone, Debug, PartialEq)]
pub enum Selection<T> {
    Explicit(T),
    Optional(T),
}

pub enum SelectionView<V> {
    Explicit(V),
    Optional(V),
}

/// The selection view after an explicit request by name: whatever the
/// stored tag was, the result is `Explicit` with the same payload.
pub open spec fn forced_explicit<V>(v: SelectionView<V>) -> SelectionView<V> {
    match v {
        SelectionView::Explicit(r) => SelectionView::Explicit(r),
        SelectionView::Optional(r) => SelectionView::Explicit(r),
    }
}

impl<T: View> View for Selection<T> {
    type V = SelectionView<T::V>;

    open spec fn view(&self) -> SelectionView<T::V> {
        match self {
            Selection::Explicit(x) => SelectionView::Explicit(x@),
            Selection::Optional(x) => SelectionView::Optional(x@),
        }
    }
}

impl<T> Selection<T> {
    /// The payload, with the tag stripped.
    pub open spec fn spec_repo(&self) -> T {
        match self {
            Selection::Explicit(x) => *x,
            Selection::Optional(x) => *x,
        }
    }

    pub fn repo(&self) -> (r: &T)
        ensures
            *r == self.spec_repo(),
    {
        match self {
            Selection::Explicit(x) => x,
            Selection::Optional(x) => x,
        }
    }

    pub fn as_ref(&self) -> (r: Selection<&T>)
        ensures
            (*self is Explicit) == (r is Explicit),
            *r.spec_repo() == self.spec_repo(),
    {
        match self {
            Selection::Explicit(x) => Selection::Explicit(x),
            Selection::Optional(x) => Selection::Optional(x),
        }
    }
}

impl Remote for Selection<Repo> {
    open spec fn spec_url(&self) -> Seq<char> {
        repo_url(self.spec_repo()@)
    }

    fn url(&self) -> (s: String) {
        match self {
            Selection::Explicit(repo) => repo.url(),
            Selection::Optional(repo) => repo.url(),
        }
    }
}

/// The configured git executable: a path or a bare command name
/// resolved through the search path.
#[derive(Clone, Debug, PartialEq)]
pub struct GitCmd {
    path: String,
}

impl View for GitCmd {
    type V = Seq<char>;

    closed spec fn view(&self) -> Seq<char> {
        self.path@
    }
}

impl GitCmd {
    pub fn new(path: &str) -> (r: GitCmd)
        ensures
            r@ == path@,
    {
        GitCmd { path: path.to_owned() }
    }

    pub fn path(&self) -> (r: &str)
        ensures
            r@ == self@,
    {
        self.path.as_str()
    }
}

impl Default for GitCmd {
    /// The default git command is `git`, found on the search path.
    fn default() -> (r: GitCmd)
        ensures
            r@ == "git"@,
    {
        GitCmd { path: String::from_str("git") }
    }
}

} // verus!
