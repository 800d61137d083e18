use vstd::prelude::*;

use super::types::{GitCmd, GitHub, GitHubView, Repo, RepoView};

verus! {

/// A configuration-time failure: a repository spec string is
/// malformed, or names an unsupported hosting kind. Either aborts the
/// run before any operation is dispatched.
#[derive(Clone, Debug, PartialEq)]
pub enum ConfigError {
    InvalidRepo { name: String },
    UnknownType { type_: String },
}

impl ConfigError {
    /// The message shown for this error, character for character.
    pub open spec fn spec_message(&self) -> Seq<char> {
        match self {
            ConfigError::InvalidRepo { name } => "invalid repo name: "@ + name@,
            ConfigError::UnknownType { type_ } => "unknown repo type: "@ + type_@,
        }
    }

    pub fn message(&self) -> (s: String)
        ensures
            s@ == self.spec_message(),
    {
        match self {
            ConfigError::InvalidRepo { name } => {
                let mut s = String::from_str("invalid repo name: ");
                s.append(name.as_str());
                s
            },
            ConfigError::UnknownType { type_ } => {
                let mut s = String::from_str("unknown repo type: ");
                s.append(type_.as_str());
                s
            },
        }
    }
}

/// The concurrency budget: how many operations may run at the same
/// time. Always at least one.
#[derive(Clone, Debug, PartialEq)]
pub struct Concurrency(u16);

impl Concurrency {
    pub closed spec fn spec_value(&self) -> u16 {
        self.0
    }

    /// A budget is well-formed when it admits at least one operation.
    pub open spec fn wf(&self) -> bool {
        self.spec_value() >= 1
    }

    /// Accepts any positive count; zero is rejected.
    pub fn new(value: u16) -> (r: Option<Concurrency>)
        ensures
            match r {
                Some(c) => value >= 1 && c.spec_value() == value,
                None => value == 0,
            },
    {
        if value == 0 {
            None
        } else {
            Some(Concurrency(value))
        }
    }

    pub fn value(&self) -> (v: u16)
        ensures
            v == self.spec_value(),
    {
        self.0
    }
}

impl Default for Concurrency {
    /// Ten concurrent operations, unless configured otherwise.
    fn default() -> (r: Concurrency)
        ensures
            r.spec_value() == 10,
    {
        Concurrency(10)
    }
}

/// A repository spec as it appears in configuration: either the bare
/// spec string, or a table naming the hosting kind next to the spec
/// string.
#[derive(Clone, Debug, PartialEq)]
pub enum RepoSpec {
    Simple(String),
    Normal { type_: String, repo: String },
}

impl RepoSpec {
    /// The spec string carried by either form.
    pub open spec fn spec_string(&self) -> Seq<char> {
        match self {
            RepoSpec::Simple(s) => s@,
            RepoSpec::Normal { repo, .. } => repo@,
        }
    }

    /// The hosting kind this spec declares. The bare form always means
    /// the supported kind.
    pub open spec fn kind_string(&self) -> Seq<char> {
        match self {
            RepoSpec::Simple(..) => "github"@,
            RepoSpec::Normal { type_, .. } => type_@,
        }
    }

    /// Whether the declared hosting kind is the one supported kind.
    pub open spec fn kind_ok(&self) -> bool {
        self.kind_string() == "github"@
    }
}

/// A configuration as decoded from its file, before the repository
/// specs are resolved: the git command, the optional working
/// directory, the concurrency budget, and the declared repositories,
/// required and optional, in declaration order.
pub struct ConfigInternal {
    pub git: GitCmd,
    pub directory: Option<String>,
    pub concurrency: Concurrency,
    pub repositories: Vec<(String, RepoSpec)>,
    pub optional_repositories: Option<Vec<(String, RepoSpec)>>,
}

/// `s` has exactly one `/`, at position `k`, with a nonempty owner
/// before it and a nonempty project after it.
pub open spec fn splits_at(s: Seq<char>, k: int) -> bool {
    &&& 1 <= k
    &&& k + 1 < s.len()
    &&& s[k] == '/'
    &&& forall|j: int| 0 <= j < s.len() && j != k ==> s[j] != '/'
}

/// `s` is a bare owner: nonempty, with no `/` at all.
pub open spec fn is_bare_owner(s: Seq<char>) -> bool {
    s.len() > 0 && forall|j: int| 0 <= j < s.len() ==> s[j] != '/'
}

/// The accepted spec strings: `owner` or `owner/project`, both
/// segments nonempty.
pub open spec fn valid_repo_spec(s: Seq<char>) -> bool {
    is_bare_owner(s) || exists|k: int| splits_at(s, k)
}

/// The descriptor a valid spec string resolves to under Registry key
/// `key`: a bare owner takes the key itself as the project name.
pub open spec fn resolved_descriptor(key: Seq<char>, s: Seq<char>) -> GitHubView {
    if is_bare_owner(s) {
        GitHubView { user: s, project: key }
    } else {
        let k = choose|k: int| splits_at(s, k);
        GitHubView { user: s.subrange(0, k), project: s.subrange(k + 1, s.len() as int) }
    }
}

/// `rs` is a well-formed configuration entry: the declared hosting
/// kind is supported and the spec string parses.
pub open spec fn entry_ok(rs: RepoSpec) -> bool {
    rs.kind_ok() && valid_repo_spec(rs.spec_string())
}

/// `e` is the error that resolving `rs` reports: the unsupported kind
/// by name, or the malformed spec string itself.
pub open spec fn spec_entry_error(e: ConfigError, rs: RepoSpec) -> bool {
    match e {
        ConfigError::UnknownType { type_ } => {
            &&& !rs.kind_ok()
            &&& type_@ == rs.kind_string()
        },
        ConfigError::InvalidRepo { name } => {
            &&& rs.kind_ok()
            &&& !valid_repo_spec(rs.spec_string())
            &&& name@ == rs.spec_string()
        },
    }
}

/// `e` is the error of the leftmost ill-formed entry of `list`, and
/// every entry before it is well-formed.
pub open spec fn first_bad_entry(e: ConfigError, list: Seq<(String, RepoSpec)>) -> bool {
    exists|i: int|
        0 <= i < list.len() && !entry_ok(#[trigger] list[i].1) && (forall|j: int|
            0 <= j < i ==> entry_ok(list[j].1)) && spec_entry_error(e, list[i].1)
}

/// Every declared repository spec, required then optional, in
/// declaration order.
pub open spec fn combined_specs(cfgi: ConfigInternal) -> Seq<(String, RepoSpec)> {
    cfgi.repositories@ + (match cfgi.optional_repositories {
        Some(v) => v@,
        None => Seq::<(String, RepoSpec)>::empty(),
    })
}

/// At most one position can split a spec string.
proof fn lemma_split_unique(s: Seq<char>, k1: int, k2: int)
    requires
        splits_at(s, k1),
        splits_at(s, k2),
    ensures
        k1 == k2,
{
    if k1 != k2 {
        assert(s[k1] != '/');
    }
}

impl Repo {
    /// Resolves one configured spec, declared under Registry key
    /// `key`, to a repository descriptor. A spec of an unsupported
    /// hosting kind fails with `UnknownType`; a spec string that is
    /// not `owner` or `owner/project` fails with `InvalidRepo`.
    pub fn try_from(key: &str, val: &RepoSpec) -> (r: Result<Repo, ConfigError>)
        ensures
            match r {
                Ok(repo) => {
                    &&& val.kind_ok()
                    &&& valid_repo_spec(val.spec_string())
                    &&& repo@ == RepoView::GitHub(
                        resolved_descriptor(key@, val.spec_string()),
                    )
                },
                Err(e) => spec_entry_error(e, *val),
            },
    {
        let spec_str: &String = match val {
            RepoSpec::Simple(s) => s,
            RepoSpec::Normal { type_, repo } => {
                let github = String::from_str("github");
                if *type_ == github {
                    repo
                } else {
                    return Err(ConfigError::UnknownType { type_: type_.clone() });
                }
            },
        };
        let s = spec_str.as_str();
        let n = s.unicode_len();
        let mut i: usize = 0;
        let mut first: Option<usize> = None;
        let mut extra: bool = false;
        while i < n
            invariant
                i <= n,
                n == s@.len(),
                match first {
                    None => !extra && (forall|j: int| 0 <= j < i ==> s@[j] != '/'),
                    Some(k) => {
                        &&& k < i
                        &&& s@[k as int] == '/'
                        &&& forall|j: int| 0 <= j < k ==> s@[j] != '/'
                        &&& (extra <==> exists|j: int| k < j < i && s@[j] == '/')
                    },
                },
            decreases n - i,
        {
            let c = s.get_char(i);
            if c == '/' {
                match first {
                    None => {
                        first = Some(i);
                    },
                    Some(_) => {
                        extra = true;
                    },
                }
            }
            i += 1;
        }
        match first {
            None => {
                if n == 0 {
                    proof {
                        assert(!is_bare_owner(s@));
                        assert(forall|k: int| !splits_at(s@, k));
                    }
                    Err(ConfigError::InvalidRepo { name: spec_str.clone() })
                } else {
                    proof {
                        assert(is_bare_owner(s@));
                    }
                    Ok(Repo::GitHub(GitHub::new(s, key)))
                }
            },
            Some(k) => {
                if !extra && k >= 1 && k + 1 < n {
                    proof {
                        assert(splits_at(s@, k as int));
                        let kc = choose|m: int| splits_at(s@, m);
                        lemma_split_unique(s@, kc, k as int);
                        assert(!is_bare_owner(s@));
                    }
                    let user = s.substring_char(0, k);
                    let project = s.substring_char(k + 1, n);
                    Ok(Repo::GitHub(GitHub::new(user, project)))
                } else {
                    proof {
                        assert(!is_bare_owner(s@));
                        assert forall|m: int| !splits_at(s@, m) by {
                            if splits_at(s@, m) {
                                if m == k as int {
                                    if extra {
                                        let j = choose|j: int| k < j < n && s@[j] == '/';
                                        assert(s@[j] != '/');
                                    }
                                } else {
                                    assert(s@[k as int] != '/');
                                }
                            }
                        }
                    }
                    Err(ConfigError::InvalidRepo { name: spec_str.clone() })
                }
            },
        }
    }
}

} // verus!
