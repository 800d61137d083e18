use vstd::prelude::*;

use indexmap::IndexMap;

mod internal;
mod registry;
mod types;

pub use self::internal::{
    combined_specs, entry_ok, first_bad_entry, is_bare_owner, resolved_descriptor,
    spec_entry_error, splits_at, valid_repo_spec, ConfigError, ConfigInternal, Concurrency,
    RepoSpec,
};
pub use self::registry::{
    build_entries, has_key, insert_entry, key_index, lemma_build_entries_concat,
    lemma_build_entries_distinct, lemma_insert_entry_unique, registry_entries, unique_keys,
};
pub use self::types::{
    forced_explicit, github_url, repo_url, GitCmd, GitHub, GitHubView, Remote, Repo, RepoView,
    Selection, SelectionView,
};

use self::registry::{im_contains_key, im_get, im_get_index, im_insert, im_len, im_new};

verus! {

/// The (key, selection) views of a run of already-built selections,
/// in order.
pub open spec fn sel_pair_views(s: Seq<(String, Selection<Repo>)>) -> Seq<
    (Seq<char>, SelectionView<RepoView>),
> {
    s.map_values(|p: (String, Selection<Repo>)| (p.0@, p.1@))
}

/// The (key, selection) views a run of configured specs resolves to,
/// every entry tagged `Explicit` when `explicit` holds and `Optional`
/// otherwise.
pub open spec fn spec_pairs(list: Seq<(String, RepoSpec)>, explicit: bool) -> Seq<
    (Seq<char>, SelectionView<RepoView>),
> {
    list.map_values(
        |p: (String, RepoSpec)|
            (
                p.0@,
                if explicit {
                    SelectionView::Explicit(
                        RepoView::GitHub(resolved_descriptor(p.0@, p.1.spec_string())),
                    )
                } else {
                    SelectionView::Optional(
                        RepoView::GitHub(resolved_descriptor(p.0@, p.1.spec_string())),
                    )
                },
            ),
    )
}

/// The parsed configuration: the git command, the optional working
/// directory, the concurrency budget, and the Registry — an ordered,
/// unique-keyed map from name to repository selection.
#[derive(Debug)]
pub struct Config {
    git: GitCmd,
    dir: Option<String>,
    concur: Concurrency,
    repos: IndexMap<String, Selection<Repo>>,
}

impl Config {
    pub closed spec fn spec_git(&self) -> Seq<char> {
        self.git@
    }

    pub closed spec fn spec_dir(&self) -> Option<Seq<char>> {
        match self.dir {
            Some(d) => Some(d@),
            None => None,
        }
    }

    pub closed spec fn spec_concurrency(&self) -> u16 {
        self.concur.spec_value()
    }

    /// The Registry's entries: (name, selection) views in declaration
    /// order.
    pub closed spec fn entries(&self) -> Seq<(Seq<char>, SelectionView<RepoView>)> {
        registry_entries(self.repos)
    }

    /// Well-formed: Registry keys are unique and the budget admits at
    /// least one operation.
    pub open spec fn wf(&self) -> bool {
        &&& unique_keys(self.entries())
        &&& self.spec_concurrency() >= 1
    }

    pub fn git(&self) -> (r: &GitCmd)
        ensures
            r@ == self.spec_git(),
    {
        &self.git
    }

    pub fn dir(&self) -> (r: Option<&String>)
        ensures
            match r {
                Some(d) => self.spec_dir() == Some(d@),
                None => self.spec_dir() is None,
            },
    {
        match &self.dir {
            Some(d) => Some(d),
            None => None,
        }
    }

    pub fn concurrency(&self) -> (n: usize)
        ensures
            n == self.spec_concurrency(),
    {
        self.concur.value() as usize
    }

    /// Whether a name is a Registry key.
    pub fn is_known(&self, name: &str) -> (r: bool)
        ensures
            r == has_key(self.entries(), name@),
    {
        im_contains_key(&self.repos, name)
    }

    /// Builds a Registry directly from (name, selection) pairs,
    /// inserted in order.
    pub fn new(
        git: GitCmd,
        dir: Option<String>,
        concur: Concurrency,
        repos: Vec<(String, Selection<Repo>)>,
    ) -> (cfg: Config)
        requires
            concur.spec_value() >= 1,
        ensures
            cfg.wf(),
            cfg.spec_git() == git@,
            cfg.spec_dir() == (match dir {
                Some(d) => Some(d@),
                None => None::<Seq<char>>,
            }),
            cfg.spec_concurrency() == concur.spec_value(),
            cfg.entries() == build_entries(
                Seq::<(Seq<char>, SelectionView<RepoView>)>::empty(),
                sel_pair_views(repos@),
            ),
            (forall|i: int, j: int|
                0 <= i < j < repos@.len() ==> repos@[i].0@ != repos@[j].0@) ==> cfg.entries()
                == sel_pair_views(repos@),
    {
        let ghost orig = repos@;
        let ghost all = sel_pair_views(orig);
        proof {
            assert(all.skip(0) =~= all);
        }
        let mut rest = repos;
        let total = rest.len();
        let mut m = im_new();
        let mut i: usize = 0;
        while rest.len() > 0
            invariant
                total == orig.len(),
                i + rest@.len() == orig.len(),
                rest@ == orig.skip(i as int),
                all == sel_pair_views(orig),
                unique_keys(registry_entries(m)),
                build_entries(registry_entries(m), all.skip(i as int)) == build_entries(
                    Seq::<(Seq<char>, SelectionView<RepoView>)>::empty(),
                    all,
                ),
            decreases rest@.len(),
        {
            let (key, sel) = rest.remove(0);
            proof {
                assert(orig.skip(i as int)[0] == orig[i as int]);
                assert(all.skip(i as int)[0] == all[i as int]);
                assert(all[i as int] == (orig[i as int].0@, orig[i as int].1@));
                lemma_insert_entry_unique(registry_entries(m), key@, sel@);
                assert(all.skip(i as int).drop_first() =~= all.skip(i as int + 1));
                assert(orig.skip(i as int).remove(0) =~= orig.skip(i as int + 1));
            }
            im_insert(&mut m, key, sel);
            i += 1;
        }
        proof {
            assert(all.skip(i as int) =~= Seq::<(Seq<char>, SelectionView<RepoView>)>::empty());
            if forall|a: int, b: int| 0 <= a < b < orig.len() ==> orig[a].0@ != orig[b].0@ {
                assert forall|a: int, b: int| 0 <= a < b < all.len() implies all[a].0 != all[b].0 by {
                    assert(orig[a].0@ != orig[b].0@);
                }
                lemma_build_entries_distinct(
                    Seq::<(Seq<char>, SelectionView<RepoView>)>::empty(),
                    all,
                );
                assert(Seq::<(Seq<char>, SelectionView<RepoView>)>::empty() + all =~= all);
            }
        }
        Config { git, dir, concur, repos: m }
    }

    /// The Registry resolver. With `names` absent it traverses every
    /// entry in declaration order; with `names` present it looks each
    /// requested name up in turn, forcing found selections to
    /// `Explicit` and reporting missing names without stopping.
    pub fn repos<'a>(&'a self, names: Option<&'a Vec<&'a str>>) -> (it: ReposIter<'a>)
        ensures
            it.spec_cfg() == *self,
            it.spec_pos() == 0,
            it.is_all() == (names is None),
            match names {
                Some(ns) => it.spec_names() == ns@.map_values(|n: &str| n@),
                None => true,
            },
    {
        if let Some(names) = names {
            ReposIter::Selected(ReposSelected { cfg: self, names, pos: 0 })
        } else {
            ReposIter::All(ReposAll { cfg: self, pos: 0 })
        }
    }
}

/// A requested name that is not a Registry key. Reported per name;
/// resolution continues with the remaining names.
#[derive(Clone, Debug, PartialEq)]
pub struct RepoNotFound {
    name: String,
}

impl RepoNotFound {
    pub closed spec fn spec_name(&self) -> Seq<char> {
        self.name@
    }

    pub fn new(name: String) -> (r: RepoNotFound)
        ensures
            r.spec_name() == name@,
    {
        RepoNotFound { name }
    }

    pub fn name(&self) -> (r: &str)
        ensures
            r@ == self.spec_name(),
    {
        self.name.as_str()
    }

    /// The message shown for this error, character for character.
    pub fn message(&self) -> (s: String)
        ensures
            s@ == self.spec_name() + ": Repo not found"@,
    {
        let mut s = self.name.clone();
        s.append(": Repo not found");
        s
    }
}

/// Untargeted traversal state: the next declaration-order position.
pub struct ReposAll<'a> {
    cfg: &'a Config,
    pos: usize,
}

/// Targeted traversal state: the next requested name.
pub struct ReposSelected<'a> {
    cfg: &'a Config,
    names: &'a Vec<&'a str>,
    pos: usize,
}

/// The Registry resolver: a lazy, single-pass sequence of `(name,
/// selection)` results.
pub enum ReposIter<'a> {
    Selected(ReposSelected<'a>),
    All(ReposAll<'a>),
}

impl<'a> ReposIter<'a> {
    pub closed spec fn spec_cfg(&self) -> Config {
        match self {
            ReposIter::Selected(s) => *s.cfg,
            ReposIter::All(a) => *a.cfg,
        }
    }

    pub closed spec fn is_all(&self) -> bool {
        self matches ReposIter::All(_)
    }

    pub closed spec fn spec_pos(&self) -> int {
        match self {
            ReposIter::Selected(s) => s.pos as int,
            ReposIter::All(a) => a.pos as int,
        }
    }

    /// The requested names, in request order; empty for an untargeted
    /// traversal.
    pub closed spec fn spec_names(&self) -> Seq<Seq<char>> {
        match self {
            ReposIter::Selected(s) => s.names@.map_values(|n: &str| n@),
            ReposIter::All(_) => Seq::empty(),
        }
    }

    /// One resolution step. Untargeted: the entry at the current
    /// position, tag kept. Targeted: the selection under the current
    /// requested name forced to `Explicit`, or `RepoNotFound` for that
    /// name; either way the traversal moves on.
    pub fn next(&mut self) -> (r: Option<
        Result<(&'a str, Selection<&'a Repo>), RepoNotFound>,
    >)
        requires
            old(self).spec_cfg().wf(),
        ensures
            final(self).spec_cfg() == old(self).spec_cfg(),
            final(self).is_all() == old(self).is_all(),
            final(self).spec_names() == old(self).spec_names(),
            old(self).is_all() ==> ({
                let es = old(self).spec_cfg().entries();
                let p = old(self).spec_pos();
                if p < es.len() {
                    &&& final(self).spec_pos() == p + 1
                    &&& match r {
                        Some(Ok(item)) => item.0@ == es[p].0 && item.1@ == es[p].1,
                        _ => false,
                    }
                } else {
                    &&& r is None
                    &&& final(self).spec_pos() == p
                }
            }),
            !old(self).is_all() ==> ({
                let es = old(self).spec_cfg().entries();
                let ns = old(self).spec_names();
                let p = old(self).spec_pos();
                if p < ns.len() {
                    &&& final(self).spec_pos() == p + 1
                    &&& if has_key(es, ns[p]) {
                        match r {
                            Some(Ok(item)) => item.0@ == ns[p] && item.1@ == forced_explicit(
                                es[key_index(es, ns[p])].1,
                            ),
                            _ => false,
                        }
                    } else {
                        match r {
                            Some(Err(e)) => e.spec_name() == ns[p],
                            _ => false,
                        }
                    }
                } else {
                    &&& r is None
                    &&& final(self).spec_pos() == p
                }
            }),
    {
        match self {
            ReposIter::Selected(sel) => {
                if sel.pos < sel.names.len() {
                    let n: &str = sel.names[sel.pos];
                    sel.pos = sel.pos + 1;
                    match im_get(&sel.cfg.repos, n) {
                        Some(found) => match found {
                            Selection::Optional(repo) => Some(Ok((n, Selection::Explicit(repo)))),
                            Selection::Explicit(_) => {
                                let item = found.as_ref();
                                proof {
                                    assert(item@ == found@);
                                }
                                Some(Ok((n, item)))
                            },
                        },
                        None => Some(Err(RepoNotFound::new(n.to_owned()))),
                    }
                } else {
                    None
                }
            },
            ReposIter::All(a) => {
                let len = im_len(&a.cfg.repos);
                if a.pos < len {
                    let p = a.pos;
                    a.pos = p + 1;
                    match im_get_index(&a.cfg.repos, p) {
                        Some(pair) => {
                            let item = pair.1.as_ref();
                            proof {
                                assert(item@ == pair.1@);
                            }
                            Some(Ok((pair.0.as_str(), item)))
                        },
                        None => {
                            // Unreachable: the position was checked
                            // against the length just above.
                            proof {
                                assert(false);
                            }
                            None
                        },
                    }
                } else {
                    None
                }
            },
        }
    }
}

/// Resolves one run of configured specs and inserts the results, in
/// order, under the given tag. Stops at the first failing spec and
/// hands its error back.
fn insert_specs(
    m: &mut IndexMap<String, Selection<Repo>>,
    list: &Vec<(String, RepoSpec)>,
    explicit: bool,
) -> (r: Result<(), ConfigError>)
    requires
        unique_keys(registry_entries(*old(m))),
    ensures
        r matches Ok(_) ==> {
            &&& unique_keys(registry_entries(*final(m)))
            &&& forall|j: int| 0 <= j < list@.len() ==> entry_ok(#[trigger] list@[j].1)
            &&& registry_entries(*final(m)) == build_entries(
                registry_entries(*old(m)),
                spec_pairs(list@, explicit),
            )
        },
        r matches Err(e) ==> first_bad_entry(e, list@),
{
    let ghost init = registry_entries(*m);
    let ghost all = spec_pairs(list@, explicit);
    proof {
        assert(all.skip(0) =~= all);
    }
    let n = list.len();
    let mut i: usize = 0;
    while i < n
        invariant
            i <= n,
            n == list@.len(),
            init == registry_entries(*old(m)),
            all == spec_pairs(list@, explicit),
            unique_keys(registry_entries(*m)),
            forall|j: int| 0 <= j < i ==> entry_ok(#[trigger] list@[j].1),
            build_entries(registry_entries(*m), all.skip(i as int)) == build_entries(init, all),
        decreases n - i,
    {
        let key = &list[i].0;
        let val = &list[i].1;
        match Repo::try_from(key.as_str(), val) {
            Ok(repo) => {
                let selection = if explicit {
                    Selection::Explicit(repo)
                } else {
                    Selection::Optional(repo)
                };
                proof {
                    lemma_insert_entry_unique(registry_entries(*m), key@, selection@);
                    assert(all.skip(i as int)[0] == all[i as int]);
                    assert(all.skip(i as int).drop_first() =~= all.skip(i as int + 1));
                }
                im_insert(m, key.clone(), selection);
            },
            Err(e) => {
                proof {
                    assert(!entry_ok(list@[i as int].1));
                    assert(first_bad_entry(e, list@));
                }
                return Err(e);
            },
        }
        i += 1;
    }
    proof {
        assert(all.skip(n as int) =~= Seq::<(Seq<char>, SelectionView<RepoView>)>::empty());
    }
    Ok(())
}

/// Resolves a decoded configuration into a `Config`: every required
/// repository spec becomes an `Explicit` entry and every optional one
/// an `Optional` entry, in declaration order, required entries first.
/// The first failing spec aborts the whole run with its error.
pub fn build_config(cfgi: ConfigInternal) -> (r: Result<Config, ConfigError>)
    requires
        cfgi.concurrency.spec_value() >= 1,
    ensures
        r matches Ok(cfg) ==> {
            let reps = cfgi.repositories@;
            let opts = match cfgi.optional_repositories {
                Some(v) => v@,
                None => Seq::<(String, RepoSpec)>::empty(),
            };
            &&& cfg.wf()
            &&& cfg.spec_git() == cfgi.git@
            &&& cfg.spec_dir() == (match cfgi.directory {
                Some(d) => Some(d@),
                None => None::<Seq<char>>,
            })
            &&& cfg.spec_concurrency() == cfgi.concurrency.spec_value()
            &&& forall|j: int| 0 <= j < reps.len() ==> entry_ok(#[trigger] reps[j].1)
            &&& forall|j: int| 0 <= j < opts.len() ==> entry_ok(#[trigger] opts[j].1)
            &&& cfg.entries() == build_entries(
                Seq::<(Seq<char>, SelectionView<RepoView>)>::empty(),
                spec_pairs(reps, true) + spec_pairs(opts, false),
            )
        },
        r matches Err(e) ==> first_bad_entry(e, combined_specs(cfgi)),
{
    let ConfigInternal { git, directory, concurrency, repositories, optional_repositories } = cfgi;
    let ghost reps = repositories@;
    let ghost opts = match optional_repositories {
        Some(ref v) => v@,
        None => Seq::<(String, RepoSpec)>::empty(),
    };
    let mut m = im_new();
    match insert_specs(&mut m, &repositories, true) {
        Ok(_) => {},
        Err(e) => {
            proof {
                let c = reps + opts;
                assert(combined_specs(cfgi) =~= c);
                let i = choose|i: int|
                    0 <= i < reps.len() && !entry_ok(#[trigger] reps[i].1) && (forall|j: int|
                        0 <= j < i ==> entry_ok(reps[j].1)) && spec_entry_error(e, reps[i].1);
                assert(c[i] == reps[i]);
                assert forall|j: int| 0 <= j < i implies entry_ok(c[j].1) by {
                    assert(c[j] == reps[j]);
                }
                assert(first_bad_entry(e, c));
            }
            return Err(e);
        },
    }
    if let Some(ref optional) = optional_repositories {
        match insert_specs(&mut m, optional, false) {
            Ok(_) => {},
            Err(e) => {
                proof {
                    let c = reps + opts;
                    assert(combined_specs(cfgi) =~= c);
                    let i = choose|i: int|
                        0 <= i < opts.len() && !entry_ok(#[trigger] opts[i].1) && (forall|j: int|
                            0 <= j < i ==> entry_ok(opts[j].1)) && spec_entry_error(e, opts[i].1);
                    let w = reps.len() + i;
                    assert(c[w] == opts[i]);
                    assert forall|j: int| 0 <= j < w implies entry_ok(c[j].1) by {
                        if j < reps.len() {
                            assert(c[j] == reps[j]);
                        } else {
                            assert(c[j] == opts[j - reps.len()]);
                        }
                    }
                    assert(first_bad_entry(e, c));
                }
                return Err(e);
            },
        }
    }
    proof {
        lemma_build_entries_concat(
            Seq::<(Seq<char>, SelectionView<RepoView>)>::empty(),
            spec_pairs(reps, true),
            spec_pairs(opts, false),
        );
    }
    Ok(Config { git, dir: directory, concur: concurrency, repos: m })
}

} // verus!
