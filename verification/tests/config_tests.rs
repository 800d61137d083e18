use gitcop::config::{
    build_config, Config, ConfigError, ConfigInternal, Concurrency, GitCmd, GitHub, Remote, Repo,
    RepoNotFound, RepoSpec, Selection,
};

fn gh(user: &str, project: &str) -> Selection<Repo> {
    Selection::Explicit(Repo::GitHub(GitHub::new(user, project)))
}

fn gh_opt(user: &str, project: &str) -> Selection<Repo> {
    Selection::Optional(Repo::GitHub(GitHub::new(user, project)))
}

fn cfg_with(repos: Vec<(String, Selection<Repo>)>) -> Config {
    Config::new(GitCmd::default(), None, Concurrency::default(), repos)
}

#[test]
fn test_config_repos_iter_none() {
    let cfg = cfg_with(vec![]);
    let mut iter = cfg.repos(None);
    assert_eq!(iter.next(), None);
}

#[test]
fn test_config_repos_iter_one() {
    let select = gh("foo", "bar");
    let cfg = cfg_with(vec![("one".to_string(), select.clone())]);
    let mut iter = cfg.repos(None);
    assert_eq!(iter.next(), Some(Ok(("one", select.as_ref()))));
    assert_eq!(iter.next(), None);
}

#[test]
fn test_config_repos_iter_multiple() {
    let select1 = gh("foo1", "bar1");
    let select2 = gh("foo2", "bar2");
    let select3 = gh("foo3", "bar3");
    let cfg = cfg_with(vec![
        ("one".to_string(), select1.clone()),
        ("two".to_string(), select2.clone()),
        ("three".to_string(), select3.clone()),
    ]);
    let mut iter = cfg.repos(None);
    assert_eq!(iter.next(), Some(Ok(("one", select1.as_ref()))));
    assert_eq!(iter.next(), Some(Ok(("two", select2.as_ref()))));
    assert_eq!(iter.next(), Some(Ok(("three", select3.as_ref()))));
    assert_eq!(iter.next(), None);
}

#[test]
fn test_config_repos_iter_none_selected() {
    let cfg = cfg_with(vec![]);
    let names = vec!["one"];
    let mut iter = cfg.repos(Some(&names));
    assert_eq!(iter.next(), Some(Err(RepoNotFound::new("one".to_string()))));
    assert_eq!(iter.next(), None);
}

#[test]
fn test_config_repos_iter_multiple_selected() {
    let select1 = gh("foo1", "bar1");
    let select2 = gh("foo2", "bar2");
    let select3 = gh("foo3", "bar3");
    let cfg = cfg_with(vec![
        ("one".to_string(), select1.clone()),
        ("two".to_string(), select2.clone()),
        ("three".to_string(), select3.clone()),
    ]);
    let names = vec!["one", "three"];
    let mut iter = cfg.repos(Some(&names));
    assert_eq!(iter.next(), Some(Ok(("one", select1.as_ref()))));
    assert_eq!(iter.next(), Some(Ok(("three", select3.as_ref()))));
    assert_eq!(iter.next(), None);
}

#[test]
fn test_config_repos_iter_optional_none_selected() {
    let select1 = gh_opt("foo1", "bar1");
    let select2 = gh_opt("foo2", "bar2");
    let select3 = gh_opt("foo3", "bar3");
    let cfg = cfg_with(vec![
        ("one".to_string(), select1.clone()),
        ("two".to_string(), select2.clone()),
        ("three".to_string(), select3.clone()),
    ]);
    let mut iter = cfg.repos(None);
    assert_eq!(iter.next(), Some(Ok(("one", select1.as_ref()))));
    assert_eq!(iter.next(), Some(Ok(("two", select2.as_ref()))));
    assert_eq!(iter.next(), Some(Ok(("three", select3.as_ref()))));
    assert_eq!(iter.next(), None);
}

#[test]
fn test_config_repos_iter_optional_multiple_selected() {
    let select1 = gh_opt("foo1", "bar1");
    let select2 = gh_opt("foo2", "bar2");
    let select3 = gh_opt("foo3", "bar3");
    let cfg = cfg_with(vec![
        ("one".to_string(), select1.clone()),
        ("two".to_string(), select2.clone()),
        ("three".to_string(), select3.clone()),
    ]);
    let names = vec!["two", "three"];
    let mut iter = cfg.repos(Some(&names));
    assert_eq!(iter.next(), Some(Ok(("two", gh("foo2", "bar2").as_ref()))));
    assert_eq!(iter.next(), Some(Ok(("three", gh("foo3", "bar3").as_ref()))));
    assert_eq!(iter.next(), None);
}

#[test]
fn test_resolve_bare_owner_takes_key_as_project() {
    let repo = Repo::try_from("use-package", &RepoSpec::Simple("jweigley".to_string())).unwrap();
    let Repo::GitHub(gh) = repo;
    assert_eq!(gh.user, "jweigley");
    assert_eq!(gh.project, "use-package");
}

#[test]
fn test_resolve_owner_project_pair() {
    let repo = Repo::try_from("dash", &RepoSpec::Simple("magnars/dash.el".to_string())).unwrap();
    let Repo::GitHub(gh) = repo;
    assert_eq!(gh.user, "magnars");
    assert_eq!(gh.project, "dash.el");
}

#[test]
fn test_resolve_invalid_spec() {
    let r = Repo::try_from("foo", &RepoSpec::Simple("bar/baz/foo".to_string()));
    let e = r.unwrap_err();
    assert_eq!(e, ConfigError::InvalidRepo { name: "bar/baz/foo".to_string() });
    assert_eq!(e.message(), "invalid repo name: bar/baz/foo");
}

#[test]
fn test_resolve_rejects_empty_and_dangling_specs() {
    assert!(Repo::try_from("k", &RepoSpec::Simple("".to_string())).is_err());
    assert!(Repo::try_from("k", &RepoSpec::Simple("foo/".to_string())).is_err());
    assert!(Repo::try_from("k", &RepoSpec::Simple("/foo".to_string())).is_err());
    assert!(Repo::try_from("k", &RepoSpec::Simple("/".to_string())).is_err());
}

#[test]
fn test_resolve_unknown_type() {
    let r = Repo::try_from(
        "foo",
        &RepoSpec::Normal { type_: "bitbucket".to_string(), repo: "bar/baz".to_string() },
    );
    let e = r.unwrap_err();
    assert_eq!(e, ConfigError::UnknownType { type_: "bitbucket".to_string() });
    assert_eq!(e.message(), "unknown repo type: bitbucket");
}

#[test]
fn test_resolve_supported_type() {
    let repo = Repo::try_from(
        "f",
        &RepoSpec::Normal { type_: "github".to_string(), repo: "rejeep/f.el".to_string() },
    )
    .unwrap();
    assert_eq!(repo.url(), "https://github.com/rejeep/f.el.git");
}

#[test]
fn test_url_rendering_exact() {
    let gh = GitHub::new("jweigley", "use-package");
    assert_eq!(gh.url(), "https://github.com/jweigley/use-package.git");
}

#[test]
fn test_selection_url_and_repo() {
    let sel = gh("magnars", "s.el");
    assert_eq!(sel.url(), "https://github.com/magnars/s.el.git");
    assert_eq!(sel.repo(), &Repo::GitHub(GitHub::new("magnars", "s.el")));
}

#[test]
fn test_build_config_normal_and_simple_forms() {
    let cfgi = ConfigInternal {
        git: GitCmd::default(),
        directory: None,
        concurrency: Concurrency::default(),
        repositories: vec![
            ("use-package".to_string(), RepoSpec::Simple("jweigley".to_string())),
            ("dash".to_string(), RepoSpec::Simple("magnars/dash.el".to_string())),
            (
                "f".to_string(),
                RepoSpec::Normal { type_: "github".to_string(), repo: "rejeep/f.el".to_string() },
            ),
        ],
        optional_repositories: None,
    };
    let cfg = build_config(cfgi).unwrap();
    assert_eq!(cfg.dir(), None);
    assert_eq!(cfg.concurrency(), 10);
    let mut iter = cfg.repos(None);
    let (name1, sel1) = iter.next().unwrap().unwrap();
    assert_eq!(name1, "use-package");
    assert_eq!(sel1.repo().url(), "https://github.com/jweigley/use-package.git");
    let (name2, sel2) = iter.next().unwrap().unwrap();
    assert_eq!(name2, "dash");
    assert_eq!(sel2.repo().url(), "https://github.com/magnars/dash.el.git");
    let (name3, sel3) = iter.next().unwrap().unwrap();
    assert_eq!(name3, "f");
    assert_eq!(sel3.repo().url(), "https://github.com/rejeep/f.el.git");
    assert_eq!(iter.next(), None);
}

#[test]
fn test_build_config_with_optional_repos() {
    let cfgi = ConfigInternal {
        git: GitCmd::default(),
        directory: Some("repos".to_string()),
        concurrency: Concurrency::new(3).unwrap(),
        repositories: vec![("use-package".to_string(), RepoSpec::Simple("jweigley".to_string()))],
        optional_repositories: Some(vec![
            ("forge".to_string(), RepoSpec::Simple("magit".to_string())),
            ("magit".to_string(), RepoSpec::Simple("magit".to_string())),
        ]),
    };
    let cfg = build_config(cfgi).unwrap();
    assert_eq!(cfg.dir(), Some(&"repos".to_string()));
    assert_eq!(cfg.concurrency(), 3);
    assert!(cfg.is_known("use-package"));
    assert!(cfg.is_known("forge"));
    assert!(cfg.is_known("magit"));
    let mut iter = cfg.repos(None);
    let (_, sel1) = iter.next().unwrap().unwrap();
    assert!(matches!(sel1, Selection::Explicit(_)));
    let (name2, sel2) = iter.next().unwrap().unwrap();
    assert_eq!(name2, "forge");
    assert!(matches!(sel2, Selection::Optional(_)));
    assert_eq!(sel2.repo().url(), "https://github.com/magit/forge.git");
    let (name3, sel3) = iter.next().unwrap().unwrap();
    assert_eq!(name3, "magit");
    assert_eq!(sel3.repo().url(), "https://github.com/magit/magit.git");
    assert_eq!(iter.next(), None);
}

#[test]
fn test_build_config_stops_at_first_bad_entry() {
    let cfgi = ConfigInternal {
        git: GitCmd::default(),
        directory: None,
        concurrency: Concurrency::default(),
        repositories: vec![
            ("good".to_string(), RepoSpec::Simple("a/b".to_string())),
            ("bad".to_string(), RepoSpec::Simple("a/b/c".to_string())),
            (
                "worse".to_string(),
                RepoSpec::Normal { type_: "bitbucket".to_string(), repo: "x".to_string() },
            ),
        ],
        optional_repositories: None,
    };
    let e = build_config(cfgi).unwrap_err();
    assert_eq!(e, ConfigError::InvalidRepo { name: "a/b/c".to_string() });
}

#[test]
fn test_build_config_reports_optional_entry_error() {
    let cfgi = ConfigInternal {
        git: GitCmd::default(),
        directory: None,
        concurrency: Concurrency::default(),
        repositories: vec![("good".to_string(), RepoSpec::Simple("a/b".to_string()))],
        optional_repositories: Some(vec![(
            "bad".to_string(),
            RepoSpec::Simple("a/b/c".to_string()),
        )]),
    };
    let e = build_config(cfgi).unwrap_err();
    assert_eq!(e, ConfigError::InvalidRepo { name: "a/b/c".to_string() });
}

#[test]
fn test_concurrency_bounds() {
    assert_eq!(Concurrency::new(0), None);
    assert_eq!(Concurrency::new(1).unwrap().value(), 1);
    assert_eq!(Concurrency::new(123).unwrap().value(), 123);
    assert_eq!(Concurrency::default().value(), 10);
}

#[test]
fn test_gitcmd_paths() {
    assert_eq!(GitCmd::default().path(), "git");
    assert_eq!(GitCmd::new("/opt/bin/git").path(), "/opt/bin/git");
    assert_eq!(GitCmd::default(), GitCmd::new("git"));
}

#[test]
fn test_repo_not_found_message() {
    let e = RepoNotFound::new("one".to_string());
    assert_eq!(e.name(), "one");
    assert_eq!(e.message(), "one: Repo not found");
}
