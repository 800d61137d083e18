use gitcop::cmd::{
    banner, is_unknown, list_mark, pull_check, should_sync, summarize, sync_one, Dispatcher,
    PullCheck, TaskState,
};
use gitcop::config::{Config, Concurrency, GitCmd, GitHub, Repo, Selection};
use gitcop::git::{process_outcome, GitError, Invocation};
use gitcop::print::color_init;

fn repo(user: &str, project: &str) -> Repo {
    Repo::GitHub(GitHub::new(user, project))
}

#[test]
fn test_dispatcher_bounds_five_tasks_at_two() {
    let mut d = Dispatcher::new(2, 5);
    assert_eq!(d.budget(), 2);
    assert_eq!(d.available(), 2);
    assert_eq!(d.len(), 5);
    assert_eq!(d.running(), 0);

    assert!(d.try_acquire(0));
    assert!(d.try_acquire(1));
    assert!(!d.try_acquire(2));
    assert_eq!(d.available(), 0);

    d.begin(0);
    d.begin(1);
    assert_eq!(d.running(), 2);
    assert!(d.running() <= d.budget());

    d.finish(0);
    assert_eq!(d.state(0), TaskState::Done);
    assert!(d.try_acquire(2));
    d.begin(2);
    assert_eq!(d.running(), 2);
    assert!(d.running() <= d.budget());

    d.finish(1);
    assert!(d.try_acquire(3));
    d.begin(3);
    assert_eq!(d.running(), 2);

    d.finish(2);
    d.finish(3);
    assert!(d.try_acquire(4));
    d.begin(4);
    assert_eq!(d.running(), 1);
    assert!(!d.all_done());
    d.finish(4);

    assert!(d.all_done());
    assert_eq!(d.available(), 2);
}

#[test]
fn test_dispatcher_acquire_only_when_free() {
    let mut d = Dispatcher::new(1, 2);
    assert!(d.try_acquire(0));
    assert!(!d.try_acquire(1));
    d.begin(0);
    assert_eq!(d.running(), 1);
    d.finish(0);
    assert_eq!(d.available(), 1);
    assert!(d.try_acquire(1));
    d.begin(1);
    d.finish(1);
    assert!(d.all_done());
    assert_eq!(d.available(), 1);
}

#[test]
fn test_summary_reports_failures_and_status() {
    let outcomes: Vec<Result<String, GitError>> = vec![
        Ok("a".to_string()),
        Err(GitError::new("b".to_string(), "x".to_string())),
        Ok("c".to_string()),
        Err(GitError::new("d".to_string(), "y".to_string())),
    ];
    let s = summarize(outcomes, 0);
    assert_eq!(s.failures.len(), 2);
    assert_eq!(s.failures[0], GitError::new("b".to_string(), "x".to_string()));
    assert_eq!(s.failures[1], GitError::new("d".to_string(), "y".to_string()));
    assert!(!s.ok);
    assert_eq!(s.failures[0].message(), "b: x");
    assert_eq!(s.failures[1].message(), "d: y");
}

#[test]
fn test_summary_all_success() {
    let outcomes: Vec<Result<String, GitError>> = vec![Ok("a".to_string()), Ok("b".to_string())];
    let s = summarize(outcomes, 0);
    assert!(s.failures.is_empty());
    assert!(s.ok);
}

#[test]
fn test_summary_counts_resolution_errors() {
    let s = summarize(vec![Ok("a".to_string())], 1);
    assert!(s.failures.is_empty());
    assert!(!s.ok);
}

#[test]
fn test_banner_text() {
    assert_eq!(banner("sync"), "The following sync got error!");
    assert_eq!(banner("pull"), "The following pull got error!");
}

#[test]
fn test_process_outcome_classification() {
    assert_eq!(process_outcome("dir".to_string(), true, "exit status: 0".to_string()), Ok(
        "dir".to_string(),
    ));
    assert_eq!(
        process_outcome("dir".to_string(), false, "exit status: 1".to_string()),
        Err(GitError::new("dir".to_string(), "exit status: 1".to_string()))
    );
}

#[test]
fn test_cloner_invocation() {
    let inv: Invocation = GitCmd::default().cloner("dash", &repo("magnars", "dash.el"));
    assert_eq!(inv.program, "git");
    assert_eq!(
        inv.args,
        vec!["-c", "color.ui=always", "clone", "https://github.com/magnars/dash.el.git", "dash"]
    );
    assert_eq!(inv.current_dir, None);
}

#[test]
fn test_pull_invocation() {
    let inv: Invocation = GitCmd::new("/opt/bin/git").pull("dash");
    assert_eq!(inv.program, "/opt/bin/git");
    assert_eq!(inv.args, vec!["-c", "color.ui=always", "pull", "--ff-only"]);
    assert_eq!(inv.current_dir, Some("dash".to_string()));
}

#[test]
fn test_sync_one_picks_pull_or_clone() {
    let git = GitCmd::default();
    let r = repo("magnars", "dash.el");
    let pull = sync_one(&git, "dash", &r, true);
    assert_eq!(pull.args[2], "pull");
    assert_eq!(pull.current_dir, Some("dash".to_string()));
    let clone = sync_one(&git, "dash", &r, false);
    assert_eq!(clone.args[2], "clone");
    assert_eq!(clone.args[3], "https://github.com/magnars/dash.el.git");
    assert_eq!(clone.current_dir, None);
}

#[test]
fn test_should_sync_gating() {
    let explicit = Selection::Explicit(repo("a", "b"));
    let optional = Selection::Optional(repo("a", "b"));
    assert!(should_sync(&explicit, false));
    assert!(should_sync(&explicit, true));
    assert!(!should_sync(&optional, false));
    assert!(should_sync(&optional, true));
}

#[test]
fn test_pull_check_order() {
    assert_eq!(pull_check(false, false), PullCheck::NoSuchDirectory);
    assert_eq!(pull_check(false, true), PullCheck::NoSuchDirectory);
    assert_eq!(pull_check(true, false), PullCheck::NotGitRepository);
    assert_eq!(pull_check(true, true), PullCheck::Proceed);
}

#[test]
fn test_list_mark_filters() {
    let explicit = Selection::Explicit(repo("a", "b"));
    let optional = Selection::Optional(repo("a", "b"));
    assert_eq!(list_mark(&explicit.as_ref(), true, true, true), Some("*"));
    assert_eq!(list_mark(&explicit.as_ref(), false, true, true), Some("-"));
    assert_eq!(list_mark(&explicit.as_ref(), true, false, true), None);
    assert_eq!(list_mark(&optional.as_ref(), true, true, true), Some("o"));
    assert_eq!(list_mark(&optional.as_ref(), false, true, true), Some(" "));
    assert_eq!(list_mark(&optional.as_ref(), true, true, false), None);
}

#[test]
fn test_is_unknown_filter() {
    color_init();
    let cfg = Config::new(
        GitCmd::default(),
        None,
        Concurrency::default(),
        vec![("proj".to_string(), Selection::Explicit(repo("a", "proj")))],
    );
    assert!(!is_unknown(&cfg, "proj"));
    assert!(!is_unknown(&cfg, ".hidden"));
    assert!(is_unknown(&cfg, "other"));
    assert!(is_unknown(&cfg, ""));
}
