use gtea::config::Config;
use gtea::error::Error;
use gtea::workflow::{get_branch_dir, get_parent_branch, get_parent_dir, push, update};
use gtea::worktree::Worktree;

fn listing() -> Vec<Worktree> {
    Worktree::from_string(
        "worktree /r.git\nbare\n\nworktree /r.git/foo\nHEAD 1\nbranch refs/heads/foo\n\nworktree /r.git/bar\nHEAD 2\nbranch refs/heads/bar\n\nworktree /r.git/main\nHEAD 3\nbranch refs/heads/main\n\nworktree /r.git/foo2\nHEAD 4\nbranch refs/heads/foo\n",
    )
    .unwrap()
}

fn nightly_config() -> Config {
    let mut c = Config::default();
    c.nightly.enable = true;
    c
}

#[test]
fn branch_dir_first_match_wins() {
    let ws = listing();
    assert_eq!(get_branch_dir(&ws, "foo").unwrap(), "/r.git/foo");
    assert_eq!(get_branch_dir(&ws, "bar").unwrap(), "/r.git/bar");
}

#[test]
fn branch_dir_not_found() {
    let ws = listing();
    match get_branch_dir(&ws, "baz") {
        Err(Error::NotFound(m)) => assert_eq!(m, "worktree for branch baz not found."),
        other => panic!("unexpected result {:?}", other),
    }
    match get_branch_dir(&ws, "Foo") {
        Err(Error::NotFound(_)) => {}
        other => panic!("unexpected result {:?}", other),
    }
}

#[test]
fn bare_entries_never_match() {
    let ws = vec![Worktree {
        worktree: "/r.git".to_string(),
        bare: true,
        head: None,
        branch: Some("x".to_string()),
    }];
    assert!(get_branch_dir(&ws, "x").is_err());
}

#[test]
fn parent_without_nightly_is_main() {
    let c = Config::default();
    assert_eq!(get_parent_branch(&c, "feature-x"), "main");
    assert_eq!(get_parent_branch(&c, "nightly"), "main");
    assert_eq!(get_parent_branch(&c, "main"), "main");
}

#[test]
fn parent_with_nightly() {
    let c = nightly_config();
    assert_eq!(get_parent_branch(&c, "nightly"), "main");
    assert_eq!(get_parent_branch(&c, "feature-x"), "nightly");
}

#[test]
fn parent_dir_follows_parent_branch() {
    let ws = listing();
    assert_eq!(get_parent_dir(&Config::default(), &ws, "foo").unwrap(), "/r.git/main");
    assert!(matches!(get_parent_dir(&nightly_config(), &ws, "foo"), Err(Error::NotFound(_))));
}

#[test]
fn update_rebases_cwd_onto_parent() {
    let ws = listing();
    let m = update(&Config::default(), &ws, "/r.git/foo", "foo").unwrap();
    assert_eq!(m.root, "/r.git/foo");
    assert_eq!(m.ahead, "/r.git/main");
    assert!(m.push.is_none());
    assert!(update(&nightly_config(), &ws, "/r.git/foo", "foo").is_err());
}

#[test]
fn push_rebases_parent_onto_child() {
    let ws = listing();
    let m = push(&Config::default(), &ws, "/here", "bar", true).unwrap();
    assert_eq!(m.root, "/r.git/main");
    assert_eq!(m.ahead, "/r.git/bar");
    assert_eq!(m.push, Some(("main".to_string(), "/here".to_string())));
    let m = push(&Config::default(), &ws, "/here", "bar", false).unwrap();
    assert!(m.push.is_none());
    match push(&Config::default(), &ws, "/here", "baz", false) {
        Err(Error::NotFound(m)) => assert_eq!(m, "worktree for branch baz not found."),
        _ => panic!("expected a missing branch"),
    }
}

#[test]
fn config_defaults_and_path() {
    let c = Config::default();
    assert_eq!(c.main.branch, "main");
    assert_eq!(c.nightly.branch, "nightly");
    assert!(!c.nightly.enable);
    assert_eq!(c.feature.prefix, "feature");
    assert_eq!(Config::path("/home/u/repo"), "/home/u/repo/gtea.toml");
}

#[test]
fn error_message() {
    assert_eq!(Error::Command("boom".to_string()).message(), "boom");
    assert_eq!(Error::Parse("p".to_string()).message(), "p");
}

#[test]
fn find_dir_in_two_stanza_listing() {
    let ws = Worktree::from_string(
        "worktree /r/foo\nHEAD 1111111111111111111111111111111111111111\nbranch refs/heads/foo\n\nworktree /r/bar\nHEAD 2222222222222222222222222222222222222222\nbranch refs/heads/bar\n",
    )
    .unwrap();
    assert_eq!(get_branch_dir(&ws, "foo").unwrap(), "/r/foo");
    assert!(matches!(get_branch_dir(&ws, "baz"), Err(Error::NotFound(_))));
}
