use gtea::git::{changelog_between, changelog_for_n, changelog_since, clone, commit};
use gtea::exec::{
    branch_from_output, git_changelog, git_clone, git_commit, git_create, git_current_branch,
    git_init, git_local_changes, git_push, git_rebase, git_rev_parse, git_show_ref,
    git_stash_pop, git_stash_push, git_worktree_list,
};

#[test]
fn command_lines() {
    assert_eq!(git_push("origin", "main"), "git push -u origin heads/main");
    assert_eq!(git_commit("msg"), "git commit -m msg");
    assert_eq!(
        git_changelog("a..b"),
        "git -c pager.show=false show --format=\" - %C(yellow)%h%C(reset) %<(80,trunc)%s\" -q a..b"
    );
    assert_eq!(git_rev_parse("HEAD"), "git rev-parse --short HEAD");
    assert_eq!(git_show_ref("main"), "git rev-parse --short $(git show-ref -s main)");
    assert_eq!(git_init(), "git init");
    assert_eq!(git_clone("u/r"), "gh repo clone u/r");
    assert_eq!(git_create("r"), "gh repo create r --public --source=. --remote=origin --push");
    assert_eq!(git_current_branch(), "git branch --show-current");
    assert_eq!(git_worktree_list(), "git worktree list --porcelain");
    assert_eq!(git_local_changes(), "test -z \"$(git diff)\" || exit 1");
    assert_eq!(git_stash_push(), "git stash -a -u");
    assert_eq!(git_stash_pop(), "git stash pop -q");
    assert_eq!(git_rebase("foo/bar"), "git rebase heads/foo/bar");
}

#[test]
fn branch_output_loses_trailing_line_feeds() {
    assert_eq!(branch_from_output("main\n"), "main");
    assert_eq!(branch_from_output("a\nb\n\n"), "a\nb");
    assert_eq!(branch_from_output(""), "");
}

#[test]
fn commit_and_changelog_lines() {
    assert_eq!(commit("feat", Some("cli"), "add"), "git commit -m feat(cli): add");
    assert_eq!(commit("fix", None, "typo"), "git commit -m fix: typo");
    let fmt = "git -c pager.show=false show --format=\" - %C(yellow)%h%C(reset) %<(80,trunc)%s\" -q ";
    assert_eq!(changelog_for_n("3"), format!("{fmt}HEAD~3..HEAD"));
    assert_eq!(changelog_between("a", "b"), format!("{fmt}a..b"));
    assert_eq!(changelog_since("abc"), format!("{fmt}abc..@@{{0}}"));
    assert_eq!(clone("u/r"), "gh repo clone u/r -- --filter=blob:none");
}
