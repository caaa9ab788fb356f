use vstd::prelude::*;

use crate::text::{chars_of, skip_back, skip_back_exec};

verus! {

/// The command line that pushes `branch` to `remote` and sets it as upstream.
pub fn git_push(remote: &str, branch: &str) -> (r: String)
    ensures
        r@ == "git push -u "@ + remote@ + " heads/"@ + branch@,
{
    let mut r = String::from_str("git push -u ");
    r.append(remote);
    r.append(" heads/");
    r.append(branch);
    r
}

/// The command line that commits the staged changes with message `msg`.
pub fn git_commit(msg: &str) -> (r: String)
    ensures
        r@ == "git commit -m "@ + msg@,
{
    let mut r = String::from_str("git commit -m ");
    r.append(msg);
    r
}

/// The command line that prints one line per commit of the range `arg`.
pub fn git_changelog(arg: &str) -> (r: String)
    ensures
        r@ == "git -c pager.show=false show --format=\" - %C(yellow)%h%C(reset) %<(80,trunc)%s\" -q "@
            + arg@,
{
    let mut r = String::from_str(
        "git -c pager.show=false show --format=\" - %C(yellow)%h%C(reset) %<(80,trunc)%s\" -q ",
    );
    r.append(arg);
    r
}

/// The command line that prints the short hash of the ref `arg`.
pub fn git_rev_parse(arg: &str) -> (r: String)
    ensures
        r@ == "git rev-parse --short "@ + arg@,
{
    let mut r = String::from_str("git rev-parse --short ");
    r.append(arg);
    r
}

/// The command line that prints the short hash of the branch `arg`.
pub fn git_show_ref(arg: &str) -> (r: String)
    ensures
        r@ == "git rev-parse --short "@ + ("$(git show-ref -s "@ + arg@ + ")"@),
{
    let mut inner = String::from_str("$(git show-ref -s ");
    inner.append(arg);
    inner.append(")");
    git_rev_parse(inner.as_str())
}

/// The command line that creates a repository.
pub fn git_init() -> (r: String)
    ensures
        r@ == "git init"@,
{
    String::from_str("git init")
}

/// The command line that clones the hosted repository `arg`.
pub fn git_clone(arg: &str) -> (r: String)
    ensures
        r@ == "gh repo clone "@ + arg@,
{
    let mut r = String::from_str("gh repo clone ");
    r.append(arg);
    r
}

/// The command line that creates a public hosted repository `name` from the
/// current one, adds it as `origin` and pushes.
pub fn git_create(name: &str) -> (r: String)
    ensures
        r@ == "gh repo create "@ + name@ + " --public --source=. --remote=origin --push"@,
{
    let mut r = String::from_str("gh repo create ");
    r.append(name);
    r.append(" --public --source=. --remote=origin --push");
    r
}

/// The command line that prints the branch checked out where it runs.
pub fn git_current_branch() -> (r: String)
    ensures
        r@ == "git branch --show-current"@,
{
    String::from_str("git branch --show-current")
}

/// The branch name in what `git_current_branch` printed: the output without
/// its trailing line feeds.
pub fn branch_from_output(output: &str) -> (r: String)
    ensures
        r@ == output@.subrange(0, skip_back(output@, 0, output@.len() as int, '\n')),
{
    let s = chars_of(output);
    let end = skip_back_exec(&s, 0, s.len(), '\n');
    String::from_str(output.substring_char(0, end))
}

/// The command line that prints the worktree listing in its machine-readable form.
pub fn git_worktree_list() -> (r: String)
    ensures
        r@ == "git worktree list --porcelain"@,
{
    String::from_str("git worktree list --porcelain")
}

/// The command line that succeeds exactly when the working tree has no
/// uncommitted changes.
pub fn git_local_changes() -> (r: String)
    ensures
        r@ == "test -z \"$(git diff)\" || exit 1"@,
{
    String::from_str("test -z \"$(git diff)\" || exit 1")
}

/// The command line that stashes every local change, untracked and ignored
/// files included.
pub fn git_stash_push() -> (r: String)
    ensures
        r@ == "git stash -a -u"@,
{
    String::from_str("git stash -a -u")
}

/// The command line that applies and drops the latest stash.
pub fn git_stash_pop() -> (r: String)
    ensures
        r@ == "git stash pop -q"@,
{
    String::from_str("git stash pop -q")
}

/// The command line that rebases the current branch onto the local branch
/// `branch`, named in full so that no tag or remote of that name is taken.
pub fn git_rebase(branch: &str) -> (r: String)
    ensures
        r@ == "git rebase heads/"@ + branch@,
{
    let mut r = String::from_str("git rebase heads/");
    r.append(branch);
    r
}

} // verus!
