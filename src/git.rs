use vstd::prelude::*;

use crate::exec::{git_changelog, git_clone, git_commit};

verus! {

/// A conventional commit message: `type(scope): message`, or `type: message`
/// without a scope.
pub open spec fn commit_message(t: Seq<char>, scope: Option<Seq<char>>, msg: Seq<char>) -> Seq<char> {
    match scope {
        Some(s) => t + "("@ + s + "): "@ + msg,
        None => t + ": "@ + msg,
    }
}

/// The characters of an optional string slice.
pub open spec fn str_opt_view(o: Option<&str>) -> Option<Seq<char>> {
    match o {
        Some(s) => Some(s@),
        None => None,
    }
}

/// The command line that commits with the message of type `t`, optional
/// `scope` and text `msg`.
pub fn commit(t: &str, scope: Option<&str>, msg: &str) -> (r: String)
    ensures
        r@ == "git commit -m "@ + commit_message(t@, str_opt_view(scope), msg@),
{
    let mut message = String::from_str(t);
    match scope {
        Some(s) => {
            message.append("(");
            message.append(s);
            message.append("): ");
        },
        None => {
            message.append(": ");
        },
    }
    message.append(msg);
    git_commit(message.as_str())
}

/// The command line that shows the last `n` commits.
pub fn changelog_for_n(n: &str) -> (r: String)
    ensures
        r@ == "git -c pager.show=false show --format=\" - %C(yellow)%h%C(reset) %<(80,trunc)%s\" -q "@
            + ("HEAD~"@ + n@ + "..HEAD"@),
{
    let mut range = String::from_str("HEAD~");
    range.append(n);
    range.append("..HEAD");
    git_changelog(range.as_str())
}

/// The command line that shows the commits after `start` up to `end`.
pub fn changelog_between(start: &str, end: &str) -> (r: String)
    ensures
        r@ == "git -c pager.show=false show --format=\" - %C(yellow)%h%C(reset) %<(80,trunc)%s\" -q "@
            + (start@ + ".."@ + end@),
{
    let mut range = String::from_str(start);
    range.append("..");
    range.append(end);
    git_changelog(range.as_str())
}

/// The command line that shows the commits after `hash` up to the previous
/// position of the current branch.
pub fn changelog_since(hash: &str) -> (r: String)
    ensures
        r@ == "git -c pager.show=false show --format=\" - %C(yellow)%h%C(reset) %<(80,trunc)%s\" -q "@
            + (hash@ + "..@@{0}"@),
{
    let mut range = String::from_str(hash);
    range.append("..@@{0}");
    git_changelog(range.as_str())
}

/// The command line that clones `url` without fetching file contents up front.
pub fn clone(url: &str) -> (r: String)
    ensures
        r@ == "gh repo clone "@ + (url@ + " -- --filter=blob:none"@),
{
    let mut arg = String::from_str(url);
    arg.append(" -- --filter=blob:none");
    git_clone(arg.as_str())
}

} // verus!
