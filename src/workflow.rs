use vstd::prelude::*;

use crate::config::Config;
use crate::error::{Error, ErrorModel};
use crate::rebase::{start, Rebase, RebaseModel};
use crate::worktree::{Worktree, WorktreeModel};

verus! {

/// The parent of branch `child`: the nightly branch when it is enabled and
/// `child` is not itself the nightly branch, else the main branch.
pub open spec fn parent_of(c: Config, child: Seq<char>) -> Seq<char> {
    if c.nightly.enable && child != c.nightly.branch@ {
        c.nightly.branch@
    } else {
        c.main.branch@
    }
}

/// The name of the parent branch of branch `child`.
pub fn get_parent_branch(config: &Config, child: &str) -> (r: String)
    ensures
        r@ == parent_of(*config, child@),
{
    let c = String::from_str(child);
    if config.nightly.enable && !(c == config.nightly.branch) {
        config.nightly.branch.clone()
    } else {
        config.main.branch.clone()
    }
}

/// The two-level hierarchy: with the nightly branch disabled every branch
/// hangs under the main branch; with it enabled the nightly branch hangs under
/// the main branch and every other branch under the nightly branch.
pub proof fn lemma_parent_tiers(c: Config, child: Seq<char>)
    ensures
        !c.nightly.enable ==> parent_of(c, child) == c.main.branch@,
        c.nightly.enable && child == c.nightly.branch@ ==> parent_of(c, child) == c.main.branch@,
        c.nightly.enable && child != c.nightly.branch@ ==> parent_of(c, child)
            == c.nightly.branch@,
{
}

/// A record that hosts branch `b`: it is checked out, at `b`.
pub open spec fn hosts(w: WorktreeModel, b: Seq<char>) -> bool {
    !w.bare && w.branch == Some(b)
}

/// The error that reports that no worktree hosts branch `b`.
pub open spec fn not_found_error(b: Seq<char>) -> ErrorModel {
    ErrorModel::NotFound("worktree for branch "@ + b + " not found."@)
}

/// Entry `i` is the first, in listing order, that hosts branch `b`.
pub open spec fn is_first_host(ws: Seq<Worktree>, b: Seq<char>, i: int) -> bool {
    &&& 0 <= i < ws.len()
    &&& hosts(ws[i]@, b)
    &&& forall|j: int| 0 <= j < i ==> !hosts(#[trigger] ws[j]@, b)
}

/// No entry hosts branch `b`.
pub open spec fn no_host(ws: Seq<Worktree>, b: Seq<char>) -> bool {
    forall|i: int| 0 <= i < ws.len() ==> !hosts(#[trigger] ws[i]@, b)
}

/// The directory of the first worktree, in listing order, that hosts `branch`.
pub fn get_branch_dir(worktrees: &Vec<Worktree>, branch: &str) -> (r: Result<String, Error>)
    ensures
        match r {
            Ok(dir) => exists|i: int|
                is_first_host(worktrees@, branch@, i) && dir@ == (#[trigger] worktrees@[i])@.worktree,
            Err(e) => e@ == not_found_error(branch@) && no_host(worktrees@, branch@),
        },
{
    let target = String::from_str(branch);
    let mut i: usize = 0;
    while i < worktrees.len()
        invariant
            i <= worktrees@.len(),
            target@ == branch@,
            forall|j: int| 0 <= j < i ==> !hosts(#[trigger] worktrees@[j]@, branch@),
        decreases worktrees.len() - i,
    {
        let w = &worktrees[i];
        if !w.bare {
            match &w.branch {
                Some(b) => {
                    if *b == target {
                        return Ok(w.worktree.clone());
                    }
                },
                None => {},
            }
        }
        i = i + 1;
    }
    let mut msg = String::from_str("worktree for branch ");
    msg.append(branch);
    msg.append(" not found.");
    Err(Error::NotFound(msg))
}

/// The directory of the worktree that hosts the parent branch of `child`.
pub fn get_parent_dir(config: &Config, worktrees: &Vec<Worktree>, child: &str) -> (r: Result<
    String,
    Error,
>)
    ensures
        match r {
            Ok(dir) => exists|i: int|
                is_first_host(worktrees@, parent_of(*config, child@), i) && dir@
                    == (#[trigger] worktrees@[i])@.worktree,
            Err(e) => e@ == not_found_error(parent_of(*config, child@)) && no_host(
                worktrees@,
                parent_of(*config, child@),
            ),
        },
{
    let parent = get_parent_branch(config, child);
    get_branch_dir(worktrees, parent.as_str())
}

/// Brings branch `branch`, checked out in `cwd`, up to date with its parent:
/// the rebase of `cwd` onto the worktree of the parent branch.
pub fn update(config: &Config, worktrees: &Vec<Worktree>, cwd: &str, branch: &str) -> (r: Result<
    Rebase,
    Error,
>)
    ensures
        match r {
            Ok(m) => exists|i: int|
                is_first_host(worktrees@, parent_of(*config, branch@), i) && m@ == start(
                    cwd@,
                    (#[trigger] worktrees@[i])@.worktree,
                ),
            Err(e) => e@ == not_found_error(parent_of(*config, branch@)) && no_host(
                worktrees@,
                parent_of(*config, branch@),
            ),
        },
{
    let parent_dir = get_parent_dir(config, worktrees, branch)?;
    Ok(Rebase::new(cwd, parent_dir.as_str()))
}

/// Hands the changes of branch `branch` on to its parent: the rebase of the
/// parent's worktree onto the worktree of `branch`. With `upstream` it then
/// pushes the parent branch to `origin`, from `cwd`.
pub fn push(
    config: &Config,
    worktrees: &Vec<Worktree>,
    cwd: &str,
    branch: &str,
    upstream: bool,
) -> (r: Result<Rebase, Error>)
    ensures
        ({
            let parent = parent_of(*config, branch@);
            match r {
                Ok(m) => exists|i: int, k: int|
                    is_first_host(worktrees@, branch@, i) && is_first_host(worktrees@, parent, k)
                        && m@ == (RebaseModel {
                        push: if upstream {
                            Some((parent, cwd@))
                        } else {
                            None
                        },
                        ..start((#[trigger] worktrees@[k])@.worktree, (#[trigger] worktrees@[i])@.worktree)
                    }),
                Err(e) => {
                    ||| e@ == not_found_error(branch@) && no_host(worktrees@, branch@)
                    ||| e@ == not_found_error(parent) && no_host(worktrees@, parent)
                        && exists|i: int| is_first_host(worktrees@, branch@, i)
                },
            }
        }),
{
    let branch_dir = get_branch_dir(worktrees, branch)?;
    let parent = get_parent_branch(config, branch);
    let parent_dir = get_branch_dir(worktrees, parent.as_str())?;
    let mut m = Rebase::new(parent_dir.as_str(), branch_dir.as_str());
    if upstream {
        m.push = Some((parent, String::from_str(cwd)));
    }
    Ok(m)
}

} // verus!
