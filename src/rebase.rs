use vstd::prelude::*;

use crate::error::{Error, ErrorModel};
use crate::exec::{
    branch_from_output, git_current_branch, git_local_changes, git_push, git_rebase,
    git_stash_pop, git_stash_push,
};
use crate::text::skip_back;

verus! {

/// A call to the version-control tool, with the directory it runs in.
#[derive(Debug, Clone)]
pub enum Call {
    /// Whether the working tree has uncommitted changes.
    LocalChanges { dir: String },
    /// Stash every local change.
    StashPush { dir: String },
    /// Which branch is checked out.
    CurrentBranch { dir: String },
    /// Rebase the checked-out branch onto `branch`.
    Rebase { branch: String, dir: String },
    /// Apply and drop the latest stash.
    StashPop { dir: String },
    /// Push `branch` to the remote `origin`.
    Push { branch: String, dir: String },
}

/// What a `Call` holds, as character sequences.
pub enum CallModel {
    LocalChanges(Seq<char>),
    StashPush(Seq<char>),
    CurrentBranch(Seq<char>),
    /// The branch, then the directory.
    Rebase(Seq<char>, Seq<char>),
    StashPop(Seq<char>),
    /// The branch, then the directory.
    Push(Seq<char>, Seq<char>),
}

impl View for Call {
    type V = CallModel;

    open spec fn view(&self) -> CallModel {
        match self {
            Call::LocalChanges { dir } => CallModel::LocalChanges(dir@),
            Call::StashPush { dir } => CallModel::StashPush(dir@),
            Call::CurrentBranch { dir } => CallModel::CurrentBranch(dir@),
            Call::Rebase { branch, dir } => CallModel::Rebase(branch@, dir@),
            Call::StashPop { dir } => CallModel::StashPop(dir@),
            Call::Push { branch, dir } => CallModel::Push(branch@, dir@),
        }
    }
}

/// The command line that carries out a call.
pub open spec fn command_of(c: CallModel) -> Seq<char> {
    match c {
        CallModel::LocalChanges(_) => "test -z \"$(git diff)\" || exit 1"@,
        CallModel::StashPush(_) => "git stash -a -u"@,
        CallModel::CurrentBranch(_) => "git branch --show-current"@,
        CallModel::Rebase(b, _) => "git rebase heads/"@ + b,
        CallModel::StashPop(_) => "git stash pop -q"@,
        CallModel::Push(b, _) => "git push -u "@ + "origin"@ + " heads/"@ + b,
    }
}

/// The directory that a call runs in.
pub open spec fn dir_of(c: CallModel) -> Seq<char> {
    match c {
        CallModel::LocalChanges(d) => d,
        CallModel::StashPush(d) => d,
        CallModel::CurrentBranch(d) => d,
        CallModel::Rebase(_, d) => d,
        CallModel::StashPop(d) => d,
        CallModel::Push(_, d) => d,
    }
}

impl Call {
    /// The command line to run.
    pub fn command_line(&self) -> (r: String)
        ensures
            r@ == command_of(self@),
    {
        match self {
            Call::LocalChanges { .. } => git_local_changes(),
            Call::StashPush { .. } => git_stash_push(),
            Call::CurrentBranch { .. } => git_current_branch(),
            Call::Rebase { branch, .. } => git_rebase(branch.as_str()),
            Call::StashPop { .. } => git_stash_pop(),
            Call::Push { branch, .. } => git_push("origin", branch.as_str()),
        }
    }

    /// The directory to run it in.
    pub fn dir(&self) -> (r: String)
        ensures
            r@ == dir_of(self@),
    {
        match self {
            Call::LocalChanges { dir } => dir.clone(),
            Call::StashPush { dir } => dir.clone(),
            Call::CurrentBranch { dir } => dir.clone(),
            Call::Rebase { dir, .. } => dir.clone(),
            Call::StashPop { dir } => dir.clone(),
            Call::Push { dir, .. } => dir.clone(),
        }
    }

    /// A probe answers with its exit status: a status other than zero is an
    /// answer, not a failure.
    pub fn is_probe(&self) -> (r: bool)
        ensures
            r == self@ is LocalChanges,
    {
        match self {
            Call::LocalChanges { .. } => true,
            _ => false,
        }
    }
}

/// How a call ended.
#[derive(Debug, Clone)]
pub enum Reply {
    /// It exited with status zero; holds its standard output.
    Succeeded(String),
    /// A probe exited with another status: its condition does not hold.
    Declined,
    /// It could not run, or failed; holds what was reported.
    Failed(String),
}

/// What a `Reply` holds, as character sequences.
pub enum ReplyModel {
    Succeeded(Seq<char>),
    Declined,
    Failed(Seq<char>),
}

impl View for Reply {
    type V = ReplyModel;

    open spec fn view(&self) -> ReplyModel {
        match self {
            Reply::Succeeded(s) => ReplyModel::Succeeded(s@),
            Reply::Declined => ReplyModel::Declined,
            Reply::Failed(s) => ReplyModel::Failed(s@),
        }
    }
}

/// Where a rebase stands: each phase but the last waits for the reply to
/// one call.
#[derive(Debug, Clone, Copy, PartialEq, Eq, Structural)]
pub enum Phase {
    Checking,
    Reading,
    Stashing,
    Rebasing,
    Popping,
    Pushing,
    Finished,
}

/// A rebase of the branch checked out in `root` onto the branch checked out
/// in `ahead`, that keeps the local changes of `root` aside meanwhile.
/// Optionally it pushes a branch afterwards.
pub struct Rebase {
    pub root: String,
    pub ahead: String,
    /// The branch of `ahead`, once read.
    pub branch: String,
    /// Whether `root` has local changes, which are stashed around the rebase.
    pub stashed: bool,
    /// The branch to push to `origin` when all went well, and where to push from.
    pub push: Option<(String, String)>,
    pub phase: Phase,
}

/// What a `Rebase` holds, as character sequences.
pub struct RebaseModel {
    pub root: Seq<char>,
    pub ahead: Seq<char>,
    pub branch: Seq<char>,
    pub stashed: bool,
    pub push: Option<(Seq<char>, Seq<char>)>,
    pub phase: Phase,
}

impl View for Rebase {
    type V = RebaseModel;

    open spec fn view(&self) -> RebaseModel {
        RebaseModel {
            root: self.root@,
            ahead: self.ahead@,
            branch: self.branch@,
            stashed: self.stashed,
            push: match self.push {
                Some((b, d)) => Some((b@, d@)),
                None => None,
            },
            phase: self.phase,
        }
    }
}

/// What to do after a reply.
#[derive(Debug)]
pub enum Next {
    /// Make this call and hand its reply to the rebase.
    Run(Call),
    /// The rebase is over, with this result.
    Finish(Result<(), Error>),
}

/// What a `Next` holds, as character sequences.
pub enum NextModel {
    Run(CallModel),
    Finish(Result<(), ErrorModel>),
}

impl View for Next {
    type V = NextModel;

    open spec fn view(&self) -> NextModel {
        match self {
            Next::Run(c) => NextModel::Run(c@),
            Next::Finish(Ok(())) => NextModel::Finish(Ok(())),
            Next::Finish(Err(e)) => NextModel::Finish(Err(e@)),
        }
    }
}

/// The call that a rebase waits on in each phase.
pub open spec fn pending(m: RebaseModel) -> CallModel {
    match m.phase {
        Phase::Checking => CallModel::LocalChanges(m.root),
        Phase::Stashing => CallModel::StashPush(m.root),
        Phase::Reading => CallModel::CurrentBranch(m.ahead),
        Phase::Rebasing => CallModel::Rebase(m.branch, m.root),
        Phase::Popping => CallModel::StashPop(m.root),
        Phase::Pushing => match m.push {
            Some((b, d)) => CallModel::Push(b, d),
            None => CallModel::Push(Seq::empty(), Seq::empty()),
        },
        Phase::Finished => CallModel::LocalChanges(m.root),
    }
}

/// Go on in state `m` and make the call that it waits for.
pub open spec fn go(m: RebaseModel) -> (RebaseModel, NextModel) {
    (m, NextModel::Run(pending(m)))
}

/// What a failed call reported.
pub open spec fn failure_message(r: ReplyModel) -> Seq<char> {
    match r {
        ReplyModel::Failed(msg) => msg,
        _ => "unexpected exit status"@,
    }
}

/// Stop on a failed call.
pub open spec fn fail(m: RebaseModel, r: ReplyModel) -> (RebaseModel, NextModel) {
    (
        RebaseModel { phase: Phase::Finished, ..m },
        NextModel::Finish(Err(ErrorModel::Command(failure_message(r)))),
    )
}

/// The rebase itself is done: push if asked to, else finish.
pub open spec fn rebased(m: RebaseModel) -> (RebaseModel, NextModel) {
    match m.push {
        Some(_) => go(RebaseModel { phase: Phase::Pushing, ..m }),
        None => (RebaseModel { phase: Phase::Finished, ..m }, NextModel::Finish(Ok(()))),
    }
}

/// One step: the reply `r` to the pending call of `m` gives the next state,
/// and the next call or the result.
///
/// The branch of `ahead` is read before anything changes; local changes are
/// then stashed just before the rebase and popped after it. A call that
/// fails ends the rebase at once with nothing undone: a failed read leaves no
/// stash, and a stash made before a failed rebase stays, never popped.
pub open spec fn step_spec(m: RebaseModel, r: ReplyModel) -> (RebaseModel, NextModel) {
    match m.phase {
        Phase::Checking => match r {
            ReplyModel::Succeeded(_) => go(RebaseModel { phase: Phase::Reading, stashed: false, ..m }),
            ReplyModel::Declined => go(RebaseModel { phase: Phase::Reading, stashed: true, ..m }),
            ReplyModel::Failed(_) => fail(m, r),
        },
        Phase::Reading => match r {
            ReplyModel::Succeeded(out) => go(
                RebaseModel {
                    phase: if m.stashed {
                        Phase::Stashing
                    } else {
                        Phase::Rebasing
                    },
                    branch: out.subrange(0, skip_back(out, 0, out.len() as int, '\n')),
                    ..m
                },
            ),
            _ => fail(m, r),
        },
        Phase::Stashing => match r {
            ReplyModel::Succeeded(_) => go(RebaseModel { phase: Phase::Rebasing, ..m }),
            _ => fail(m, r),
        },
        Phase::Rebasing => match r {
            ReplyModel::Succeeded(_) => if m.stashed {
                go(RebaseModel { phase: Phase::Popping, ..m })
            } else {
                rebased(m)
            },
            _ => fail(m, r),
        },
        Phase::Popping => match r {
            ReplyModel::Succeeded(_) => rebased(m),
            _ => fail(m, r),
        },
        Phase::Pushing => match r {
            ReplyModel::Succeeded(_) => (
                RebaseModel { phase: Phase::Finished, ..m },
                NextModel::Finish(Ok(())),
            ),
            _ => fail(m, r),
        },
        Phase::Finished => (m, NextModel::Finish(Ok(()))),
    }
}

impl Rebase {
    /// A rebase of `root` onto the branch of `ahead`; it starts by asking
    /// whether `root` has local changes.
    pub fn new(root: &str, ahead: &str) -> (r: Rebase)
        ensures
            r@ == (RebaseModel {
                root: root@,
                ahead: ahead@,
                branch: Seq::empty(),
                stashed: false,
                push: None,
                phase: Phase::Checking,
            }),
    {
        Rebase {
            root: String::from_str(root),
            ahead: String::from_str(ahead),
            branch: String::new(),
            stashed: false,
            push: None,
            phase: Phase::Checking,
        }
    }

    /// Whether the rebase is over.
    pub fn is_finished(&self) -> (r: bool)
        ensures
            r == (self@.phase == Phase::Finished),
    {
        self.phase == Phase::Finished
    }

    /// The call whose reply the rebase waits for.
    pub fn pending_call(&self) -> (r: Call)
        ensures
            r@ == pending(self@),
    {
        match self.phase {
            Phase::Checking => Call::LocalChanges { dir: self.root.clone() },
            Phase::Stashing => Call::StashPush { dir: self.root.clone() },
            Phase::Reading => Call::CurrentBranch { dir: self.ahead.clone() },
            Phase::Rebasing => Call::Rebase { branch: self.branch.clone(), dir: self.root.clone() },
            Phase::Popping => Call::StashPop { dir: self.root.clone() },
            Phase::Pushing => match &self.push {
                Some((b, d)) => Call::Push { branch: b.clone(), dir: d.clone() },
                None => Call::Push { branch: String::new(), dir: String::new() },
            },
            Phase::Finished => Call::LocalChanges { dir: self.root.clone() },
        }
    }

    fn go(&mut self, p: Phase) -> (r: Next)
        ensures
            (final(self)@, r@) == go(RebaseModel { phase: p, ..old(self)@ }),
    {
        self.phase = p;
        Next::Run(self.pending_call())
    }

    fn fail(&mut self, reply: Reply) -> (r: Next)
        ensures
            (final(self)@, r@) == fail(old(self)@, reply@),
    {
        self.phase = Phase::Finished;
        let msg = match reply {
            Reply::Failed(msg) => msg,
            _ => String::from_str("unexpected exit status"),
        };
        Next::Finish(Err(Error::Command(msg)))
    }

    fn rebased(&mut self) -> (r: Next)
        ensures
            (final(self)@, r@) == rebased(old(self)@),
    {
        if self.push.is_some() {
            self.go(Phase::Pushing)
        } else {
            self.phase = Phase::Finished;
            Next::Finish(Ok(()))
        }
    }

    /// Takes the reply to the pending call and says what comes next.
    pub fn step(&mut self, reply: Reply) -> (r: Next)
        requires
            old(self)@.phase != Phase::Finished,
        ensures
            (final(self)@, r@) == step_spec(old(self)@, reply@),
    {
        match self.phase {
            Phase::Checking => match reply {
                Reply::Succeeded(_) => {
                    self.stashed = false;
                    self.go(Phase::Reading)
                },
                Reply::Declined => {
                    self.stashed = true;
                    self.go(Phase::Reading)
                },
                Reply::Failed(_) => self.fail(reply),
            },
            Phase::Reading => match reply {
                Reply::Succeeded(out) => {
                    self.branch = branch_from_output(out.as_str());
                    if self.stashed {
                        self.go(Phase::Stashing)
                    } else {
                        self.go(Phase::Rebasing)
                    }
                },
                _ => self.fail(reply),
            },
            Phase::Stashing => match reply {
                Reply::Succeeded(_) => self.go(Phase::Rebasing),
                _ => self.fail(reply),
            },
            Phase::Rebasing => match reply {
                Reply::Succeeded(_) => if self.stashed {
                    self.go(Phase::Popping)
                } else {
                    self.rebased()
                },
                _ => self.fail(reply),
            },
            Phase::Popping => match reply {
                Reply::Succeeded(_) => self.rebased(),
                _ => self.fail(reply),
            },
            Phase::Pushing => match reply {
                Reply::Succeeded(_) => {
                    self.phase = Phase::Finished;
                    Next::Finish(Ok(()))
                },
                _ => self.fail(reply),
            },
            Phase::Finished => Next::Finish(Ok(())),
        }
    }
}

/// The state that `Rebase::new(root, ahead)` gives.
pub open spec fn start(root: Seq<char>, ahead: Seq<char>) -> RebaseModel {
    RebaseModel {
        root,
        ahead,
        branch: Seq::empty(),
        stashed: false,
        push: None,
        phase: Phase::Checking,
    }
}

/// The calls that a rebase in state `m` makes when its calls get `replies`,
/// in order: the k-th call gets the k-th reply.
pub open spec fn trace(m: RebaseModel, replies: Seq<ReplyModel>) -> Seq<CallModel>
    decreases replies.len(),
{
    if m.phase == Phase::Finished {
        Seq::empty()
    } else if replies.len() == 0 {
        seq![pending(m)]
    } else {
        seq![pending(m)] + trace(step_spec(m, replies[0]).0, replies.drop_first())
    }
}

/// The result that a rebase in state `m` ends with when its calls get
/// `replies`; none while it still waits for a reply.
pub open spec fn outcome(m: RebaseModel, replies: Seq<ReplyModel>) -> Option<Result<(), ErrorModel>>
    decreases replies.len(),
{
    if m.phase == Phase::Finished || replies.len() == 0 {
        None
    } else {
        match step_spec(m, replies[0]).1 {
            NextModel::Finish(res) => Some(res),
            NextModel::Run(_) => outcome(step_spec(m, replies[0]).0, replies.drop_first()),
        }
    }
}

/// A step hands out a call exactly when the rebase goes on, and that call is
/// the one whose reply the next step takes.
pub proof fn lemma_step_hands_out_pending(m: RebaseModel, r: ReplyModel)
    requires
        m.phase != Phase::Finished,
    ensures
        match step_spec(m, r).1 {
            NextModel::Run(c) => step_spec(m, r).0.phase != Phase::Finished && c == pending(
                step_spec(m, r).0,
            ),
            NextModel::Finish(_) => step_spec(m, r).0.phase == Phase::Finished,
        },
{
}

/// With local changes in `root` and every call succeeding, a rebase checks
/// for changes, reads the branch of `ahead`, stashes the changes, rebases
/// onto that branch and pops the stash, in that order and nothing else; then
/// it succeeds.
pub proof fn lemma_rebase_with_local_changes(
    root: Seq<char>,
    ahead: Seq<char>,
    out: Seq<char>,
    o1: Seq<char>,
    o2: Seq<char>,
    o3: Seq<char>,
)
    ensures
        ({
            let replies = seq![
                ReplyModel::Declined,
                ReplyModel::Succeeded(out),
                ReplyModel::Succeeded(o1),
                ReplyModel::Succeeded(o2),
                ReplyModel::Succeeded(o3),
            ];
            let b = out.subrange(0, skip_back(out, 0, out.len() as int, '\n'));
            &&& trace(start(root, ahead), replies) == seq![
                CallModel::LocalChanges(root),
                CallModel::CurrentBranch(ahead),
                CallModel::StashPush(root),
                CallModel::Rebase(b, root),
                CallModel::StashPop(root),
            ]
            &&& outcome(start(root, ahead), replies) == Some(Ok::<(), ErrorModel>(()))
        }),
{
    let replies = seq![
        ReplyModel::Declined,
        ReplyModel::Succeeded(out),
        ReplyModel::Succeeded(o1),
        ReplyModel::Succeeded(o2),
        ReplyModel::Succeeded(o3),
    ];
    let m0 = start(root, ahead);
    let m1 = step_spec(m0, replies[0]).0;
    let m2 = step_spec(m1, replies[1]).0;
    let m3 = step_spec(m2, replies[2]).0;
    let m4 = step_spec(m3, replies[3]).0;
    let m5 = step_spec(m4, replies[4]).0;
    let r1 = replies.drop_first();
    let r2 = r1.drop_first();
    let r3 = r2.drop_first();
    let r4 = r3.drop_first();
    let r5 = r4.drop_first();
    assert(r1[0] == replies[1] && r2[0] == replies[2] && r3[0] == replies[3] && r4[0] == replies[4]);
    assert(r5.len() == 0);
    assert(trace(m5, r5) == Seq::<CallModel>::empty());
    assert(trace(m4, r4) =~= seq![CallModel::StashPop(root)]);
    assert(trace(m3, r3) =~= seq![CallModel::Rebase(m2.branch, root), CallModel::StashPop(root)]);
    assert(trace(m2, r2) =~= seq![
        CallModel::StashPush(root),
        CallModel::Rebase(m2.branch, root),
        CallModel::StashPop(root),
    ]);
    assert(trace(m1, r1) =~= seq![
        CallModel::CurrentBranch(ahead),
        CallModel::StashPush(root),
        CallModel::Rebase(m2.branch, root),
        CallModel::StashPop(root),
    ]);
    assert(trace(m0, replies) =~= seq![
        CallModel::LocalChanges(root),
        CallModel::CurrentBranch(ahead),
        CallModel::StashPush(root),
        CallModel::Rebase(m2.branch, root),
        CallModel::StashPop(root),
    ]);
    assert(outcome(m4, r4) == Some(Ok::<(), ErrorModel>(())));
    assert(outcome(m3, r3) == outcome(m4, r4));
    assert(outcome(m2, r2) == outcome(m3, r3));
    assert(outcome(m1, r1) == outcome(m2, r2));
    assert(m2.branch == out.subrange(0, skip_back(out, 0, out.len() as int, '\n')));
    assert(outcome(m0, replies) == Some(Ok::<(), ErrorModel>(())));
}

/// When the branch of `ahead` cannot be read, the rebase ends in an error
/// right there: nothing is stashed, rebased or popped.
pub proof fn lemma_no_stash_after_failed_read(
    root: Seq<char>,
    ahead: Seq<char>,
    replies: Seq<ReplyModel>,
)
    requires
        replies.len() >= 2,
        !(replies[0] is Failed),
        !(replies[1] is Succeeded),
    ensures
        trace(start(root, ahead), replies) == seq![
            CallModel::LocalChanges(root),
            CallModel::CurrentBranch(ahead),
        ],
        outcome(start(root, ahead), replies) matches Some(Err(_)),
{
    let m0 = start(root, ahead);
    let m1 = step_spec(m0, replies[0]).0;
    let r1 = replies.drop_first();
    let m2 = step_spec(m1, r1[0]).0;
    let r2 = r1.drop_first();
    assert(r1[0] == replies[1]);
    assert(m2.phase == Phase::Finished);
    assert(trace(m2, r2) == Seq::<CallModel>::empty());
    assert(trace(m1, r1) =~= seq![CallModel::CurrentBranch(ahead)]);
    assert(trace(m0, replies) =~= seq![
        CallModel::LocalChanges(root),
        CallModel::CurrentBranch(ahead),
    ]);
    assert(step_spec(m1, r1[0]).1 is Finish);
    assert(outcome(m1, r1) matches Some(Err(_)));
    assert(outcome(m0, replies) == outcome(m1, r1));
}

/// Without local changes in `root` and with every call succeeding, a rebase
/// checks for changes, reads the branch of `ahead` and rebases onto it, and
/// nothing else: no stash is made or popped. Then it succeeds.
pub proof fn lemma_rebase_without_local_changes(
    root: Seq<char>,
    ahead: Seq<char>,
    out: Seq<char>,
    o0: Seq<char>,
    o2: Seq<char>,
)
    ensures
        ({
            let replies = seq![
                ReplyModel::Succeeded(o0),
                ReplyModel::Succeeded(out),
                ReplyModel::Succeeded(o2),
            ];
            let b = out.subrange(0, skip_back(out, 0, out.len() as int, '\n'));
            &&& trace(start(root, ahead), replies) == seq![
                CallModel::LocalChanges(root),
                CallModel::CurrentBranch(ahead),
                CallModel::Rebase(b, root),
            ]
            &&& outcome(start(root, ahead), replies) == Some(Ok::<(), ErrorModel>(()))
        }),
{
    let replies = seq![
        ReplyModel::Succeeded(o0),
        ReplyModel::Succeeded(out),
        ReplyModel::Succeeded(o2),
    ];
    let m0 = start(root, ahead);
    let m1 = step_spec(m0, replies[0]).0;
    let m2 = step_spec(m1, replies[1]).0;
    let m3 = step_spec(m2, replies[2]).0;
    let r1 = replies.drop_first();
    let r2 = r1.drop_first();
    let r3 = r2.drop_first();
    assert(r1[0] == replies[1] && r2[0] == replies[2]);
    assert(r3.len() == 0);
    assert(trace(m3, r3) == Seq::<CallModel>::empty());
    assert(trace(m2, r2) =~= seq![CallModel::Rebase(m2.branch, root)]);
    assert(trace(m1, r1) =~= seq![
        CallModel::CurrentBranch(ahead),
        CallModel::Rebase(m2.branch, root),
    ]);
    assert(trace(m0, replies) =~= seq![
        CallModel::LocalChanges(root),
        CallModel::CurrentBranch(ahead),
        CallModel::Rebase(m2.branch, root),
    ]);
    assert(outcome(m2, r2) == Some(Ok::<(), ErrorModel>(())));
    assert(outcome(m1, r1) == outcome(m2, r2));
    assert(m2.branch == out.subrange(0, skip_back(out, 0, out.len() as int, '\n')));
    assert(outcome(m0, replies) == Some(Ok::<(), ErrorModel>(())));
}

/// A rebase call that does not succeed is the last call: the stash is never
/// popped after it, and the rebase ends in an error.
pub proof fn lemma_no_pop_after_failed_rebase(m: RebaseModel, replies: Seq<ReplyModel>, i: int)
    requires
        0 <= i < replies.len(),
        i < trace(m, replies).len(),
        trace(m, replies)[i] is Rebase,
        !(replies[i] is Succeeded),
    ensures
        trace(m, replies).len() == i + 1,
        forall|j: int| i < j < trace(m, replies).len() ==> !(trace(m, replies)[j] is StashPop),
        outcome(m, replies) matches Some(Err(_)),
    decreases i,
{
    let m2 = step_spec(m, replies[0]).0;
    let rest = replies.drop_first();
    if i == 0 {
        assert(m2.phase == Phase::Finished);
        assert(trace(m2, rest) == Seq::<CallModel>::empty());
    } else {
        assert(trace(m, replies)[i] == trace(m2, rest)[i - 1]);
        assert(rest[i - 1] == replies[i]);
        lemma_no_pop_after_failed_rebase(m2, rest, i - 1);
        if step_spec(m, replies[0]).1 is Finish {
            assert(trace(m2, rest) == Seq::<CallModel>::empty());
        }
    }
}

} // verus!
