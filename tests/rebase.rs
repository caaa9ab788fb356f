use gtea::error::Error;
use gtea::rebase::{Call, Next, Phase, Rebase, Reply};

fn ok(s: &str) -> Reply {
    Reply::Succeeded(s.to_string())
}

/// Drives a rebase with the given replies; gives the calls made and the result.
fn drive(mut m: Rebase, replies: Vec<Reply>) -> (Vec<Call>, Option<Result<(), Error>>) {
    let mut calls = vec![m.pending_call()];
    for r in replies {
        match m.step(r) {
            Next::Run(c) => calls.push(c),
            Next::Finish(res) => return (calls, Some(res)),
        }
    }
    (calls, None)
}

fn lines(calls: &[Call]) -> Vec<(String, String)> {
    calls.iter().map(|c| (c.command_line(), c.dir())).collect()
}

#[test]
fn rebase_with_local_changes_stashes_and_pops() {
    let m = Rebase::new("/r/feat", "/r/main");
    let (calls, res) = drive(m, vec![Reply::Declined, ok("main\n"), ok(""), ok(""), ok("")]);
    assert!(matches!(res, Some(Ok(()))));
    assert_eq!(
        lines(&calls),
        vec![
            ("test -z \"$(git diff)\" || exit 1".to_string(), "/r/feat".to_string()),
            ("git branch --show-current".to_string(), "/r/main".to_string()),
            ("git stash -a -u".to_string(), "/r/feat".to_string()),
            ("git rebase heads/main".to_string(), "/r/feat".to_string()),
            ("git stash pop -q".to_string(), "/r/feat".to_string()),
        ]
    );
}

#[test]
fn rebase_without_local_changes_makes_no_stash() {
    let m = Rebase::new("/r/feat", "/r/main");
    let (calls, res) = drive(m, vec![ok(""), ok("main\n\n"), ok("")]);
    assert!(matches!(res, Some(Ok(()))));
    assert_eq!(
        lines(&calls),
        vec![
            ("test -z \"$(git diff)\" || exit 1".to_string(), "/r/feat".to_string()),
            ("git branch --show-current".to_string(), "/r/main".to_string()),
            ("git rebase heads/main".to_string(), "/r/feat".to_string()),
        ]
    );
}

#[test]
fn failed_rebase_never_pops() {
    let m = Rebase::new("/r/feat", "/r/main");
    let (calls, res) = drive(
        m,
        vec![Reply::Declined, ok("main\n"), ok(""), Reply::Failed("conflict".to_string()), ok("")],
    );
    match res {
        Some(Err(Error::Command(msg))) => assert_eq!(msg, "conflict"),
        _ => panic!("expected the rebase to fail"),
    }
    assert_eq!(calls.len(), 4);
    assert!(matches!(calls[3], Call::Rebase { .. }));
    assert!(!calls.iter().any(|c| matches!(c, Call::StashPop { .. })));
}

#[test]
fn failed_probe_or_stash_stops_at_once() {
    let (calls, res) = drive(Rebase::new("/a", "/b"), vec![Reply::Failed("no git".to_string())]);
    assert_eq!(calls.len(), 1);
    assert!(matches!(res, Some(Err(Error::Command(_)))));
    let (calls, res) = drive(
        Rebase::new("/a", "/b"),
        vec![Reply::Declined, ok("b\n"), Reply::Failed("x".to_string())],
    );
    assert_eq!(calls.len(), 3);
    assert!(matches!(calls[2], Call::StashPush { .. }));
    assert!(matches!(res, Some(Err(Error::Command(_)))));
}

#[test]
fn failed_branch_read_leaves_no_stash() {
    let (calls, res) = drive(
        Rebase::new("/a", "/b"),
        vec![Reply::Declined, Reply::Failed("no branch".to_string()), ok("")],
    );
    match res {
        Some(Err(Error::Command(msg))) => assert_eq!(msg, "no branch"),
        _ => panic!("expected the read to fail"),
    }
    assert_eq!(calls.len(), 2);
    assert!(matches!(calls[1], Call::CurrentBranch { .. }));
    assert!(!calls.iter().any(|c| matches!(c, Call::StashPush { .. })));
}

#[test]
fn failed_pop_is_reported() {
    let (_, res) = drive(
        Rebase::new("/a", "/b"),
        vec![Reply::Declined, ok("x"), ok(""), ok(""), Reply::Failed("pop".to_string())],
    );
    match res {
        Some(Err(Error::Command(msg))) => assert_eq!(msg, "pop"),
        _ => panic!("expected the pop to fail"),
    }
}

#[test]
fn unexpected_status_is_a_failure() {
    let (_, res) = drive(Rebase::new("/a", "/b"), vec![ok(""), Reply::Declined]);
    match res {
        Some(Err(Error::Command(msg))) => assert_eq!(msg, "unexpected exit status"),
        _ => panic!("expected a failure"),
    }
}

#[test]
fn push_comes_after_the_rebase() {
    let mut m = Rebase::new("/r/main", "/r/feat");
    m.push = Some(("main".to_string(), "/here".to_string()));
    let (calls, res) = drive(m, vec![ok(""), ok("feat\n"), ok(""), ok("")]);
    assert!(matches!(res, Some(Ok(()))));
    assert_eq!(calls.len(), 4);
    assert_eq!(calls[3].command_line(), "git push -u origin heads/main");
    assert_eq!(calls[3].dir(), "/here");
}

#[test]
fn phases_and_probe() {
    let mut m = Rebase::new("/a", "/b");
    assert!(m.pending_call().is_probe());
    assert!(!m.is_finished());
    let _ = m.step(Reply::Failed("x".to_string()));
    assert!(m.is_finished());
    assert_eq!(m.phase, Phase::Finished);
}
