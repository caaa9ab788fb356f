use gtea::error::Error;
use gtea::worktree::Worktree;

fn checked_out(dir: &str, head: &str, branch: &str) -> Worktree {
    Worktree {
        worktree: dir.to_string(),
        bare: false,
        head: Some(head.to_string()),
        branch: Some(branch.to_string()),
    }
}

fn bare(dir: &str) -> Worktree {
    Worktree { worktree: dir.to_string(), bare: true, head: None, branch: None }
}

#[test]
fn worktree() {
    let input = "worktree /path/to/repo.git/foo\n";
    let expected = "/path/to/repo.git/foo";
    let (input, worktree) = Worktree::parse_worktree(input).unwrap();
    assert_eq!(input, "");
    assert_eq!(worktree, expected);
}

#[test]
fn head() {
    let input = "HEAD 1111111111111111111111111111111111111111\n";
    let expected = "1111111111111111111111111111111111111111";
    let (input, head) = Worktree::parse_head(input).unwrap();
    assert_eq!(input, "");
    assert_eq!(head, expected);
}

#[test]
fn branch() {
    let input = "branch refs/heads/foo/bar\n";
    let expected = "foo/bar";
    let (input, branch) = Worktree::parse_branch(input).unwrap();
    assert_eq!(input, "");
    assert_eq!(branch, expected);
}

#[test]
fn worktree_object() {
    let input = "worktree /path/to/repo.git/foo\nHEAD 1111111111111111111111111111111111111111\nbranch refs/heads/foo/bar\n";
    let expected = Worktree {
        worktree: "/path/to/repo.git/foo".to_string(),
        bare: false,
        head: Some("1111111111111111111111111111111111111111".to_string()),
        branch: Some("foo/bar".to_string()),
    };
    let (input, worktree_object) = Worktree::parse(input).unwrap();
    assert_eq!(input, "");
    assert_eq!(worktree_object, expected);
}

#[test]
fn worktree_output() {
    let input = "\nworktree /path/to/repo.git\nbare\n\nworktree /path/to/repo.git/foo\nHEAD 1111111111111111111111111111111111111111\nbranch refs/heads/foo/bar\n\nworktree /path/to/repo.git/foo\nHEAD 1111111111111111111111111111111111111111\nbranch refs/heads/foo/bar\n\n";
    let bare_value = Worktree {
        worktree: "/path/to/repo.git".to_string(),
        bare: true,
        head: None,
        branch: None,
    };
    let value = Worktree {
        worktree: "/path/to/repo.git/foo".to_string(),
        bare: false,
        head: Some("1111111111111111111111111111111111111111".to_string()),
        branch: Some("foo/bar".to_string()),
    };
    let expected = vec![bare_value, value.clone(), value.clone()];
    let worktree_object = Worktree::from_string(input).unwrap();
    assert_eq!(worktree_object, expected);
}

#[test]
fn bare_stanza_reads_as_bare_record() {
    let (rest, w) = Worktree::parse("worktree /srv/repo.git\nbare\n").unwrap();
    assert_eq!(rest, "");
    assert_eq!(w, bare("/srv/repo.git"));
    let v = Worktree::from_string("worktree /srv/repo.git\nbare\n").unwrap();
    assert_eq!(v, vec![bare("/srv/repo.git")]);
}

#[test]
fn checked_out_stanza_in_either_order() {
    let h = "0123456789abcdef0123456789abcdef01234567";
    let first = format!("worktree /w/x\nHEAD {h}\nbranch refs/heads/feature/x\n");
    let second = format!("worktree /w/x\nbranch refs/heads/feature/x\nHEAD {h}\n");
    let expected = checked_out("/w/x", h, "feature/x");
    assert_eq!(Worktree::parse(&first).unwrap(), ("", expected.clone()));
    assert_eq!(Worktree::parse(&second).unwrap(), ("", expected));
}

#[test]
fn branch_needs_refs_heads_prefix() {
    assert_eq!(Worktree::parse_branch("branch foo\n"), None);
    assert_eq!(Worktree::parse("worktree /w\nHEAD 1\nbranch foo\n"), None);
}

#[test]
fn worktree_must_come_first() {
    assert_eq!(Worktree::parse("HEAD 1\nbranch refs/heads/a\nworktree /w\n"), None);
}

#[test]
fn quotes_are_trimmed_from_values() {
    let (_, w) = Worktree::parse("worktree \"/a b\"\nbare\n").unwrap();
    assert_eq!(w.worktree, "/a b");
    let (rest, v) = Worktree::parse_field("key   \"\"value\"\nnext", "key").unwrap();
    assert_eq!(v, "value");
    assert_eq!(rest, "next");
}

#[test]
fn field_without_line_feed_is_rejected() {
    assert_eq!(Worktree::parse_worktree("worktree /a"), None);
    assert_eq!(Worktree::parse_head("branch x\n"), None);
}

#[test]
fn listing_keeps_order_and_count() {
    let input = "\n\n\nworktree /r.git\nbare\n\nworktree /r.git/a\nHEAD 1\nbranch refs/heads/a\n\nworktree /r.git/b\nbranch refs/heads/b\nHEAD 2\n\nworktree /r.git/c\nHEAD 3\nbranch refs/heads/c\n\n\n";
    let v = Worktree::from_string(input).unwrap();
    assert_eq!(
        v,
        vec![
            bare("/r.git"),
            checked_out("/r.git/a", "1", "a"),
            checked_out("/r.git/b", "2", "b"),
            checked_out("/r.git/c", "3", "c"),
        ]
    );
}

#[test]
fn end_to_end_example() {
    let input = "\nworktree /r.git\nbare\n\nworktree /r.git/foo\nHEAD 1111111111111111111111111111111111111111\nbranch refs/heads/foo/bar\n\n";
    let v = Worktree::from_string(input).unwrap();
    assert_eq!(v.len(), 2);
    assert_eq!(v[0], bare("/r.git"));
    assert_eq!(v[1], checked_out("/r.git/foo", "1111111111111111111111111111111111111111", "foo/bar"));
    assert_eq!(v[1].head.as_ref().unwrap().len(), 40);
}

#[test]
fn empty_listing_gives_no_records() {
    assert_eq!(Worktree::from_string("").unwrap(), vec![]);
    assert_eq!(Worktree::from_string("\n\n\n").unwrap(), vec![]);
}

#[test]
fn malformed_stanza_fails_the_whole_listing() {
    let input = "worktree /r.git\nbare\n\nworktree /r.git/a\ndetached\n\nworktree /r.git/b\nbare\n";
    match Worktree::from_string(input) {
        Err(Error::Parse(m)) => assert_eq!(m, "invalid worktree entry: worktree /r.git/a\ndetached"),
        other => panic!("unexpected result {:?}", other),
    }
}

#[test]
fn triple_line_feed_starts_a_bad_stanza() {
    let input = "worktree /a\nbare\n\n\nworktree /b\nbare\n";
    match Worktree::from_string(input) {
        Err(Error::Parse(m)) => assert_eq!(m, "invalid worktree entry: \nworktree /b\nbare"),
        other => panic!("unexpected result {:?}", other),
    }
}

#[test]
fn extra_lines_after_a_stanza_are_rejected() {
    match Worktree::from_string("worktree /p\nbare\nlocked\n") {
        Err(Error::Parse(m)) => assert_eq!(m, "invalid worktree entry: worktree /p\nbare\nlocked"),
        other => panic!("unexpected result {:?}", other),
    }
    let checked = "worktree /p\nHEAD 1\nbranch refs/heads/a\nprunable gitdir file points to non-existent location\n";
    assert!(matches!(Worktree::from_string(checked), Err(Error::Parse(_))));
    let (rest, _) = Worktree::parse("worktree /p\nbare\nlocked\n").unwrap();
    assert_eq!(rest, "locked\n");
}
