use gbandit::git::{
    classify_push_failure, commit_all, commits_in, has_origin, head_sha, in_repo, is_clean,
    known_commits, push_main, says_no_history, GitNext, GitRun, PushOutcome,
};
use gbandit::version::{build_version, git_tag_at_head, release_in, tag_args};

fn ran(success: bool, stdout: &str, stderr: &str) -> GitRun {
    GitRun::Ran {
        success,
        stdout: stdout.as_bytes().to_vec(),
        stderr: stderr.as_bytes().to_vec(),
    }
}

fn broken() -> GitRun {
    GitRun::NotStarted("no such file".to_string())
}

fn args<T: std::fmt::Debug>(next: GitNext<T>) -> Vec<String> {
    match next {
        GitNext::Run(args) => args,
        other => panic!("{other:?}"),
    }
}

fn done<T: std::fmt::Debug>(next: GitNext<T>) -> T {
    match next {
        GitNext::Finished(Ok(value)) => value,
        other => panic!("{other:?}"),
    }
}

fn failed<T: std::fmt::Debug>(next: GitNext<T>) -> (String, Option<String>) {
    match next {
        GitNext::Finished(Err(fault)) => (fault.message, fault.cause),
        other => panic!("{other:?}"),
    }
}

#[test]
fn a_tree_is_clean_when_git_lists_nothing() {
    assert_eq!(args(is_clean(&vec![])), vec!["status", "--porcelain"]);
    assert!(done(is_clean(&vec![ran(true, "", "")])));
    assert!(done(is_clean(&vec![ran(true, " \t\r\n", "")])));
    assert!(!done(is_clean(&vec![ran(true, " M src/main.rs\n", "")])));
    assert_eq!(
        failed(is_clean(&vec![ran(false, "", " fatal: no \n")])),
        ("`git status` failed: fatal: no".to_string(), None)
    );
    assert_eq!(
        failed(is_clean(&vec![broken()])),
        (
            "failed to run `git status` — is git installed and is this a git repository?"
                .to_string(),
            Some("no such file".to_string())
        )
    );
}

#[test]
fn everything_is_staged_before_it_is_committed() {
    assert_eq!(args(commit_all("m", &vec![])), vec!["add", "-A"]);
    assert_eq!(
        args(commit_all("m", &vec![ran(true, "", "")])),
        vec!["commit", "-m", "m"]
    );
    done(commit_all("m", &vec![ran(true, "", ""), ran(true, "", "")]));
    assert_eq!(
        failed(commit_all("m", &vec![ran(false, "", "x")])).0,
        "`git add -A` failed: x"
    );
    assert_eq!(
        failed(commit_all("m", &vec![ran(true, "", ""), ran(false, "", "y")])).0,
        "`git commit` failed: y"
    );
    assert_eq!(failed(commit_all("m", &vec![broken()])).0, "failed to run `git add -A`");
    assert_eq!(
        failed(commit_all("m", &vec![ran(true, "", ""), broken()])).0,
        "failed to run `git commit`"
    );
}

#[test]
fn the_commit_at_head_may_be_missing() {
    assert_eq!(args(head_sha(&vec![])), vec!["rev-parse", "HEAD"]);
    assert_eq!(done(head_sha(&vec![ran(true, "abc\n", "")])), Some("abc".to_string()));
    assert_eq!(done(head_sha(&vec![ran(true, " \n", "")])), None);
    assert_eq!(
        done(head_sha(&vec![ran(false, "", "fatal: ambiguous argument 'HEAD'")])),
        None
    );
    assert_eq!(done(head_sha(&vec![ran(false, "", "unknown revision")])), None);
    assert_eq!(
        failed(head_sha(&vec![ran(false, "", "UNKNOWN REVISION")])).0,
        "`git rev-parse HEAD` failed: UNKNOWN REVISION"
    );
    assert_eq!(failed(head_sha(&vec![broken()])).0, "failed to run `git rev-parse HEAD`");
}

#[test]
fn bytes_that_are_no_text_are_replaced() {
    let run = GitRun::Ran { success: true, stdout: vec![b'a', 0xff, b'b', b'\n'], stderr: vec![] };
    assert_eq!(done(head_sha(&vec![run])), Some("a\u{fffd}b".to_string()));
}

#[test]
fn known_commits_are_listed_newest_first() {
    assert_eq!(args(known_commits(&vec![])), vec!["rev-list", "HEAD"]);
    assert_eq!(
        done(known_commits(&vec![ran(true, "b\n\n a \r\n", "")])),
        Some(vec!["b".to_string(), "a".to_string()])
    );
    assert_eq!(
        done(known_commits(&vec![ran(false, "", "fatal: Not a Git repository")])),
        None
    );
    assert_eq!(
        failed(known_commits(&vec![ran(false, "", " Broken ")])).0,
        "`git rev-list HEAD` failed: Broken"
    );
    assert_eq!(commits_in(""), Vec::<String>::new());
    assert!(says_no_history("ambiguous argument"));
    assert!(!says_no_history("nothing"));
}

#[test]
fn a_directory_is_in_a_repository_or_not() {
    assert_eq!(args(in_repo(&vec![])), vec!["rev-parse", "--is-inside-work-tree"]);
    assert!(done(in_repo(&vec![ran(true, "true\n", "")])));
    assert!(!done(in_repo(&vec![ran(false, "", "fatal")])));
}

#[test]
fn an_origin_has_an_address() {
    assert_eq!(args(has_origin(&vec![])), vec!["remote", "get-url", "origin"]);
    assert!(done(has_origin(&vec![ran(true, "git@x\n", "")])));
    assert!(!done(has_origin(&vec![ran(true, "", "")])));
    assert!(!done(has_origin(&vec![ran(false, "x", "")])));
    assert_eq!(
        failed(has_origin(&vec![broken()])).0,
        "failed to run `git remote get-url origin`"
    );
}

#[test]
fn pushes_fail_in_several_ways() {
    let origin = || ran(true, "git@x\n", "");
    assert_eq!(args(push_main(&vec![origin()])), vec!["push", "origin", "HEAD:main"]);
    assert!(matches!(done(push_main(&vec![ran(false, "", "")])), PushOutcome::NoRemote));
    assert!(matches!(
        done(push_main(&vec![origin(), ran(true, "", "")])),
        PushOutcome::Pushed
    ));
    match done(push_main(&vec![origin(), ran(false, "", " ! [Rejected] main \n")])) {
        PushOutcome::NonFastForward { detail } => assert_eq!(detail, "! [Rejected] main"),
        other => panic!("{other:?}"),
    }
    match done(push_main(&vec![origin(), ran(false, "", "Could not resolve HOST: x")])) {
        PushOutcome::Network { detail } => assert_eq!(detail, "Could not resolve HOST: x"),
        other => panic!("{other:?}"),
    }
    match done(push_main(&vec![origin(), ran(false, "", "error: 403")])) {
        PushOutcome::Auth { detail } => assert_eq!(detail, "error: 403"),
        other => panic!("{other:?}"),
    }
    assert_eq!(
        failed(push_main(&vec![origin(), ran(false, "", " odd ")])).0,
        "`git push` failed: odd"
    );
    assert_eq!(failed(push_main(&vec![origin(), broken()])).0, "failed to run `git push`");
}

#[test]
fn a_rejected_push_is_no_matter_of_credentials() {
    // Both are said at once: the first that fits counts.
    let text = "rejected: connection refused: permission denied";
    assert!(matches!(
        classify_push_failure(text, text),
        Some(PushOutcome::NonFastForward { .. })
    ));
    let text = "connection timed out: publickey";
    assert!(matches!(classify_push_failure(text, text), Some(PushOutcome::Network { .. })));
    assert!(classify_push_failure("other", "other").is_none());
}

#[test]
fn builds_are_named_after_their_release() {
    assert_eq!(tag_args(), vec!["tag", "--points-at", "HEAD", "--sort=-version:refname"]);
    assert_eq!(release_in("nightly\n v1.2.0 \nv1.1.0\n"), Some("v1.2.0".to_string()));
    assert_eq!(release_in("nightly\n"), None);
    assert_eq!(git_tag_at_head(&ran(true, "v2\n", "")), Some("v2".to_string()));
    assert_eq!(git_tag_at_head(&ran(false, "v2\n", "")), None);
    assert_eq!(git_tag_at_head(&broken()), None);
    let bytes = GitRun::Ran { success: true, stdout: vec![b'v', 0xff], stderr: vec![] };
    assert_eq!(git_tag_at_head(&bytes), None);
    assert_eq!(build_version(Some("v9"), Some("v2"), "0.1.0"), "v9");
    assert_eq!(build_version(Some("main"), Some("v2"), "0.1.0"), "v2");
    assert_eq!(build_version(Some("main"), None, "0.1.0"), "v0.1.0");
    assert_eq!(build_version(None, None, "0.1.0"), "v0.1.0");
}
