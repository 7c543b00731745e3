use vouch::diff_input::{
    get_unified_diff, CommandOutcome, DiffAction, DiffEvent,
    classify_mode, diff_command, mode_args, pr_number, resolve_mode, ModeKind, ModeSpec,
};

#[test]
fn no_args_means_uncommitted() {
    let spec = resolve_mode(&[]);
    assert_eq!(spec.kind, ModeKind::Uncommitted);
    assert!(spec.value.is_none());
}

#[test]
fn single_commit() {
    let spec = resolve_mode(&["abc123".to_string()]);
    assert_eq!(spec.kind, ModeKind::Commit);
    assert_eq!(spec.value.as_deref(), Some("abc123"));
}

#[test]
fn range() {
    let spec = resolve_mode(&["abc..def".to_string()]);
    assert_eq!(spec.kind, ModeKind::Range);
    assert_eq!(spec.value.as_deref(), Some("abc..def"));
}

#[test]
fn pr_flag() {
    let spec = resolve_mode(&["--pr".to_string(), "42".to_string()]);
    assert_eq!(spec.kind, ModeKind::Pr);
    assert_eq!(spec.value.as_deref(), Some("42"));
}

#[test]
fn pr_url() {
    let spec = resolve_mode(&["https://github.com/x/y/pull/42".to_string()]);
    assert_eq!(spec.kind, ModeKind::Pr);
    assert_eq!(spec.value.as_deref(), Some("42"));
}

#[test]
fn range_shapes() {
    assert_eq!(resolve_mode(&["HEAD~3..HEAD".into()]).kind, ModeKind::Range);
    assert_eq!(resolve_mode(&["a...b".into()]).kind, ModeKind::Commit);
    assert_eq!(resolve_mode(&["..b".into()]).kind, ModeKind::Commit);
    assert_eq!(resolve_mode(&["a..".into()]).kind, ModeKind::Commit);
    assert_eq!(resolve_mode(&["a b..c".into()]).kind, ModeKind::Commit);
    assert_eq!(resolve_mode(&["--pr".into()]).kind, ModeKind::Commit);
}

#[test]
fn classify_follows_the_pattern_results() {
    let args = vec!["x".to_string()];
    let m = classify_mode(&args, Some("7".into()), true);
    assert_eq!(m.kind, ModeKind::Pr);
    assert_eq!(m.value.as_deref(), Some("7"));
    let m = classify_mode(&args, None, true);
    assert_eq!(m.kind, ModeKind::Range);
    assert_eq!(m.value.as_deref(), Some("x"));
    let m = classify_mode(&args, None, false);
    assert_eq!(m.kind, ModeKind::Commit);
    let flag = vec!["--pr".to_string(), "9".to_string()];
    let m = classify_mode(&flag, Some("1".into()), false);
    assert_eq!(m.value.as_deref(), Some("9"));
}

#[test]
fn options_become_arguments() {
    assert_eq!(mode_args(Some("5".into()), Some("abc".into())), vec!["--pr", "5"]);
    assert_eq!(mode_args(None, Some("abc".into())), vec!["abc"]);
    assert!(mode_args(None, None).is_empty());
}

#[test]
fn each_mode_has_its_command() {
    let c = diff_command(&ModeSpec { kind: ModeKind::Uncommitted, value: None });
    assert!(c.check_repo && c.check_head);
    assert_eq!(c.argv, vec!["git", "diff", "HEAD"]);
    let c = diff_command(&ModeSpec { kind: ModeKind::Commit, value: Some("abc".into()) });
    assert!(c.check_repo && !c.check_head);
    assert_eq!(c.argv, vec!["git", "show", "--format=", "abc"]);
    let c = diff_command(&ModeSpec { kind: ModeKind::Range, value: Some("a..b".into()) });
    assert_eq!(c.argv, vec!["git", "diff", "a..b"]);
    let c = diff_command(&ModeSpec { kind: ModeKind::Pr, value: Some("42".into()) });
    assert!(!c.check_repo && !c.check_head);
    assert_eq!(c.argv, vec!["gh", "pr", "diff", "42"]);
}

#[test]
fn pr_number_only_for_pull_requests() {
    assert_eq!(pr_number(&ModeSpec { kind: ModeKind::Pr, value: Some("3".into()) }).as_deref(), Some("3"));
    assert_eq!(pr_number(&ModeSpec { kind: ModeKind::Range, value: Some("a..b".into()) }), None);
}

fn exited(success: bool, stdout: &str, stderr: &str) -> CommandOutcome {
    CommandOutcome::Exited { success, stdout: stdout.into(), stderr: stderr.into() }
}

fn strs(v: &[&str]) -> Vec<String> {
    v.iter().map(|s| s.to_string()).collect()
}

#[test]
fn uncommitted_diff_checks_repo_then_head_then_fetches() {
    let spec = resolve_mode(&[]);
    match get_unified_diff(&spec, DiffEvent::Start) {
        DiffAction::CheckRepo(a) => assert_eq!(a, strs(&["git", "rev-parse", "--is-inside-work-tree"])),
        _ => panic!("expected the repository check"),
    }
    let ev = DiffEvent::RepoChecked { cwd: "/w".into(), outcome: exited(true, "true\n", "") };
    match get_unified_diff(&spec, ev) {
        DiffAction::CheckHead(a) => assert_eq!(a, strs(&["git", "rev-parse", "--verify", "--quiet", "HEAD"])),
        _ => panic!("expected the head check"),
    }
    match get_unified_diff(&spec, DiffEvent::HeadChecked(exited(true, "abc\n", ""))) {
        DiffAction::Fetch(a) => assert_eq!(a, strs(&["git", "diff", "HEAD"])),
        _ => panic!("expected the fetch"),
    }
    match get_unified_diff(&spec, DiffEvent::Fetched(exited(true, "diff text", "warn"))) {
        DiffAction::Done(r) => assert_eq!(r, Ok("diff text".to_string())),
        _ => panic!("expected the diff"),
    }
}

#[test]
fn pull_request_is_fetched_without_checks() {
    let spec = resolve_mode(&["--pr".into(), "42".into()]);
    match get_unified_diff(&spec, DiffEvent::Start) {
        DiffAction::Fetch(a) => assert_eq!(a, strs(&["gh", "pr", "diff", "42"])),
        _ => panic!("expected the fetch"),
    }
}

#[test]
fn fetch_errors_name_the_command() {
    let spec = resolve_mode(&["abc..def".into()]);
    match get_unified_diff(&spec, DiffEvent::Fetched(exited(false, "", "  fatal: bad range \n"))) {
        DiffAction::Done(r) => assert_eq!(r, Err("git diff abc..def failed: fatal: bad range".to_string())),
        _ => panic!("expected an error"),
    }
    match get_unified_diff(&spec, DiffEvent::Fetched(CommandOutcome::NotStarted("no such file".into()))) {
        DiffAction::Done(r) => assert_eq!(r, Err("git diff abc..def failed: no such file".to_string())),
        _ => panic!("expected an error"),
    }
}

#[test]
fn check_errors() {
    let spec = resolve_mode(&["abc123".into()]);
    let ev = DiffEvent::RepoChecked { cwd: "/tmp/x".into(), outcome: exited(false, "", "") };
    match get_unified_diff(&spec, ev) {
        DiffAction::Done(r) => assert_eq!(r, Err("not inside a git repository (cwd: /tmp/x)".to_string())),
        _ => panic!("expected an error"),
    }
    let ev = DiffEvent::RepoChecked { cwd: "/w".into(), outcome: CommandOutcome::NotStarted("not found".into()) };
    match get_unified_diff(&spec, ev) {
        DiffAction::Done(r) => assert_eq!(r, Err("git not available: not found".to_string())),
        _ => panic!("expected an error"),
    }
    let ev = DiffEvent::RepoChecked { cwd: "/w".into(), outcome: exited(true, "", "") };
    match get_unified_diff(&spec, ev) {
        DiffAction::Fetch(a) => assert_eq!(a, strs(&["git", "show", "--format=", "abc123"])),
        _ => panic!("expected the fetch"),
    }
    let un = resolve_mode(&[]);
    match get_unified_diff(&un, DiffEvent::HeadChecked(exited(false, "", ""))) {
        DiffAction::Done(r) => assert_eq!(
            r,
            Err("this repository has no commits yet — make at least one commit first".to_string())
        ),
        _ => panic!("expected an error"),
    }
}
