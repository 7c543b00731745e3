//! Which diff to review: the command-line arguments name uncommitted changes, a
//! commit, a range of commits, or a pull request; each maps to one command.

use vstd::prelude::*;
use crate::parser::digit_run;
use crate::text::{chars_of, is_space, join, join_strings, str_eq, string_of_range, trim, trim_bounds};

verus! {

/// The kind of diff under review.
#[derive(Debug, Clone, Copy, PartialEq, Eq, Structural)]
pub enum ModeKind {
    Uncommitted,
    Commit,
    Range,
    Pr,
}

/// The diff under review: its kind and, except for uncommitted changes, what names it.
#[derive(Debug, Clone)]
pub struct ModeSpec {
    pub kind: ModeKind,
    pub value: Option<String>,
}

/// The mathematical value of a [`ModeSpec`].
pub struct ModeSpecView {
    pub kind: ModeKind,
    pub value: Option<Seq<char>>,
}

impl View for ModeSpec {
    type V = ModeSpecView;

    open spec fn view(&self) -> ModeSpecView {
        ModeSpecView { kind: self.kind, value: self.value.deep_view() }
    }
}

/// The index of the first `/` in `s` at or after `k`, or the length of `s`.
pub open spec fn next_slash(s: Seq<char>, k: int) -> int
    decreases s.len() - k,
{
    if k < 0 || k >= s.len() || s[k] == '/' {
        k
    } else {
        next_slash(s, k + 1)
    }
}

/// What `https?://github\.com/[^/]+/[^/]+/pull/(\d+)` captures in a match that starts at
/// `i`: `http`, an optional `s`, `://github.com/`, an owner and a repository (each a
/// non-empty run without `/`), `/pull/`, and the longest non-empty run of decimal digits
/// (`\d` is Unicode `Nd`) that follows, which is the capture.
pub open spec fn pr_url_at(s: Seq<char>, i: int) -> Option<Seq<char>> {
    let j = if 0 <= i + 4 < s.len() && s[i + 4] == 's' { i + 5 } else { i + 4 };
    let a = j + 14;
    let b = next_slash(s, a);
    let c = next_slash(s, b + 1);
    let n = digit_run(s, c + 6);
    if 0 <= i && i + 4 <= s.len() && s.subrange(i, i + 4) == "http"@ && a <= s.len()
        && s.subrange(j, a) == "://github.com/"@ && a < b && b + 1 < c && c + 6 <= s.len()
        && s.subrange(c, c + 6) == "/pull/"@ && n > 0 {
        Some(s.subrange(c + 6, c + 6 + n))
    } else {
        None
    }
}

/// The capture of the leftmost match that starts at or after `i`.
pub open spec fn first_pr_url_from(s: Seq<char>, i: int) -> Option<Seq<char>>
    decreases s.len() - i,
{
    if i < 0 || i >= s.len() {
        None
    } else {
        match pr_url_at(s, i) {
            Some(n) => Some(n),
            None => first_pr_url_from(s, i + 1),
        }
    }
}

/// The number of the pull request in the first GitHub pull-request URL inside `arg`:
/// the first capture group of the leftmost match of
/// `https?://github\.com/[^/]+/[^/]+/pull/(\d+)`, if there is a match.
pub open spec fn github_pr_capture(arg: Seq<char>) -> Option<Seq<char>> {
    first_pr_url_from(arg, 0)
}

/// `s` splits at `i` into two non-empty parts without dots or whitespace joined by `..`.
pub open spec fn range_split_at(s: Seq<char>, i: int) -> bool {
    &&& 1 <= i
    &&& i + 2 < s.len()
    &&& s[i] == '.'
    &&& s[i + 1] == '.'
    &&& forall|j: int|
        0 <= j < s.len() && j != i && j != i + 1 ==> #[trigger] s[j] != '.' && !is_space(s[j])
}

/// `^[^.\s]+\.\.[^.\s]+$`: two non-empty parts without dots or whitespace, joined by `..`.
pub open spec fn is_range_text(s: Seq<char>) -> bool {
    exists|i: int| range_split_at(s, i)
}

/// The pull-request number in a GitHub pull-request URL, found with the `regex` crate
/// (`Regex::captures` with the pattern of `github_pr_capture`, which states its meaning).
#[verifier::external_body]
fn github_pr_number(arg: &str) -> (r: Option<String>)
    ensures
        r.deep_view() == github_pr_capture(arg@),
{
    match regex::Regex::new(r"https?://github\.com/[^/]+/[^/]+/pull/(\d+)").unwrap().captures(arg) {
        Some(c) => Some(c[1].to_string()),
        None => None,
    }
}

/// Whether `arg` is a commit range, by `Regex::is_match` of the `regex` crate with the
/// anchored pattern `^[^.\s]+\.\.[^.\s]+$` (`\s` is Unicode `White_Space`); the contract
/// states that pattern's meaning.
#[verifier::external_body]
fn looks_like_range(arg: &str) -> (b: bool)
    ensures
        b == is_range_text(arg@),
{
    regex::Regex::new(r"^[^.\s]+\.\.[^.\s]+$").unwrap().is_match(arg)
}

/// The diff that the arguments name, given what the two patterns say of the first one:
/// none means uncommitted changes; `--pr N` a pull request; a pull-request URL its
/// number; `a..b` a range; anything else a commit.
pub open spec fn mode_for(args: Seq<Seq<char>>, pr: Option<Seq<char>>, range: bool) -> ModeSpecView {
    if args.len() == 0 {
        ModeSpecView { kind: ModeKind::Uncommitted, value: None }
    } else if args[0] == "--pr"@ && args.len() >= 2 {
        ModeSpecView { kind: ModeKind::Pr, value: Some(args[1]) }
    } else if pr is Some {
        ModeSpecView { kind: ModeKind::Pr, value: pr }
    } else if range {
        ModeSpecView { kind: ModeKind::Range, value: Some(args[0]) }
    } else {
        ModeSpecView { kind: ModeKind::Commit, value: Some(args[0]) }
    }
}

/// Every diff that the arguments can name can be fetched: only the uncommitted mode
/// comes without a value.
pub proof fn law_mode_has_value(args: Seq<Seq<char>>, pr: Option<Seq<char>>, range: bool)
    ensures
        mode_for(args, pr, range).kind != ModeKind::Uncommitted <==> mode_for(args, pr, range).value is Some,
        mode_for(args, pr, range).kind == ModeKind::Uncommitted <==> args.len() == 0,
{
}

/// The diff that the arguments name, given the pull-request number that the first
/// argument holds as a URL (if any) and whether it is shaped as a range.
pub fn classify_mode(args: &[String], pr: Option<String>, range: bool) -> (m: ModeSpec)
    ensures
        m@ == mode_for(args.deep_view(), pr.deep_view(), range),
{
    if args.len() == 0 {
        return ModeSpec { kind: ModeKind::Uncommitted, value: None };
    }
    assert(args.deep_view()[0] == args@[0]@);
    if str_eq(args[0].as_str(), "--pr") && args.len() >= 2 {
        assert(args.deep_view()[1] == args@[1]@);
        return ModeSpec { kind: ModeKind::Pr, value: Some(args[1].clone()) };
    }
    if pr.is_some() {
        return ModeSpec { kind: ModeKind::Pr, value: pr };
    }
    if range {
        ModeSpec { kind: ModeKind::Range, value: Some(args[0].clone()) }
    } else {
        ModeSpec { kind: ModeKind::Commit, value: Some(args[0].clone()) }
    }
}

/// The diff that the command-line arguments name (see `mode_for`).
pub fn resolve_mode(args: &[String]) -> (m: ModeSpec)
    ensures
        args.len() == 0 ==> m@ == mode_for(args.deep_view(), None, false),
        args.len() > 0 ==> m@ == mode_for(
            args.deep_view(),
            github_pr_capture(args@[0]@),
            is_range_text(args@[0]@),
        ),
{
    if args.len() == 0 {
        return classify_mode(args, None, false);
    }
    let pr = github_pr_number(args[0].as_str());
    let range = looks_like_range(args[0].as_str());
    classify_mode(args, pr, range)
}

/// The arguments that the program's options stand for: `--pr N` when a pull request is
/// given, else the revision if one is given, else none.
pub fn mode_args(pr: Option<String>, rev: Option<String>) -> (args: Vec<String>)
    ensures
        args.deep_view() == (match pr {
            Some(p) => seq!["--pr"@, p@],
            None => match rev {
                Some(r) => seq![r@],
                None => seq![],
            },
        }),
{
    let mut args: Vec<String> = Vec::new();
    match pr {
        Some(p) => {
            args.push(String::from_str("--pr"));
            args.push(p);
        },
        None => {
            if let Some(r) = rev {
                args.push(r);
            }
        },
    }
    assert(args.deep_view() =~= (match pr {
        Some(p) => seq!["--pr"@, p@],
        None => match rev {
            Some(r) => seq![r@],
            None => seq![],
        },
    }));
    args
}

/// The pull request under review, if the diff is one.
pub fn pr_number(spec: &ModeSpec) -> (n: Option<String>)
    ensures
        n.deep_view() == (if spec.kind == ModeKind::Pr { spec@.value } else { None }),
{
    if spec.kind == ModeKind::Pr {
        match &spec.value {
            Some(v) => Some(v.clone()),
            None => None,
        }
    } else {
        None
    }
}

/// How the diff is fetched: whether the working directory must be checked to be a git
/// repository first, and whether it must have a commit; then the command line.
pub struct DiffCommand {
    pub check_repo: bool,
    pub check_head: bool,
    pub argv: Vec<String>,
}

/// The command line that fetches the diff: `git diff HEAD`, `git show --format= C`,
/// `git diff A..B` or `gh pr diff N`.
pub open spec fn diff_argv(m: ModeSpecView) -> Seq<Seq<char>> {
    match m.kind {
        ModeKind::Uncommitted => seq!["git"@, "diff"@, "HEAD"@],
        ModeKind::Commit => seq!["git"@, "show"@, "--format="@, m.value->0],
        ModeKind::Range => seq!["git"@, "diff"@, m.value->0],
        ModeKind::Pr => seq!["gh"@, "pr"@, "diff"@, m.value->0],
    }
}

/// How to fetch the diff under review: every git mode checks for a repository, the
/// uncommitted mode also for a first commit; a pull request is fetched with `gh`.
pub fn diff_command(spec: &ModeSpec) -> (c: DiffCommand)
    requires
        spec.kind != ModeKind::Uncommitted ==> spec.value is Some,
    ensures
        c.check_repo == (spec.kind != ModeKind::Pr),
        c.check_head == (spec.kind == ModeKind::Uncommitted),
        c.argv.deep_view() == diff_argv(spec@),
{
    let mut argv: Vec<String> = Vec::new();
    let ghost v = spec@.value->0;
    match spec.kind {
        ModeKind::Uncommitted => {
            argv.push(String::from_str("git"));
            argv.push(String::from_str("diff"));
            argv.push(String::from_str("HEAD"));
        },
        ModeKind::Commit => {
            argv.push(String::from_str("git"));
            argv.push(String::from_str("show"));
            argv.push(String::from_str("--format="));
            argv.push(spec.value.as_ref().unwrap().clone());
        },
        ModeKind::Range => {
            argv.push(String::from_str("git"));
            argv.push(String::from_str("diff"));
            argv.push(spec.value.as_ref().unwrap().clone());
        },
        ModeKind::Pr => {
            argv.push(String::from_str("gh"));
            argv.push(String::from_str("pr"));
            argv.push(String::from_str("diff"));
            argv.push(spec.value.as_ref().unwrap().clone());
        },
    }
    assert(argv.deep_view() =~= diff_argv(spec@));
    DiffCommand {
        check_repo: spec.kind != ModeKind::Pr,
        check_head: spec.kind == ModeKind::Uncommitted,
        argv,
    }
}

/// What came of running a command: it could not be started (with the error's text), or
/// it ran and exited, successfully or not, having written `stdout` and `stderr`.
pub enum CommandOutcome {
    NotStarted(String),
    Exited { success: bool, stdout: String, stderr: String },
}

/// The last step taken while fetching a diff, and what came of it.
pub enum DiffEvent {
    /// Nothing has been run yet.
    Start,
    /// The repository check ran in the working directory `cwd`.
    RepoChecked { cwd: String, outcome: CommandOutcome },
    /// The check for a first commit ran.
    HeadChecked(CommandOutcome),
    /// The command that fetches the diff ran.
    Fetched(CommandOutcome),
}

/// What to do next while fetching a diff: run one of three command lines, or stop with
/// the diff or an error message.
pub enum DiffAction {
    CheckRepo(Vec<String>),
    CheckHead(Vec<String>),
    Fetch(Vec<String>),
    Done(Result<String, String>),
}

/// The mathematical value of a [`DiffAction`].
pub enum DiffActionView {
    CheckRepo(Seq<Seq<char>>),
    CheckHead(Seq<Seq<char>>),
    Fetch(Seq<Seq<char>>),
    Done(Result<Seq<char>, Seq<char>>),
}

impl View for DiffAction {
    type V = DiffActionView;

    open spec fn view(&self) -> DiffActionView {
        match self {
            DiffAction::CheckRepo(a) => DiffActionView::CheckRepo(a.deep_view()),
            DiffAction::CheckHead(a) => DiffActionView::CheckHead(a.deep_view()),
            DiffAction::Fetch(a) => DiffActionView::Fetch(a.deep_view()),
            DiffAction::Done(Ok(d)) => DiffActionView::Done(Ok(d@)),
            DiffAction::Done(Err(e)) => DiffActionView::Done(Err(e@)),
        }
    }
}

/// `git rev-parse --is-inside-work-tree`: succeeds inside a git work tree.
pub open spec fn repo_check_argv() -> Seq<Seq<char>> {
    seq!["git"@, "rev-parse"@, "--is-inside-work-tree"@]
}

/// `git rev-parse --verify --quiet HEAD`: succeeds when the repository has a commit.
pub open spec fn head_check_argv() -> Seq<Seq<char>> {
    seq!["git"@, "rev-parse"@, "--verify"@, "--quiet"@, "HEAD"@]
}

/// The error when git cannot be started.
pub open spec fn git_not_available(e: Seq<char>) -> Seq<char> {
    "git not available: "@ + e
}

/// The error outside a git repository.
pub open spec fn not_a_repository(cwd: Seq<char>) -> Seq<char> {
    "not inside a git repository (cwd: "@ + cwd + ")"@
}

/// The error in a repository without commits.
pub open spec fn no_commits_yet() -> Seq<char> {
    "this repository has no commits yet — make at least one commit first"@
}

/// The error when the fetching command fails: the command line, then the detail.
pub open spec fn command_failed(argv: Seq<Seq<char>>, detail: Seq<char>) -> Seq<char> {
    join(argv, " "@) + " failed: "@ + detail
}

/// What a check's outcome leads to: its error, or `next` when it succeeded.
pub open spec fn after_check(outcome: CommandOutcome, fail: Seq<char>, next: DiffActionView) -> DiffActionView {
    match outcome {
        CommandOutcome::NotStarted(e) => DiffActionView::Done(Err(git_not_available(e@))),
        CommandOutcome::Exited { success, .. } =>
            if success { next } else { DiffActionView::Done(Err(fail)) },
    }
}

/// The step after `event` while fetching the diff of `m`: a pull request is fetched at
/// once; every git mode first checks for a repository, the uncommitted mode then for a
/// first commit; the fetch gives its standard output, or fails with the command line and
/// the error or the trimmed standard error.
pub open spec fn next_diff_step(m: ModeSpecView, event: DiffEvent) -> DiffActionView {
    let fetch = DiffActionView::Fetch(diff_argv(m));
    match event {
        DiffEvent::Start =>
            if m.kind == ModeKind::Pr { fetch } else { DiffActionView::CheckRepo(repo_check_argv()) },
        DiffEvent::RepoChecked { cwd, outcome } => after_check(
            outcome,
            not_a_repository(cwd@),
            if m.kind == ModeKind::Uncommitted { DiffActionView::CheckHead(head_check_argv()) } else { fetch },
        ),
        DiffEvent::HeadChecked(outcome) => after_check(outcome, no_commits_yet(), fetch),
        DiffEvent::Fetched(outcome) => match outcome {
            CommandOutcome::NotStarted(e) => DiffActionView::Done(Err(command_failed(diff_argv(m), e@))),
            CommandOutcome::Exited { success, stdout, stderr } =>
                if success {
                    DiffActionView::Done(Ok(stdout@))
                } else {
                    DiffActionView::Done(Err(command_failed(diff_argv(m), trim(stderr@))))
                },
        },
    }
}

/// The step that follows `event` while fetching the diff under review (see
/// `next_diff_step`). The caller runs each command it is handed and comes back with what
/// came of it, until it is handed the diff or an error.
pub fn get_unified_diff(spec: &ModeSpec, event: DiffEvent) -> (a: DiffAction)
    requires
        spec.kind != ModeKind::Uncommitted ==> spec.value is Some,
    ensures
        a@ == next_diff_step(spec@, event),
{
    proof {
        reveal_strlit("git");
        reveal_strlit("rev-parse");
        reveal_strlit("--is-inside-work-tree");
        reveal_strlit("--verify");
        reveal_strlit("--quiet");
        reveal_strlit("HEAD");
    }
    let ghost ev = event;
    let c = diff_command(spec);
    match event {
        DiffEvent::Start => {
            if spec.kind == ModeKind::Pr {
                DiffAction::Fetch(c.argv)
            } else {
                let mut v: Vec<String> = Vec::new();
                v.push(String::from_str("git"));
                v.push(String::from_str("rev-parse"));
                v.push(String::from_str("--is-inside-work-tree"));
                assert(v.deep_view() =~= repo_check_argv());
                DiffAction::CheckRepo(v)
            }
        },
        DiffEvent::RepoChecked { cwd, outcome } => match outcome {
            CommandOutcome::NotStarted(e) => {
                let mut m = String::from_str("git not available: ");
                m.append(e.as_str());
                DiffAction::Done(Err(m))
            },
            CommandOutcome::Exited { success, .. } => {
                if !success {
                    let mut m = String::from_str("not inside a git repository (cwd: ");
                    m.append(cwd.as_str());
                    m.append(")");
                    DiffAction::Done(Err(m))
                } else if spec.kind == ModeKind::Uncommitted {
                    let mut v: Vec<String> = Vec::new();
                    v.push(String::from_str("git"));
                    v.push(String::from_str("rev-parse"));
                    v.push(String::from_str("--verify"));
                    v.push(String::from_str("--quiet"));
                    v.push(String::from_str("HEAD"));
                    assert(v.deep_view() =~= head_check_argv());
                    DiffAction::CheckHead(v)
                } else {
                    DiffAction::Fetch(c.argv)
                }
            },
        },
        DiffEvent::HeadChecked(outcome) => match outcome {
            CommandOutcome::NotStarted(e) => {
                let mut m = String::from_str("git not available: ");
                m.append(e.as_str());
                DiffAction::Done(Err(m))
            },
            CommandOutcome::Exited { success, .. } => {
                if success {
                    DiffAction::Fetch(c.argv)
                } else {
                    DiffAction::Done(Err(String::from_str("this repository has no commits yet — make at least one commit first")))
                }
            },
        },
        DiffEvent::Fetched(outcome) => match outcome {
            CommandOutcome::NotStarted(e) => {
                let mut m = join_strings(&c.argv, " ");
                m.append(" failed: ");
                m.append(e.as_str());
                DiffAction::Done(Err(m))
            },
            CommandOutcome::Exited { success, stdout, stderr } => {
                if success {
                    DiffAction::Done(Ok(stdout))
                } else {
                    let chars = chars_of(stderr.as_str());
                    let (lo, hi) = trim_bounds(chars.as_slice());
                    let mut m = join_strings(&c.argv, " ");
                    m.append(" failed: ");
                    m.append(string_of_range(chars.as_slice(), lo, hi).as_str());
                    DiffAction::Done(Err(m))
                }
            },
        },
    }
}

} // verus!
