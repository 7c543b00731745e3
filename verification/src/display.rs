//! What the review interface shows: the cells of a queue row, the header lines of
//! the detail pane, and how each line of a diff is coloured. The program draws them.

use vstd::prelude::*;
use crate::models::{
    confidence_badge, risk_badge, Confidence, Decision, ReviewItem, ReviewItemView, Risk,
};
use crate::text::{chars_of, join, join_strings, lines, split_lines, starts_with, string_of, string_of_range};

verus! {

/// The first `n` characters of `s` (all of it when it is shorter).
pub open spec fn first_chars(s: Seq<char>, n: nat) -> Seq<char> {
    if s.len() <= n { s } else { s.take(n as int) }
}

/// The first `n` characters of `s`, as `s.chars().take(n).collect()` gives them.
pub fn take_chars(s: &str, n: usize) -> (r: String)
    ensures
        r@ == first_chars(s@, n as nat),
{
    let v = chars_of(s);
    let end = if v.len() <= n { v.len() } else { n };
    let r = string_of_range(v.as_slice(), 0, end);
    assert(v@.subrange(0, v.len() as int) == v@);
    r
}

/// How the queue shows a decision.
pub open spec fn decision_cell(d: Option<Decision>) -> Seq<char> {
    match d {
        Some(Decision::Accept) => "accept"@,
        Some(Decision::Reject) => "reject"@,
        None => "—"@,
    }
}

/// How the detail pane names a risk level.
pub open spec fn risk_name(r: Risk) -> Seq<char> {
    match r {
        Risk::High => "high"@,
        Risk::Med => "med"@,
        Risk::Low => "low"@,
    }
}

/// How the detail pane names a confidence level.
pub open spec fn confidence_name(c: Confidence) -> Seq<char> {
    match c {
        Confidence::Confident => "confident"@,
        Confidence::Uncertain => "uncertain"@,
        Confidence::Guess => "guess"@,
    }
}

/// How the detail pane shows a decision.
pub open spec fn decision_name(d: Option<Decision>) -> Seq<char> {
    match d {
        Some(Decision::Accept) => "accept"@,
        Some(Decision::Reject) => "reject"@,
        None => "(none)"@,
    }
}

/// The cells of one queue row.
pub struct QueueRow {
    pub risk: &'static str,
    pub confidence: &'static str,
    pub intent: String,
    pub files: String,
    pub decision: &'static str,
}

fn decision_cell_of(d: Option<Decision>) -> (s: &'static str)
    ensures
        s@ == decision_cell(d),
{
    match d {
        Some(Decision::Accept) => "accept",
        Some(Decision::Reject) => "reject",
        None => "—",
    }
}

/// The queue row of an item: the two badges, the intent cut to 50 characters, the files
/// joined by `, ` and cut to 40 characters, and the decision.
pub fn queue_row(it: &ReviewItem) -> (row: QueueRow)
    ensures
        row.risk@ == risk_badge(it@.analysis.risk),
        row.confidence@ == confidence_badge(it@.analysis.confidence),
        row.intent@ == first_chars(it@.semantic.intent, 50),
        row.files@ == first_chars(join(it@.semantic.files, ", "@), 40),
        row.decision@ == decision_cell(it@.decision),
{
    let files = join_strings(&it.semantic.files, ", ");
    QueueRow {
        risk: it.analysis.risk.badge(),
        confidence: it.analysis.confidence.badge(),
        intent: take_chars(it.semantic.intent.as_str(), 50),
        files: take_chars(files.as_str(), 40),
        decision: decision_cell_of(it.decision),
    }
}

/// The header lines of the detail pane: the intent; the risk with its badge, name and
/// reason; the confidence; the summary; the files; the decision.
pub open spec fn detail_lines(it: ReviewItemView) -> Seq<Seq<char>> {
    seq![
        it.semantic.intent,
        "Risk: "@ + risk_badge(it.analysis.risk) + " "@ + risk_name(it.analysis.risk) + "  ("@
            + it.analysis.risk_reason + ")"@,
        "Confidence: "@ + confidence_badge(it.analysis.confidence) + " "@ + confidence_name(
            it.analysis.confidence,
        ),
        "Summary: "@ + it.analysis.summary_ko,
        "Files: "@ + join(it.semantic.files, ", "@),
        "Decision: "@ + decision_name(it.decision),
    ]
}

fn risk_name_of(r: Risk) -> (s: &'static str)
    ensures
        s@ == risk_name(r),
{
    match r {
        Risk::High => "high",
        Risk::Med => "med",
        Risk::Low => "low",
    }
}

fn confidence_name_of(c: Confidence) -> (s: &'static str)
    ensures
        s@ == confidence_name(c),
{
    match c {
        Confidence::Confident => "confident",
        Confidence::Uncertain => "uncertain",
        Confidence::Guess => "guess",
    }
}

fn decision_name_of(d: Option<Decision>) -> (s: &'static str)
    ensures
        s@ == decision_name(d),
{
    match d {
        Some(Decision::Accept) => "accept",
        Some(Decision::Reject) => "reject",
        None => "(none)",
    }
}

/// The header lines of the detail pane for an item (see `detail_lines`).
pub fn detail_header(it: &ReviewItem) -> (v: Vec<String>)
    ensures
        v.deep_view() == detail_lines(it@),
{
    let mut risk = String::from_str("Risk: ");
    risk.append(it.analysis.risk.badge());
    risk.append(" ");
    risk.append(risk_name_of(it.analysis.risk));
    risk.append("  (");
    risk.append(it.analysis.risk_reason.as_str());
    risk.append(")");
    let mut conf = String::from_str("Confidence: ");
    conf.append(it.analysis.confidence.badge());
    conf.append(" ");
    conf.append(confidence_name_of(it.analysis.confidence));
    let mut summary = String::from_str("Summary: ");
    summary.append(it.analysis.summary_ko.as_str());
    let mut files = String::from_str("Files: ");
    files.append(join_strings(&it.semantic.files, ", ").as_str());
    let mut decision = String::from_str("Decision: ");
    decision.append(decision_name_of(it.decision));
    let mut v: Vec<String> = Vec::new();
    v.push(it.semantic.intent.clone());
    v.push(risk);
    v.push(conf);
    v.push(summary);
    v.push(files);
    v.push(decision);
    assert(v.deep_view() =~= detail_lines(it@));
    v
}

/// How a line of a diff is coloured.
#[derive(Debug, Clone, Copy, PartialEq, Eq, Structural)]
pub enum LineKind {
    /// An added line: green.
    Added,
    /// A removed line: red.
    Removed,
    /// A hunk header: cyan.
    HunkHeader,
    /// Anything else: plain.
    Plain,
}

/// The colour of a diff line: `+` lines (not `+++`) are added, `-` lines (not `---`)
/// removed, `@@` lines hunk headers, the rest plain.
pub open spec fn line_kind(line: Seq<char>) -> LineKind {
    if "+"@.is_prefix_of(line) && !"+++"@.is_prefix_of(line) {
        LineKind::Added
    } else if "-"@.is_prefix_of(line) && !"---"@.is_prefix_of(line) {
        LineKind::Removed
    } else if "@@"@.is_prefix_of(line) {
        LineKind::HunkHeader
    } else {
        LineKind::Plain
    }
}

/// The colour of a diff line (see `line_kind`).
pub fn classify_line(line: &[char]) -> (k: LineKind)
    ensures
        k == line_kind(line@),
{
    if starts_with(line, "+") && !starts_with(line, "+++") {
        LineKind::Added
    } else if starts_with(line, "-") && !starts_with(line, "---") {
        LineKind::Removed
    } else if starts_with(line, "@@") {
        LineKind::HunkHeader
    } else {
        LineKind::Plain
    }
}

/// The lines of a merged diff, each with its colour.
pub fn diff_lines(text: &str) -> (v: Vec<(String, LineKind)>)
    ensures
        v.len() == lines(text@).len(),
        forall|k: int|
            0 <= k < v.len() ==> (#[trigger] v@[k]).0@ == lines(text@)[k] && v@[k].1 == line_kind(
                lines(text@)[k],
            ),
{
    let chars = chars_of(text);
    let ls = split_lines(chars.as_slice());
    let ghost all = ls.deep_view();
    let mut v: Vec<(String, LineKind)> = Vec::new();
    let mut i: usize = 0;
    while i < ls.len()
        invariant
            i <= ls.len(),
            all == ls.deep_view(),
            all == lines(text@),
            all.len() == ls.len(),
            v.len() == i,
            forall|k: int| 0 <= k < i ==> (#[trigger] v@[k]).0@ == all[k] && v@[k].1 == line_kind(all[k]),
        decreases ls.len() - i,
    {
        assert(all[i as int] == ls[i as int]@);
        let line = ls[i].as_slice();
        v.push((string_of(line), classify_line(line)));
        i = i + 1;
    }
    v
}

/// How far a diff of `total_lines` wrapped lines can scroll in a pane `height` lines
/// high: the line count as a `u16` (`as u16`), less the height, not below 0.
pub fn scroll_limit(total_lines: usize, height: u16) -> (m: u16)
    ensures
        m == (if (total_lines as int) % 65536 > height { ((total_lines as int) % 65536 - height) as u16 } else { 0 }),
{
    let t = (total_lines % 65536) as u16;
    t.saturating_sub(height)
}

} // verus!
