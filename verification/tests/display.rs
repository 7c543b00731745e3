use vouch::display::{classify_line, detail_header, diff_lines, queue_row, scroll_limit, take_chars, LineKind};
use vouch::models::{Analysis, Confidence, Decision, ReviewItem, Risk, SemanticHunk};

fn item() -> ReviewItem {
    ReviewItem {
        semantic: SemanticHunk {
            id: "s0".into(),
            intent: "권한 검사를 확장".into(),
            files: vec!["auth.py".into(), "views.py".into()],
            raw_hunk_ids: vec!["r0".into()],
            merged_diff: "@@ -1 +1 @@\n-a\n+b".into(),
        },
        analysis: Analysis {
            id: "s0".into(),
            risk: Risk::High,
            risk_reason: "touches auth".into(),
            confidence: Confidence::Guess,
            summary_ko: "요약".into(),
        },
        decision: Some(Decision::Reject),
        reject_reason: Some("no".into()),
    }
}

#[test]
fn queue_row_cells() {
    let row = queue_row(&item());
    assert_eq!(row.risk, "🔴");
    assert_eq!(row.confidence, "❓");
    assert_eq!(row.intent, "권한 검사를 확장");
    assert_eq!(row.files, "auth.py, views.py");
    assert_eq!(row.decision, "reject");
}

#[test]
fn queue_row_cuts_long_cells() {
    let mut it = item();
    it.semantic.intent = "x".repeat(60);
    it.semantic.files = vec!["a".repeat(30), "b".repeat(30)];
    it.decision = None;
    let row = queue_row(&it);
    assert_eq!(row.intent, "x".repeat(50));
    assert_eq!(row.files, format!("{}, {}", "a".repeat(30), "b".repeat(8)));
    assert_eq!(row.decision, "—");
}

#[test]
fn detail_header_lines() {
    let v = detail_header(&item());
    assert_eq!(
        v,
        vec![
            "권한 검사를 확장".to_string(),
            "Risk: 🔴 high  (touches auth)".to_string(),
            "Confidence: ❓ guess".to_string(),
            "Summary: 요약".to_string(),
            "Files: auth.py, views.py".to_string(),
            "Decision: reject".to_string(),
        ]
    );
}

#[test]
fn line_colours() {
    let c = |s: &str| classify_line(&s.chars().collect::<Vec<char>>());
    assert_eq!(c("+added"), LineKind::Added);
    assert_eq!(c("+++ b/x"), LineKind::Plain);
    assert_eq!(c("-removed"), LineKind::Removed);
    assert_eq!(c("--- a/x"), LineKind::Plain);
    assert_eq!(c("@@ -1 +1 @@"), LineKind::HunkHeader);
    assert_eq!(c(" context"), LineKind::Plain);
    assert_eq!(c(""), LineKind::Plain);
}

#[test]
fn diff_lines_split_and_colour() {
    let v = diff_lines("@@ -1 +1 @@\n-a\r\n+b\n");
    assert_eq!(
        v,
        vec![
            ("@@ -1 +1 @@".to_string(), LineKind::HunkHeader),
            ("-a".to_string(), LineKind::Removed),
            ("+b".to_string(), LineKind::Added),
        ]
    );
    assert!(diff_lines("").is_empty());
}

#[test]
fn scroll_limits() {
    assert_eq!(scroll_limit(100, 30), 70);
    assert_eq!(scroll_limit(10, 30), 0);
    assert_eq!(scroll_limit(65536 + 40, 30), 10);
}

#[test]
fn take_chars_counts_characters() {
    assert_eq!(take_chars("한글abc", 3), "한글a");
    assert_eq!(take_chars("ab", 5), "ab");
    assert_eq!(take_chars("ab", 0), "");
}
