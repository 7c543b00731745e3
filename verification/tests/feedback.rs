use vouch::feedback::{build_pr_review_body, build_reject_prompt, feedback_text};
use vouch::models::{Analysis, Confidence, Decision, ReviewItem, Risk, SemanticHunk};

fn item(sid: &str, intent: &str, files: Vec<&str>, reason: &str) -> ReviewItem {
    ReviewItem {
        semantic: SemanticHunk {
            id: sid.into(),
            intent: intent.into(),
            files: files.into_iter().map(String::from).collect(),
            raw_hunk_ids: vec![],
            merged_diff: String::new(),
        },
        analysis: Analysis {
            id: sid.into(),
            risk: Risk::High,
            risk_reason: String::new(),
            confidence: Confidence::Confident,
            summary_ko: intent.into(),
        },
        decision: Some(Decision::Reject),
        reject_reason: Some(reason.into()),
    }
}

#[test]
fn build_reject_prompt_lists_items() {
    let rejects = vec![
        item("s1", "intent A", vec!["a.py"], "use parameterized SQL"),
        item("s2", "intent B", vec!["b.py", "c.py"], "missing null check"),
    ];
    let out = build_reject_prompt(&rejects);
    assert!(out.contains("다시 시도"));
    assert!(out.contains("intent A"));
    assert!(out.contains("use parameterized SQL"));
    assert!(out.contains("intent B"));
    assert!(out.contains("a.py"));
}

#[test]
fn build_reject_prompt_empty() {
    assert_eq!(build_reject_prompt(&[]), "");
}

#[test]
fn pr_review_body_strips_agent_framing() {
    let rejects = vec![
        item("s1", "intent A", vec!["a.py"], "use parameterized SQL"),
        item("s2", "intent B", vec!["b.py", "c.py"], "missing null check"),
    ];
    let out = build_pr_review_body(&rejects);
    assert!(!out.contains("[vouch]"));
    assert!(!out.contains("다시 시도"));
    assert!(!out.contains("거절된 항목 외에는"));
    assert!(!out.contains("intent A"));
    assert!(out.contains("use parameterized SQL"));
    assert!(out.contains("missing null check"));
    assert!(out.contains("`a.py`"));
    assert!(out.contains("`b.py`"));
    assert!(out.contains("`c.py`"));
}

#[test]
fn pr_review_body_empty() {
    assert_eq!(build_pr_review_body(&[]), "");
}

#[test]
fn reject_prompt_exact_text() {
    let rejects = vec![item("s1", "intent A", vec!["a.py", "b.py"], "why")];
    let out = build_reject_prompt(&rejects);
    assert_eq!(
        out,
        "[vouch] 다음 변경들이 사람의 리뷰에서 거절됐어. 사유를 반영해 다시 시도해줘:\n\n- (a.py, b.py) intent A\n    사유: why\n\n거절된 항목 외에는 그대로 유지하고, 위 사유를 직접 해소하는 변경만 적용해줘."
    );
}

#[test]
fn missing_reason_reads_no_reason() {
    let mut it = item("s1", "i", vec!["a.py"], "x");
    it.reject_reason = None;
    let prompt = build_reject_prompt(&[it.clone()]);
    assert!(prompt.contains("    사유: (no reason)"));
    assert_eq!(build_pr_review_body(&[it]), "### `a.py`\n(no reason)");
}

#[test]
fn pr_review_body_exact_text() {
    let rejects = vec![
        item("s1", "intent A", vec!["a.py"], "r1"),
        item("s2", "intent B", vec!["b.py", "c.py"], "r2"),
    ];
    assert_eq!(
        build_pr_review_body(&rejects),
        "### `a.py`\nr1\n\n### `b.py`, `c.py`\nr2"
    );
}

#[test]
fn feedback_text_picks_the_channel_form() {
    let rejects = vec![item("s1", "intent A", vec!["a.py"], "r1")];
    assert_eq!(feedback_text(&rejects, true), build_pr_review_body(&rejects));
    assert_eq!(feedback_text(&rejects, false), build_reject_prompt(&rejects));
    assert!(feedback_text(&[], true).is_empty());
    assert!(feedback_text(&[], false).is_empty());
}
