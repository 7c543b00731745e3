use vouch::models::{Analysis, Confidence, Decision, RawHunk, ReviewItem, Risk, SemanticHunk};

#[test]
fn raw_hunk_construction() {
    let h = RawHunk {
        id: "r1".into(),
        file: "auth.py".into(),
        old_start: 10,
        old_lines: 5,
        new_start: 10,
        new_lines: 7,
        header: "@@ -10,5 +10,7 @@".into(),
        body: "-old\n+new\n".into(),
    };
    assert_eq!(h.id, "r1");
    assert_eq!(h.file, "auth.py");
}

#[test]
fn semantic_hunk_groups_raw() {
    let s = SemanticHunk {
        id: "s1".into(),
        intent: "Add ctx parameter to check_access".into(),
        files: vec!["auth.py".into(), "views.py".into()],
        raw_hunk_ids: vec!["r1".into(), "r2".into(), "r3".into()],
        merged_diff: "...".into(),
    };
    assert_eq!(s.raw_hunk_ids.len(), 3);
}

#[test]
fn review_item_combines_semantic_and_analysis() {
    let s = SemanticHunk {
        id: "s1".into(),
        intent: "x".into(),
        files: vec!["a.py".into()],
        raw_hunk_ids: vec!["r1".into()],
        merged_diff: "d".into(),
    };
    let a = Analysis {
        id: "s1".into(),
        risk: Risk::High,
        risk_reason: "touches auth".into(),
        confidence: Confidence::Uncertain,
        summary_ko: "권한 확장".into(),
    };
    let item = ReviewItem {
        semantic: s,
        analysis: a,
        decision: None,
        reject_reason: None,
    };
    assert!(item.decision.is_none());
    assert_eq!(item.semantic.id, item.analysis.id);
}

#[test]
fn risk_sort_key_orders_high_first() {
    assert_eq!(Risk::High.sort_key(), 0);
    assert_eq!(Risk::Med.sort_key(), 1);
    assert_eq!(Risk::Low.sort_key(), 2);
}

#[test]
fn badges_of_each_level() {
    assert_eq!(Risk::High.badge(), "🔴");
    assert_eq!(Risk::Med.badge(), "🟡");
    assert_eq!(Risk::Low.badge(), "🟢");
    assert_eq!(Confidence::Confident.badge(), "✅");
    assert_eq!(Confidence::Uncertain.badge(), "⚠️");
    assert_eq!(Confidence::Guess.badge(), "❓");
}

#[test]
fn duplicate_keeps_every_field() {
    let item = ReviewItem {
        semantic: SemanticHunk {
            id: "s9".into(),
            intent: "i".into(),
            files: vec!["x.rs".into(), "y.rs".into()],
            raw_hunk_ids: vec!["r3".into()],
            merged_diff: "m".into(),
        },
        analysis: Analysis {
            id: "s9".into(),
            risk: Risk::Med,
            risk_reason: "rr".into(),
            confidence: Confidence::Guess,
            summary_ko: "요약".into(),
        },
        decision: Some(Decision::Reject),
        reject_reason: Some("no".into()),
    };
    let c = item.duplicate();
    assert_eq!(c.semantic.files, item.semantic.files);
    assert_eq!(c.semantic.raw_hunk_ids, item.semantic.raw_hunk_ids);
    assert_eq!(c.analysis.summary_ko, "요약");
    assert_eq!(c.decision, Some(Decision::Reject));
    assert_eq!(c.reject_reason.as_deref(), Some("no"));
}
