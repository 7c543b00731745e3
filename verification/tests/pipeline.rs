use vouch::models::{Analysis, Confidence, Decision, Risk, SemanticHunk};
use vouch::pipeline::build_review_items;

fn sem(id: &str) -> SemanticHunk {
    SemanticHunk {
        id: id.into(),
        intent: format!("intent of {}", id),
        files: vec![format!("{}.py", id)],
        raw_hunk_ids: vec!["r0".into()],
        merged_diff: "+x".into(),
    }
}

fn analysis(id: &str, risk: Risk, reason: &str) -> Analysis {
    Analysis {
        id: id.into(),
        risk,
        risk_reason: reason.into(),
        confidence: Confidence::Uncertain,
        summary_ko: "요약".into(),
    }
}

#[test]
fn queue_is_sorted_high_first_and_stable() {
    let sems = vec![sem("s0"), sem("s1"), sem("s2"), sem("s3"), sem("s4")];
    let ans = vec![
        analysis("s0", Risk::Low, "a"),
        analysis("s1", Risk::High, "b"),
        analysis("s2", Risk::Med, "c"),
        analysis("s3", Risk::High, "d"),
        analysis("s4", Risk::Low, "e"),
    ];
    let items = build_review_items(&sems, &ans);
    let ids: Vec<&str> = items.iter().map(|i| i.semantic.id.as_str()).collect();
    assert_eq!(ids, vec!["s1", "s3", "s2", "s0", "s4"]);
    assert!(items.iter().all(|i| i.decision.is_none() && i.reject_reason.is_none()));
}

#[test]
fn hunks_without_analysis_are_left_out() {
    let sems = vec![sem("s0"), sem("s1")];
    let ans = vec![analysis("s1", Risk::Med, "x"), analysis("zz", Risk::High, "y")];
    let items = build_review_items(&sems, &ans);
    assert_eq!(items.len(), 1);
    assert_eq!(items[0].semantic.id, "s1");
    assert_eq!(items[0].analysis.risk_reason, "x");
}

#[test]
fn a_later_analysis_with_the_same_id_wins() {
    let sems = vec![sem("s0")];
    let ans = vec![analysis("s0", Risk::Low, "first"), analysis("s0", Risk::High, "second")];
    let items = build_review_items(&sems, &ans);
    assert_eq!(items.len(), 1);
    assert_eq!(items[0].analysis.risk, Risk::High);
    assert_eq!(items[0].analysis.risk_reason, "second");
    assert_eq!(items[0].semantic.intent, "intent of s0");
    assert_ne!(items[0].decision, Some(Decision::Accept));
}

#[test]
fn empty_inputs_give_an_empty_queue() {
    assert!(build_review_items(&[], &[]).is_empty());
    assert!(build_review_items(&[sem("s0")], &[]).is_empty());
}
