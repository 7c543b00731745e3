use vouch::diff_input::{resolve_mode, ModeKind};
use vouch::feedback::{build_pr_review_body, build_reject_prompt};
use vouch::models::{Analysis, Confidence, Decision, ReviewItem, Risk, SemanticHunk};
use vouch::parser::parse_raw_hunks;

const SAMPLE_DIFF: &str = "diff --git a/auth.py b/auth.py
index 1111111..2222222 100644
--- a/auth.py
+++ b/auth.py
@@ -10,5 +10,6 @@ def check_access(user):
     if user is None:
         return False
-    return user.role == \"admin\"
+    if user.role == \"admin\":
+        return True
+    return user.is_staff
diff --git a/views.py b/views.py
index 3333333..4444444 100644
--- a/views.py
+++ b/views.py
@@ -45 +45,4 @@ def index(request):
+def admin(request):
+    return render(request, \"admin.html\")
";

#[test]
fn full_pipeline_sample_diff() {
    let raw = parse_raw_hunks(SAMPLE_DIFF);
    assert_eq!(raw.len(), 2);
    assert_eq!(raw[0].file, "auth.py");
    assert_eq!(raw[1].file, "views.py");
}

#[test]
fn diff_input_resolve_modes() {
    assert_eq!(resolve_mode(&[]).kind, ModeKind::Uncommitted);
    assert_eq!(resolve_mode(&["HEAD~3..HEAD".into()]).kind, ModeKind::Range);
    assert_eq!(
        resolve_mode(&["--pr".into(), "42".into()]).kind,
        ModeKind::Pr
    );
}

#[test]
fn feedback_roundtrip() {
    let item = ReviewItem {
        semantic: SemanticHunk {
            id: "s1".into(),
            intent: "test".into(),
            files: vec!["a.py".into()],
            raw_hunk_ids: vec![],
            merged_diff: String::new(),
        },
        analysis: Analysis {
            id: "s1".into(),
            risk: Risk::High,
            risk_reason: "reason".into(),
            confidence: Confidence::Confident,
            summary_ko: "요약".into(),
        },
        decision: Some(Decision::Reject),
        reject_reason: Some("fix this".into()),
    };

    let prompt = build_reject_prompt(&[item.clone()]);
    assert!(prompt.contains("다시 시도"));
    assert!(prompt.contains("fix this"));

    let body = build_pr_review_body(&[item]);
    assert!(body.contains("`a.py`"));
    assert!(body.contains("fix this"));
    assert!(!body.contains("다시 시도"));
}
