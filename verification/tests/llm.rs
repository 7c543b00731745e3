use vouch::llm::{
    build_semantic, can_extract_json, agent_args, check_structured_reply, exit_error, extract_json,
    reply_text, stage_step,
    EnvelopeFields, SemanticGroup, StageStep, ANALYSIS_SCHEMA,
};
use vouch::models::RawHunk;

fn sample_hunks() -> Vec<RawHunk> {
    vec![
        RawHunk {
            id: "r0".into(),
            file: "auth.py".into(),
            old_start: 10,
            old_lines: 5,
            new_start: 10,
            new_lines: 6,
            header: "@@ -10,5 +10,6 @@".into(),
            body: "-old\n+new".into(),
        },
        RawHunk {
            id: "r1".into(),
            file: "views.py".into(),
            old_start: 45,
            old_lines: 1,
            new_start: 45,
            new_lines: 4,
            header: "@@ -45,1 +45,4 @@".into(),
            body: "+def admin():".into(),
        },
    ]
}

fn group(id: &str, intent: &str, ids: &[&str]) -> SemanticGroup {
    SemanticGroup {
        id: Some(id.into()),
        intent: Some(intent.into()),
        raw_hunk_ids: Some(ids.iter().map(|s| Some(s.to_string())).collect()),
    }
}

#[test]
fn build_semantic_groups_hunks() {
    let raw = sample_hunks();
    let parsed = vec![group("s0", "auth 강화", &["r0"]), group("s1", "admin 뷰 추가", &["r1"])];
    let result = build_semantic(&raw, &parsed);
    assert_eq!(result.len(), 2);
    assert_eq!(result[0].id, "s0");
    assert_eq!(result[0].files, vec!["auth.py"]);
    assert!(result[0].merged_diff.contains("auth.py"));
    assert_eq!(result[1].id, "s1");
    assert_eq!(result[1].files, vec!["views.py"]);
}

#[test]
fn build_semantic_skips_unknown_hunk_ids() {
    let raw = sample_hunks();
    let parsed = vec![group("s0", "test", &["r0", "r999"])];
    let result = build_semantic(&raw, &parsed);
    assert_eq!(result.len(), 1);
    assert_eq!(result[0].raw_hunk_ids, vec!["r0"]);
}

#[test]
fn build_semantic_merges_sorts_and_defaults() {
    let raw = sample_hunks();
    let parsed = vec![
        SemanticGroup {
            id: None,
            intent: None,
            raw_hunk_ids: Some(vec![Some("r1".into()), None, Some("r0".into()), Some("r1".into())]),
        },
        SemanticGroup { id: Some("s2".into()), intent: Some("x".into()), raw_hunk_ids: None },
    ];
    let result = build_semantic(&raw, &parsed);
    assert_eq!(result[0].id, "");
    assert_eq!(result[0].intent, "");
    assert_eq!(result[0].raw_hunk_ids, vec!["r1", "r0", "r1"]);
    assert_eq!(result[0].files, vec!["auth.py", "views.py"]);
    assert_eq!(
        result[0].merged_diff,
        "--- views.py\n@@ -45,1 +45,4 @@\n+def admin():\n\n--- auth.py\n@@ -10,5 +10,6 @@\n-old\n+new\n\n--- views.py\n@@ -45,1 +45,4 @@\n+def admin():"
    );
    assert!(result[1].raw_hunk_ids.is_empty());
    assert!(result[1].files.is_empty());
    assert_eq!(result[1].merged_diff, "");
}

#[test]
fn build_semantic_later_hunk_with_same_id_wins() {
    let mut raw = sample_hunks();
    raw[1].id = "r0".into();
    let result = build_semantic(&raw, &[group("s0", "t", &["r0"])]);
    assert_eq!(result[0].files, vec!["views.py"]);
}

#[test]
fn extract_json_from_markdown_fences() {
    let text = "```json\n[{\"id\": \"s0\"}]\n```";
    let extracted = extract_json(text);
    assert!(extracted.contains("\"id\""));
    let parsed: serde_json::Value = serde_json::from_str(&extracted).unwrap();
    assert!(parsed.is_array());
}

#[test]
fn extract_json_plain() {
    let text = "[{\"id\": \"s0\"}]";
    let extracted = extract_json(text);
    let parsed: serde_json::Value = serde_json::from_str(&extracted).unwrap();
    assert!(parsed.is_array());
}

#[test]
fn extract_json_exact_results() {
    assert_eq!(extract_json("  ```\n  {}  \n```  "), "{}");
    assert_eq!(extract_json("```json```"), "```json");
    assert_eq!(extract_json(" \t{\"a\":1}\n"), "{\"a\":1}");
    assert!(can_extract_json("```json\n[1]\n```"));
    assert!(!can_extract_json("```json\n[1]"));
    assert!(can_extract_json("no fence"));
}

#[test]
fn analysis_schema_is_object_with_items_array() {
    let schema: serde_json::Value =
        serde_json::from_str(ANALYSIS_SCHEMA).expect("schema must be valid JSON");
    assert_eq!(schema["type"], "object");
    let items = &schema["properties"]["items"];
    assert_eq!(items["type"], "array");
    let item_props = &items["items"]["properties"];
    let risk_enum = item_props["risk"]["enum"].as_array().expect("risk enum");
    let risks: Vec<&str> = risk_enum.iter().filter_map(|v| v.as_str()).collect();
    assert_eq!(risks, vec!["high", "med", "low"]);
    let conf_enum = item_props["confidence"]["enum"].as_array().expect("confidence enum");
    let confs: Vec<&str> = conf_enum.iter().filter_map(|v| v.as_str()).collect();
    assert_eq!(confs, vec!["confident", "uncertain", "guess"]);
}

#[test]
fn agent_arguments() {
    assert_eq!(
        agent_args(Some("m"), "sys", None),
        vec!["-p", "--model", "m", "--system-prompt", "sys", "--tools", "", "--no-session-persistence", "--output-format", "json"]
    );
    let with_schema = agent_args(Some("m"), "sys", Some("{}"));
    assert_eq!(with_schema[10], "--json-schema");
    assert_eq!(with_schema[11], "{}");
    assert_eq!(
        agent_args(None, "sys", None),
        vec!["-p", "--system-prompt", "sys", "--tools", "", "--no-session-persistence", "--output-format", "json"]
    );
}

#[test]
fn reply_outcomes() {
    let ok = EnvelopeFields { is_error: Some(false), result: Some("[{\"id\":\"s0\"}]".into()) };
    assert_eq!(reply_text(&ok, "agent"), Ok("[{\"id\":\"s0\"}]".to_string()));
    let err = EnvelopeFields { is_error: Some(true), result: Some("Not logged in".into()) };
    let e = reply_text(&err, "agent").unwrap_err();
    assert!(e.contains("Not logged in"));
    assert_eq!(e, "agent CLI error: Not logged in");
    let err2 = EnvelopeFields { is_error: Some(true), result: None };
    assert_eq!(reply_text(&err2, "agent"), Err("agent CLI error: (no result)".to_string()));
    let none = EnvelopeFields { is_error: None, result: None };
    assert_eq!(reply_text(&none, "agent"), Err("agent CLI returned no result text".to_string()));
}

#[test]
fn stage_steps() {
    assert!(matches!(stage_step(true, true), StageStep::UseCached));
    assert!(matches!(stage_step(false, false), StageStep::AskModel));
    match stage_step(false, true) {
        StageStep::Fail(m) => assert_eq!(m, "VOUCH_CACHE_ONLY=1 but no cached response"),
        _ => panic!("cache-only miss must fail"),
    }
}

#[test]
fn reply_errors_name_the_program() {
    let err = EnvelopeFields { is_error: Some(true), result: Some("Not logged in".into()) };
    assert_eq!(reply_text(&err, "helper"), Err("helper CLI error: Not logged in".to_string()));
    let none = EnvelopeFields { is_error: Some(false), result: None };
    assert_eq!(reply_text(&none, "helper"), Err("helper CLI returned no result text".to_string()));
}

#[test]
fn structured_replies() {
    let ok = EnvelopeFields { is_error: Some(false), result: Some("chatty".into()) };
    assert_eq!(check_structured_reply(&ok, true, "agent"), Ok(()));
    assert_eq!(
        check_structured_reply(&ok, false, "agent"),
        Err("agent CLI structured_output missing 'items' field".to_string())
    );
    let err = EnvelopeFields { is_error: Some(true), result: None };
    assert_eq!(check_structured_reply(&err, true, "agent"), Err("agent CLI error: (no result)".to_string()));
}

#[test]
fn exit_errors() {
    assert_eq!(
        exit_error("agent", "exit status: 2", "  boom \n"),
        "agent CLI exited exit status: 2: boom"
    );
}
