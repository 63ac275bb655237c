use codex_tool_core::rollout::{edit_rollout_text, PatchedToolCall, RolloutEditError, ToolResultKind};

const META: &str = r#"{"timestamp":"2025-12-07T00:00:00Z","type":"session_meta","payload":{"id":"c1","cwd":"/tmp","originator":"test"}}"#;

fn parse(line: &str) -> serde_json::Value {
    serde_json::from_str(line).expect("json line")
}

#[test]
fn replace_last_function_call_output() {
    let contents = format!(
        "{}\n{}\n",
        META,
        r#"{"timestamp":"2025-12-07T00:00:01Z","type":"response_item","payload":{"type":"function_call_output","call_id":"call_func","output":{"content":"pending","content_items":null,"success":false}}}"#
    );
    let (text, patched) = match edit_rollout_text(&contents, "final output") {
        Ok(r) => r,
        Err(e) => panic!("{}", e.message()),
    };
    assert_eq!(patched, PatchedToolCall { call_id: "call_func".to_string(), kind: ToolResultKind::Function });
    let lines: Vec<&str> = text.lines().collect();
    assert_eq!(lines.len(), 2);
    let second = parse(lines[1]);
    let output = &second["payload"]["output"];
    assert_eq!(output["content"], "final output");
    assert!(output["content_items"].is_null());
    assert_eq!(output["success"], false);
    assert_eq!(parse(lines[0]), parse(META));
}

#[test]
fn replace_last_custom_tool_output() {
    let contents = format!(
        "{}\n{}\n",
        META,
        r#"{"timestamp":"2025-12-07T00:00:01Z","type":"response_item","payload":{"type":"custom_tool_call_output","call_id":"call_custom","output":"pending"}}"#
    );
    let (text, patched) = match edit_rollout_text(&contents, "delivered") {
        Ok(r) => r,
        Err(e) => panic!("{}", e.message()),
    };
    assert_eq!(patched, PatchedToolCall { call_id: "call_custom".to_string(), kind: ToolResultKind::Custom });
    let lines: Vec<&str> = text.lines().collect();
    assert_eq!(parse(lines[1])["payload"]["output"], "delivered");
}

#[test]
fn only_the_last_tool_output_changes() {
    let first = r#"{"timestamp":"t1","type":"response_item","payload":{"type":"function_call_output","call_id":"a","output":{"content":"one","content_items":[{"type":"input_text","text":"x"}],"success":true}}}"#;
    let msg = r#"{"timestamp":"t2","type":"response_item","payload":{"type":"message","role":"assistant","content":[]}}"#;
    let last = r#"{"timestamp":"t3","type":"response_item","payload":{"type":"function_call_output","call_id":"b","output":{"content":"two","content_items":[{"type":"input_text","text":"y"}],"success":true}}}"#;
    let contents = format!("{first}\n\n{msg}\n{last}\n{msg}\n");
    let (text, patched) = match edit_rollout_text(&contents, "real") {
        Ok(r) => r,
        Err(e) => panic!("{}", e.message()),
    };
    assert_eq!(patched.call_id, "b");
    let lines: Vec<&str> = text.lines().collect();
    assert_eq!(lines.len(), 4);
    assert_eq!(parse(lines[0]), parse(first));
    assert_eq!(parse(lines[1]), parse(msg));
    assert_eq!(parse(lines[3]), parse(msg));
    let out = &parse(lines[2])["payload"]["output"];
    assert_eq!(out["content"], "real");
    assert!(out["content_items"].is_null());
    assert_eq!(out["success"], true);
    assert!(text.ends_with('\n'));
}

#[test]
fn blank_rollout_is_refused() {
    assert!(matches!(edit_rollout_text("  \n\t\n", "x"), Err(RolloutEditError::Empty)));
    assert!(matches!(edit_rollout_text("", "x"), Err(RolloutEditError::Empty)));
    assert_eq!(RolloutEditError::Empty.message(), "rollout file is empty");
}

#[test]
fn bad_line_is_reported() {
    let contents = format!("{META}\nnot json\n");
    match edit_rollout_text(&contents, "x") {
        Err(RolloutEditError::BadLine { line }) => assert_eq!(line, "not json"),
        _ => panic!("expected a bad line"),
    }
    let shapeless = "{\"timestamp\":1}\n";
    assert!(matches!(edit_rollout_text(shapeless, "x"), Err(RolloutEditError::BadLine { .. })));
}

#[test]
fn rollout_without_tool_output_is_refused() {
    let contents = format!("{META}\n");
    let err = edit_rollout_text(&contents, "x").err().expect("no tool output");
    assert!(matches!(err, RolloutEditError::NoToolOutput));
    assert_eq!(err.message(), "no tool call output found in rollout; nothing to replace");
}

#[test]
fn malformed_tool_output_fails_the_edit() {
    let good = r#"{"timestamp":"t1","type":"response_item","payload":{"type":"custom_tool_call_output","call_id":"a","output":"one"}}"#;
    let bad_function = r#"{"timestamp":"t2","type":"response_item","payload":{"type":"function_call_output","call_id":"b","output":{"content":7}}}"#;
    let contents = format!("{good}\n{bad_function}\n");
    match edit_rollout_text(&contents, "x") {
        Err(RolloutEditError::BadLine { line }) => assert_eq!(line, bad_function),
        _ => panic!("expected the malformed line to be reported"),
    }
    let bad_custom = r#"{"timestamp":"t2","type":"response_item","payload":{"type":"custom_tool_call_output","call_id":3,"output":"two"}}"#;
    let contents = format!("{good}\n{bad_custom}\n");
    assert!(matches!(edit_rollout_text(&contents, "x"), Err(RolloutEditError::BadLine { .. })));
}
