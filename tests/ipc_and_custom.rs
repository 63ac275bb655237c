use codex_tool_core::custom_tool::{ConfigCustomTool, CustomToolHandler, ToolOutput};
use codex_tool_core::json::JsonValue;
use codex_tool_core::pending_tool_ipc::{
    connection_action, load_metadata, metadata_path_for, request_body, ConnectionAction, PendingToolSocketMetadata,
};
use codex_tool_core::protocol::FunctionCallOutputPayload;
use codex_tool_core::router::{FunctionCallError, ToolPayload};

#[test]
fn metadata_reads_back() {
    let meta = PendingToolSocketMetadata { host: "127.0.0.1".to_string(), port: 40123 };
    let text = meta.to_json().to_text().expect("printable");
    assert_eq!(text, "{\"host\":\"127.0.0.1\",\"port\":40123}");
    let back = load_metadata(JsonValue::from_text(&text).unwrap()).expect("metadata");
    assert_eq!(back.host, "127.0.0.1");
    assert_eq!(back.port, 40123);
    assert!(load_metadata(JsonValue::from_text("{\"host\":\"h\",\"port\":70000}").unwrap()).is_none());
    assert!(load_metadata(JsonValue::from_text("{\"port\":1}").unwrap()).is_none());
}

#[test]
fn metadata_path_is_under_live() {
    assert_eq!(metadata_path_for("/home/u/.codex", "abc"), "/home/u/.codex/live/abc.json");
}

#[test]
fn request_round_trips_through_the_endpoint() {
    let body = request_body(
        "call-1".to_string(),
        FunctionCallOutputPayload { content: "real".to_string(), content_items: None, success: Some(true) },
    )
    .expect("body");
    match connection_action(&body) {
        ConnectionAction::Deliver(req) => {
            assert_eq!(req.call_id, "call-1");
            assert_eq!(req.output.content, "real");
            assert_eq!(req.output.success, Some(true));
        }
        _ => panic!("expected a delivery"),
    }
    assert!(matches!(connection_action(""), ConnectionAction::Close));
    assert!(matches!(connection_action("garbage"), ConnectionAction::Reject));
    assert!(matches!(connection_action("{\"call_id\":\"c\"}"), ConnectionAction::Reject));
}

fn tool(name: &str, shutdown: bool) -> ConfigCustomTool {
    ConfigCustomTool {
        name: name.to_string(),
        command: vec!["./run.sh".to_string()],
        cwd: Some("sub".to_string()),
        env: vec![("A".to_string(), "1".to_string()), ("CODEX_TOOL_NAME".to_string(), "spoof".to_string())],
        timeout_ms: Some(5000),
        with_escalated_permissions: None,
        shutdown_after_call: shutdown,
    }
}

fn env_get<'a>(env: &'a [(String, String)], k: &str) -> Option<&'a str> {
    env.iter().find(|(key, _)| key == k).map(|(_, v)| v.as_str())
}

#[test]
fn custom_tool_prepares_its_run() {
    let handler = CustomToolHandler::new(vec![tool("deploy", false)]);
    let payload = ToolPayload::Function { arguments: "{ \"x\" : 1 }".to_string() };
    let base = vec![("PATH".to_string(), "/bin".to_string()), ("A".to_string(), "0".to_string())];
    let req = match handler.prepare("deploy", "call-9", &payload, base, "conv", "turn", "/work") {
        Ok(r) => r,
        Err(e) => panic!("{}", e.message()),
    };
    assert_eq!(req.command, vec!["./run.sh".to_string()]);
    assert_eq!(req.cwd, "/work/sub");
    assert_eq!(req.timeout_ms, Some(5000));
    assert_eq!(env_get(&req.env, "PATH"), Some("/bin"));
    assert_eq!(env_get(&req.env, "A"), Some("1"));
    assert_eq!(env_get(&req.env, "CODEX_TOOL_ARGS_JSON"), Some("{\"x\":1}"));
    assert_eq!(env_get(&req.env, "CODEX_TOOL_NAME"), Some("deploy"));
    assert_eq!(env_get(&req.env, "CODEX_TOOL_CALL_ID"), Some("call-9"));
    assert_eq!(env_get(&req.env, "CODEX_CONVERSATION_ID"), Some("conv"));
    assert_eq!(env_get(&req.env, "CODEX_TURN_ID"), Some("turn"));
    assert_eq!(env_get(&req.env, "CODEX_TURN_CWD"), Some("/work"));
}

#[test]
fn custom_tool_refuses_bad_calls() {
    let handler = CustomToolHandler::new(vec![tool("deploy", false)]);
    let custom = ToolPayload::Custom { input: "x".to_string() };
    match handler.prepare("deploy", "c", &custom, vec![], "v", "t", "/") {
        Err(FunctionCallError::RespondToModel(m)) => assert_eq!(m, "tool deploy expects function arguments"),
        _ => panic!("expected a refusal"),
    }
    let args = ToolPayload::Function { arguments: "{}".to_string() };
    match handler.prepare("missing", "c", &args, vec![], "v", "t", "/") {
        Err(FunctionCallError::RespondToModel(m)) => assert_eq!(m, "unsupported config-defined tool: missing"),
        _ => panic!("expected a refusal"),
    }
    let bad = ToolPayload::Function { arguments: "{oops".to_string() };
    match handler.prepare("deploy", "c", &bad, vec![], "v", "t", "/") {
        Err(FunctionCallError::RespondToModel(m)) => {
            assert!(m.starts_with("failed to parse arguments for deploy: "));
            assert!(m.len() > "failed to parse arguments for deploy: ".len());
        }
        _ => panic!("expected a refusal"),
    }
}

#[test]
fn shutdown_tool_output_becomes_pending() {
    let handler = CustomToolHandler::new(vec![tool("deploy", false), tool("deploy", true)]);
    let out = ToolOutput::Function { content: "placeholder".to_string(), content_items: None, success: Some(true) };
    match handler.finish("deploy", out) {
        ToolOutput::Pending { content, shutdown, success, .. } => {
            assert_eq!(content, "placeholder");
            assert!(shutdown);
            assert_eq!(success, Some(true));
        }
        _ => panic!("expected a pending output"),
    }
    let plain = CustomToolHandler::new(vec![tool("deploy", false)]);
    let out = ToolOutput::Function { content: "done".to_string(), content_items: None, success: None };
    assert!(matches!(plain.finish("deploy", out), ToolOutput::Function { .. }));
}

#[test]
fn json_numbers_read_as_u64() {
    assert_eq!(JsonValue::from_text("60000").unwrap().as_u64(), Some(60000));
    assert_eq!(JsonValue::from_text("18446744073709551615").unwrap().as_u64(), Some(u64::MAX));
    assert_eq!(JsonValue::from_text("-1").unwrap().as_u64(), None);
    assert_eq!(JsonValue::from_text("2.5").unwrap().as_u64(), None);
    assert_eq!(JsonValue::from_u64(42).to_text().unwrap(), "42");
}
