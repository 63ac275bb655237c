use codex_tool_core::hooks::{
    parse_directive, HookLocalShellDirective, StopHook, StopHookEvent, TimeoutBehavior, ToolHook,
    ToolHookDirective, ToolHookTimeoutOverride,
};
use codex_tool_core::json::JsonValue;
use codex_tool_core::protocol::{FunctionCallOutputPayload, ResponseInputItem};
use codex_tool_core::router::{DispatchAction, DispatchStage, FunctionCallError, ToolCall, ToolDispatch, ToolPayload};

fn json_of(v: JsonValue) -> serde_json::Value {
    let text = v.to_text().expect("printable");
    serde_json::from_str(&text).expect("valid json")
}

#[test]
fn parses_infinite_timeout_directive() {
    let directive = parse_directive(r#"{"local_shell":{"timeout_ms":"infinite"}}"#).expect("directive");
    let behavior = directive.local_shell.as_ref().and_then(HookLocalShellDirective::timeout_behavior).unwrap();
    assert!(matches!(behavior, TimeoutBehavior::Infinite));
}

#[test]
fn parses_numeric_timeout_directive() {
    let directive = parse_directive(r#"{"local_shell":{"timeout_ms":60000}}"#).expect("directive");
    let behavior = directive.local_shell.as_ref().and_then(HookLocalShellDirective::timeout_behavior).unwrap();
    assert_eq!(behavior, TimeoutBehavior::Millis(60_000));
}

#[test]
fn timeout_keywords_are_trimmed_and_case_blind() {
    for kw in ["infinite", " NO_TIMEOUT ", "None", "unlimited\n"] {
        let o = ToolHookTimeoutOverride::Keyword(kw.to_string());
        assert_eq!(o.behavior(), Some(TimeoutBehavior::Infinite), "keyword {kw:?}");
    }
    assert_eq!(ToolHookTimeoutOverride::Keyword("forever".to_string()).behavior(), None);
    assert_eq!(ToolHookTimeoutOverride::Millis(7).behavior(), Some(TimeoutBehavior::Millis(7)));
}

#[test]
fn directive_output_that_is_not_a_directive_is_ignored() {
    assert!(parse_directive("").is_none());
    assert!(parse_directive("   \n").is_none());
    assert!(parse_directive("not json").is_none());
    assert!(parse_directive("[1,2]").is_none());
    assert!(parse_directive(r#"{"local_shell":{"timeout_ms":-5}}"#).is_none());
    assert!(parse_directive(r#"{"local_shell":{"timeout_ms":1.5}}"#).is_none());
    assert!(parse_directive(r#"{"local_shell":3}"#).is_none());
    let empty = parse_directive(r#"{"other":true}"#).expect("unknown keys are ignored");
    assert!(empty.local_shell.is_none());
    let null_timeout = parse_directive(r#"{"local_shell":{"timeout_ms":null}}"#).expect("null is none");
    assert!(null_timeout.timeout_behavior().is_none());
}

#[test]
fn hooks_need_a_command() {
    assert!(ToolHook::new(vec![]).is_none());
    assert!(StopHook::new(vec![]).is_none());
    let hook = ToolHook::new(vec!["python3".to_string(), "hook.py".to_string()]).expect("hook");
    assert_eq!(hook.command().len(), 2);
    assert_eq!(StopHook::new(vec!["stop".to_string()]).expect("hook").command()[0], "stop");
}

#[test]
fn hook_overrides_shell_command_timeout() {
    let args = r#"{"command":"python3 -c \"import time; time.sleep(0.3); print('hooked')\"","timeout_ms":50,"login":false}"#;
    let call = ToolCall {
        tool_name: "shell_command".to_string(),
        call_id: "hooked-shell-command".to_string(),
        payload: ToolPayload::Function { arguments: args.to_string() },
    };
    let (mut dispatch, first) = ToolDispatch::start(call, true);
    let before = match first {
        DispatchAction::EmitBefore(e) => json_of(e.to_json()),
        _ => panic!("expected the before event"),
    };
    assert_eq!(before["phase"], "before_execution");
    assert_eq!(before["call"]["tool_name"], "shell_command");
    assert_eq!(before["call"]["call_id"], "hooked-shell-command");
    assert_eq!(before["call"]["payload"]["kind"], "function");
    assert_eq!(before["call"]["payload"]["parsed_arguments"]["timeout_ms"], 50);
    assert!(before.get("outcome").is_none());

    let directive = parse_directive("{\"local_shell\":{\"timeout_ms\":\"infinite\"}}\n");
    let invoked = match dispatch.directive_received(directive) {
        DispatchAction::Invoke(c) => c,
        _ => panic!("expected the call to run"),
    };
    let arguments = match &invoked.payload {
        ToolPayload::Function { arguments } => arguments.clone(),
        _ => panic!("payload kind changed"),
    };
    let parsed: serde_json::Value = serde_json::from_str(&arguments).expect("arguments stay JSON");
    assert_eq!(parsed["timeout_ms"], 0);
    assert_eq!(parsed["login"], false);
    assert!(parsed["command"].as_str().unwrap().contains("hooked"));

    let response = ResponseInputItem::FunctionCallOutput {
        call_id: "hooked-shell-command".to_string(),
        output: FunctionCallOutputPayload {
            content: "Exit code: 0\nhooked".to_string(),
            content_items: None,
            success: Some(true),
        },
    };
    let after = match dispatch.handler_finished(Ok(response)) {
        DispatchAction::EmitAfter(e) => json_of(e.to_json()),
        _ => panic!("expected the after event"),
    };
    assert_eq!(after["phase"], "after_execution");
    assert!(after["outcome"].get("success").is_some());
    assert_eq!(after["call"]["payload"]["parsed_arguments"]["timeout_ms"], 0);
    assert_eq!(after["outcome"]["success"]["response"]["output"]["content"], "Exit code: 0\nhooked");
    match dispatch.after_hook_done() {
        DispatchAction::Finish(Ok(ResponseInputItem::FunctionCallOutput { output, .. })) => {
            assert!(output.content.contains("hooked"));
        }
        _ => panic!("expected the response"),
    }
    assert_eq!(dispatch.current_stage(), DispatchStage::Done);
}

#[test]
fn stop_hook_payload_carries_turn_facts() {
    let event = StopHookEvent::new(
        "conv-1".to_string(),
        "turn-1".to_string(),
        "/work/dir".to_string(),
        Some("done".to_string()),
        vec![],
        None,
    );
    let v = json_of(event.to_json());
    assert_eq!(v["final_message"], "done");
    assert_eq!(v["cwd"], "/work/dir");
    assert!(!v["conversation_id"].as_str().unwrap().is_empty());
    assert!(!v["turn_id"].as_str().unwrap().is_empty());
    assert!(v["response_items"].is_array());
    assert!(v.get("token_usage").is_none());
}

#[test]
fn unhooked_dispatch_runs_and_finishes() {
    let call = ToolCall {
        tool_name: "apply".to_string(),
        call_id: "c9".to_string(),
        payload: ToolPayload::Custom { input: "diff".to_string() },
    };
    let (mut dispatch, first) = ToolDispatch::start(call, false);
    assert!(matches!(first, DispatchAction::Invoke(_)));
    match dispatch.handler_finished(Err(FunctionCallError::RespondToModel("bad patch".to_string()))) {
        DispatchAction::Finish(Ok(ResponseInputItem::CustomToolCallOutput { call_id, output })) => {
            assert_eq!(call_id, "c9");
            assert_eq!(output, "bad patch");
        }
        _ => panic!("expected a custom failure output"),
    }
}

#[test]
fn fatal_errors_end_the_dispatch() {
    let call = ToolCall {
        tool_name: "shell".to_string(),
        call_id: "c1".to_string(),
        payload: ToolPayload::Function { arguments: "{}".to_string() },
    };
    let (mut dispatch, _) = ToolDispatch::start(call, true);
    let _ = dispatch.directive_received(None);
    let after = match dispatch.handler_finished(Err(FunctionCallError::Fatal("boom".to_string()))) {
        DispatchAction::EmitAfter(e) => json_of(e.to_json()),
        _ => panic!("expected the after event"),
    };
    assert_eq!(after["outcome"]["error"]["message"], "boom");
    match dispatch.after_hook_done() {
        DispatchAction::Finish(Err(FunctionCallError::Fatal(m))) => assert_eq!(m, "boom"),
        _ => panic!("expected the fatal error"),
    }
}

#[test]
fn directive_without_local_shell_changes_nothing() {
    let d = ToolHookDirective { local_shell: None };
    assert!(d.timeout_behavior().is_none());
}

#[test]
fn non_fatal_error_is_reported_to_the_hook_as_text() {
    let call = ToolCall {
        tool_name: "shell".to_string(),
        call_id: "c2".to_string(),
        payload: ToolPayload::Function { arguments: "{}".to_string() },
    };
    let (mut dispatch, _) = ToolDispatch::start(call, true);
    let _ = dispatch.directive_received(None);
    let after = match dispatch.handler_finished(Err(FunctionCallError::RespondToModel("no such file".to_string()))) {
        DispatchAction::EmitAfter(e) => json_of(e.to_json()),
        _ => panic!("expected the after event"),
    };
    assert_eq!(after["outcome"]["error"]["message"], "no such file");
    match dispatch.after_hook_done() {
        DispatchAction::Finish(Ok(ResponseInputItem::FunctionCallOutput { output, .. })) => {
            assert_eq!(output.content, "no such file");
            assert_eq!(output.success, Some(false));
        }
        _ => panic!("expected a failure output"),
    }
}
