use codex_tool_core::hooks::{HookLocalShellDirective, ToolHookDirective, ToolHookTimeoutOverride, TimeoutBehavior};
use codex_tool_core::json::JsonValue;
use codex_tool_core::protocol::{LocalShellAction, LocalShellExecAction, ResponseInputItem, ResponseItem};
use codex_tool_core::router::{
    ConfiguredToolSpec, FunctionCallError, McpToolIndex, SandboxPermissions, ShellToolCallParams, ToolCall,
    ToolPayload, ToolRouter, ToolSpec,
};

fn mcp() -> McpToolIndex {
    McpToolIndex { tools: vec![("files__read".to_string(), "files".to_string(), "read".to_string())] }
}

fn spec(name: &str, parallel: bool) -> ConfiguredToolSpec {
    ConfiguredToolSpec {
        spec: ToolSpec { name: name.to_string(), definition: JsonValue::Str(format!("{name} tool")) },
        supports_parallel_tool_calls: parallel,
    }
}

fn infinite() -> ToolHookDirective {
    ToolHookDirective {
        local_shell: Some(HookLocalShellDirective {
            timeout_ms: Some(ToolHookTimeoutOverride::Keyword("infinite".to_string())),
        }),
    }
}

#[test]
fn function_call_becomes_function_payload() {
    let item = ResponseItem::FunctionCall {
        name: "shell".to_string(),
        arguments: "{}".to_string(),
        call_id: "c1".to_string(),
    };
    let call = ToolRouter::build_tool_call(&mcp(), item).ok().flatten().expect("a tool call");
    assert_eq!(call.tool_name, "shell");
    assert_eq!(call.call_id, "c1");
    assert!(matches!(call.payload, ToolPayload::Function { ref arguments } if arguments == "{}"));
}

#[test]
fn mcp_tool_name_becomes_mcp_payload() {
    let item = ResponseItem::FunctionCall {
        name: "files__read".to_string(),
        arguments: "{\"path\":\"a\"}".to_string(),
        call_id: "c2".to_string(),
    };
    let call = ToolRouter::build_tool_call(&mcp(), item).ok().flatten().expect("a tool call");
    match call.payload {
        ToolPayload::Mcp { server, tool, raw_arguments } => {
            assert_eq!(server, "files");
            assert_eq!(tool, "read");
            assert_eq!(raw_arguments, "{\"path\":\"a\"}");
        }
        _ => panic!("expected an MCP payload"),
    }
}

#[test]
fn custom_call_becomes_custom_payload() {
    let item = ResponseItem::CustomToolCall {
        name: "apply_patch".to_string(),
        input: "*** Begin".to_string(),
        call_id: "c3".to_string(),
    };
    let call = ToolRouter::build_tool_call(&mcp(), item).ok().flatten().expect("a tool call");
    assert!(matches!(call.payload, ToolPayload::Custom { ref input } if input == "*** Begin"));
}

fn shell_item(id: Option<&str>, call_id: Option<&str>) -> ResponseItem {
    ResponseItem::LocalShellCall {
        id: id.map(str::to_string),
        call_id: call_id.map(str::to_string),
        action: LocalShellAction::Exec(LocalShellExecAction {
            command: vec!["ls".to_string(), "-l".to_string()],
            timeout_ms: Some(1000),
            working_directory: Some("/tmp".to_string()),
        }),
    }
}

#[test]
fn local_shell_call_falls_back_to_id() {
    let call = ToolRouter::build_tool_call(&mcp(), shell_item(Some("item-7"), None)).ok().flatten().expect("call");
    assert_eq!(call.tool_name, "local_shell");
    assert_eq!(call.call_id, "item-7");
    match call.payload {
        ToolPayload::LocalShell { params } => {
            assert_eq!(params.command, vec!["ls".to_string(), "-l".to_string()]);
            assert_eq!(params.workdir.as_deref(), Some("/tmp"));
            assert_eq!(params.timeout_ms, Some(1000));
            assert_eq!(params.sandbox_permissions, Some(SandboxPermissions::UseDefault));
            assert!(params.justification.is_none());
        }
        _ => panic!("expected a local shell payload"),
    }
    let call = ToolRouter::build_tool_call(&mcp(), shell_item(Some("item-7"), Some("call-7"))).ok().flatten().unwrap();
    assert_eq!(call.call_id, "call-7");
}

#[test]
fn local_shell_call_without_any_id_fails() {
    let r = ToolRouter::build_tool_call(&mcp(), shell_item(None, None));
    assert!(matches!(r, Err(FunctionCallError::MissingLocalShellCallId)));
}

#[test]
fn other_items_are_not_tool_calls() {
    let item = ResponseItem::Other(JsonValue::Null);
    assert!(matches!(ToolRouter::build_tool_call(&mcp(), item), Ok(None)));
    let output = ResponseItem::CustomToolCallOutput { call_id: "x".to_string(), output: "y".to_string() };
    assert!(matches!(ToolRouter::build_tool_call(&mcp(), output), Ok(None)));
}

#[test]
fn failure_response_matches_the_call_kind() {
    let err = FunctionCallError::RespondToModel("no such file".to_string());
    match ToolRouter::failure_response("c1".to_string(), false, err) {
        ResponseInputItem::FunctionCallOutput { call_id, output } => {
            assert_eq!(call_id, "c1");
            assert_eq!(output.content, "no such file");
            assert_eq!(output.success, Some(false));
            assert!(output.content_items.is_none());
        }
        _ => panic!("expected a function output"),
    }
    match ToolRouter::failure_response("c2".to_string(), true, FunctionCallError::MissingLocalShellCallId) {
        ResponseInputItem::CustomToolCallOutput { call_id, output } => {
            assert_eq!(call_id, "c2");
            assert_eq!(output, "LocalShellCall without call_id or id");
        }
        _ => panic!("expected a custom output"),
    }
}

#[test]
fn specs_and_parallel_flags() {
    let router = ToolRouter::new(vec![spec("shell", false), spec("read", true), spec("shell", true)]);
    let specs = router.specs();
    assert_eq!(specs.len(), 3);
    assert_eq!(specs[1].name, "read");
    assert!(matches!(specs[0].definition, JsonValue::Str(ref s) if s == "shell tool"));
    assert!(router.tool_supports_parallel("read"));
    assert!(router.tool_supports_parallel("shell"));
    assert!(!router.tool_supports_parallel("write"));
    let only_serial = ToolRouter::new(vec![spec("shell", false)]);
    assert!(!only_serial.tool_supports_parallel("shell"));
}

#[test]
fn directive_sets_local_shell_timeout() {
    let mut call = ToolCall {
        tool_name: "local_shell".to_string(),
        call_id: "c".to_string(),
        payload: ToolPayload::LocalShell {
            params: ShellToolCallParams {
                command: vec!["sleep".to_string()],
                workdir: None,
                timeout_ms: Some(50),
                sandbox_permissions: None,
                justification: None,
            },
        },
    };
    ToolRouter::apply_tool_hook_directive(&mut call, infinite());
    assert!(matches!(call.payload, ToolPayload::LocalShell { ref params } if params.timeout_ms == Some(0)));
    let millis = ToolHookDirective {
        local_shell: Some(HookLocalShellDirective { timeout_ms: Some(ToolHookTimeoutOverride::Millis(900)) }),
    };
    ToolRouter::apply_tool_hook_directive(&mut call, millis);
    assert!(matches!(call.payload, ToolPayload::LocalShell { ref params } if params.timeout_ms == Some(900)));
}

#[test]
fn directive_leaves_other_calls_alone() {
    let mut call = ToolCall {
        tool_name: "other_tool".to_string(),
        call_id: "c".to_string(),
        payload: ToolPayload::Function { arguments: "{\"timeout_ms\":5}".to_string() },
    };
    ToolRouter::apply_tool_hook_directive(&mut call, infinite());
    assert!(matches!(call.payload, ToolPayload::Function { ref arguments } if arguments == "{\"timeout_ms\":5}"));
    let mut not_object = ToolCall {
        tool_name: "shell_command".to_string(),
        call_id: "c".to_string(),
        payload: ToolPayload::Function { arguments: "[1]".to_string() },
    };
    ToolRouter::apply_tool_hook_directive(&mut not_object, infinite());
    assert!(matches!(not_object.payload, ToolPayload::Function { ref arguments } if arguments == "[1]"));
}

#[test]
fn timeout_behavior_maps_to_millis() {
    let mut t: Option<u64> = None;
    ToolRouter::apply_timeout_behavior(&mut t, TimeoutBehavior::Infinite);
    assert_eq!(t, Some(0));
    ToolRouter::apply_timeout_behavior(&mut t, TimeoutBehavior::Millis(42));
    assert_eq!(t, Some(42));
}

#[test]
fn error_messages() {
    assert_eq!(FunctionCallError::Fatal("x".to_string()).message(), "Fatal error: x");
    assert_eq!(FunctionCallError::RespondToModel("y".to_string()).message(), "y");
}
