use codex_tool_core::pending_tools::PendingToolManager;
use codex_tool_core::protocol::FunctionCallOutputPayload;

fn payload(text: &str) -> FunctionCallOutputPayload {
    FunctionCallOutputPayload { content: text.to_string(), content_items: None, success: Some(true) }
}

fn registered() -> PendingToolManager {
    let mut manager = PendingToolManager::new();
    let meta = manager.register(
        "call-1".to_string(),
        "deferred_tool".to_string(),
        "turn-1".to_string(),
        Some("waiting".to_string()),
    );
    assert_eq!(meta.call_id, "call-1");
    assert_eq!(meta.tool_name, "deferred_tool");
    assert_eq!(meta.turn_id, "turn-1");
    assert_eq!(meta.note.as_deref(), Some("waiting"));
    manager
}

#[test]
fn resolve_then_take_delivers_payload() {
    let mut manager = registered();
    let meta = manager.resolve("call-1", payload("ok")).expect("entry exists");
    assert_eq!(meta.call_id, "call-1");
    let (meta, mut rx) = manager.take_receiver("call-1").expect("receiver still held");
    assert_eq!(meta.tool_name, "deferred_tool");
    let got = rx.try_recv().expect("payload delivered");
    assert_eq!(got.content, "ok");
    assert_eq!(got.success, Some(true));
    assert!(manager.cancel("call-1").is_none());
}

#[test]
fn take_then_resolve_delivers_payload() {
    let mut manager = registered();
    let (meta, mut rx) = manager.take_receiver("call-1").expect("receiver held");
    assert_eq!(meta.call_id, "call-1");
    assert!(rx.try_recv().is_err());
    let resolved = manager.resolve("call-1", payload("ok")).expect("entry exists");
    assert_eq!(resolved.turn_id, "turn-1");
    let got = rx.try_recv().expect("payload delivered");
    assert_eq!(got.content, "ok");
    assert!(manager.cancel("call-1").is_none());
}

#[test]
fn cancel_aborts_delivery() {
    let mut manager = registered();
    let meta = manager.cancel("call-1").expect("entry exists");
    assert_eq!(meta.call_id, "call-1");
    assert!(manager.take_receiver("call-1").is_none());
    assert!(manager.resolve("call-1", payload("ok")).is_none());
}

#[test]
fn receiver_can_be_taken_only_once() {
    let mut manager = registered();
    assert!(manager.take_receiver("call-1").is_some());
    assert!(manager.take_receiver("call-1").is_none());
    assert!(manager.cancel("call-1").is_some());
}

#[test]
fn unknown_call_is_not_found() {
    let mut manager = PendingToolManager::new();
    assert!(manager.take_receiver("nope").is_none());
    assert!(manager.resolve("nope", payload("x")).is_none());
    assert!(manager.cancel("nope").is_none());
}

#[test]
fn newer_registration_replaces_older() {
    let mut manager = registered();
    let (_, mut old_rx) = manager.take_receiver("call-1").expect("receiver held");
    let meta = manager.register("call-1".to_string(), "second".to_string(), "turn-2".to_string(), None);
    assert_eq!(meta.tool_name, "second");
    let (meta, mut rx) = manager.take_receiver("call-1").expect("fresh receiver");
    assert_eq!(meta.turn_id, "turn-2");
    assert!(manager.resolve("call-1", payload("new")).is_some());
    assert_eq!(rx.try_recv().expect("delivered").content, "new");
    assert!(old_rx.try_recv().is_err());
    assert!(manager.cancel("call-1").is_none());
}

#[test]
fn closed_receiver_refuses_the_payload() {
    let mut manager = registered();
    let (_, mut rx) = manager.take_receiver("call-1").expect("receiver held");
    rx.close();
    let (meta, accepted) = manager.resolve_reporting("call-1", payload("ok"));
    assert_eq!(meta.expect("entry exists").call_id, "call-1");
    assert!(!accepted);
    assert!(rx.try_recv().is_err());
    assert!(manager.cancel("call-1").is_none());
}

#[test]
fn accepted_payload_reaches_the_receiver() {
    let mut manager = registered();
    let (meta, accepted) = manager.resolve_reporting("call-1", payload("ok"));
    assert!(meta.is_some());
    assert!(accepted);
    let (_, mut rx) = manager.take_receiver("call-1").expect("receiver held");
    assert_eq!(rx.try_recv().expect("delivered").content, "ok");
    let (again, accepted_again) = manager.resolve_reporting("call-1", payload("late"));
    assert!(again.is_none());
    assert!(!accepted_again);
}
