//! The hook protocol: the directive a hook may return before a call runs,
//! the snapshot of the call that a hook sees, and the events it is sent.
use vstd::prelude::*;
use crate::json::{Json, JsonValue, member, member_view, lemma_member_view, lemma_object_view, parse_json, parsed_json, number_as_u64, decimal, push_member, object, json_string, members_view};
use crate::protocol::{ResponseInputItem, response_input_json};
use crate::router::{ToolCall, ToolPayload};
use crate::text::{same_text, trim_text, trimmed, ascii_lowercase, ascii_lower};

verus! {

/// A configured tool hook: the command line it runs.
pub struct ToolHook {
    command: Vec<String>,
}

impl ToolHook {
    pub closed spec fn command_line(&self) -> Seq<String> {
        self.command@
    }

    /// A hook for `command`; `None` for an empty command line.
    pub fn new(command: Vec<String>) -> (r: Option<ToolHook>)
        ensures
            r is Some <==> command@.len() > 0,
            r matches Some(h) ==> h.command_line() == command@,
    {
        if command.len() == 0 {
            return None;
        }
        Some(ToolHook { command })
    }

    /// The command line: program, then arguments.
    pub fn command(&self) -> (r: &Vec<String>)
        ensures
            r@ == self.command_line(),
    {
        &self.command
    }
}

/// A configured stop hook: the command line it runs.
pub struct StopHook {
    command: Vec<String>,
}

impl StopHook {
    pub closed spec fn command_line(&self) -> Seq<String> {
        self.command@
    }

    /// A hook for `command`; `None` for an empty command line.
    pub fn new(command: Vec<String>) -> (r: Option<StopHook>)
        ensures
            r is Some <==> command@.len() > 0,
            r matches Some(h) ==> h.command_line() == command@,
    {
        if command.len() == 0 {
            return None;
        }
        Some(StopHook { command })
    }

    /// The command line: program, then arguments.
    pub fn command(&self) -> (r: &Vec<String>)
        ensures
            r@ == self.command_line(),
    {
        &self.command
    }
}

/// How a hook asks for the timeout of a shell call to be set.
#[derive(Clone, Copy, Debug, PartialEq, Eq, Structural)]
pub enum TimeoutBehavior {
    Millis(u64),
    Infinite,
}

/// A timeout as a hook writes it: a number of milliseconds or a keyword.
pub enum ToolHookTimeoutOverride {
    Millis(u64),
    Keyword(String),
}

/// The keywords that mean "no timeout", in lower case.
pub open spec fn is_infinite_keyword(k: Seq<char>) -> bool {
    k == "infinite"@ || k == "no_timeout"@ || k == "none"@ || k == "unlimited"@
}

/// A keyword, trimmed and with ASCII capitals made small.
pub open spec fn normalized_keyword(k: Seq<char>) -> Seq<char> {
    trimmed(k).map_values(|c: char| ascii_lower(c))
}

/// What a timeout override asks for.
pub open spec fn override_behavior(o: ToolHookTimeoutOverride) -> Option<TimeoutBehavior> {
    match o {
        ToolHookTimeoutOverride::Millis(ms) => Some(TimeoutBehavior::Millis(ms)),
        ToolHookTimeoutOverride::Keyword(k) => if is_infinite_keyword(normalized_keyword(k@)) {
            Some(TimeoutBehavior::Infinite)
        } else {
            None
        },
    }
}

impl ToolHookTimeoutOverride {
    /// What the override asks for: a number as it is, a keyword that means
    /// no timeout (in any case, with whitespace around it) as infinite, any
    /// other keyword as nothing.
    pub fn behavior(&self) -> (r: Option<TimeoutBehavior>)
        ensures
            r == override_behavior(*self),
    {
        match self {
            ToolHookTimeoutOverride::Millis(ms) => Some(TimeoutBehavior::Millis(*ms)),
            ToolHookTimeoutOverride::Keyword(k) => {
                let normalized = ascii_lowercase(trim_text(k.as_str()));
                let n = normalized.as_str();
                if same_text(n, "infinite") || same_text(n, "no_timeout") || same_text(n, "none")
                    || same_text(n, "unlimited") {
                    Some(TimeoutBehavior::Infinite)
                } else {
                    None
                }
            },
        }
    }
}

/// The `local_shell` part of a directive.
pub struct HookLocalShellDirective {
    pub timeout_ms: Option<ToolHookTimeoutOverride>,
}

impl HookLocalShellDirective {
    /// The timeout behaviour that the directive asks for, if any.
    pub fn timeout_behavior(&self) -> (r: Option<TimeoutBehavior>)
        ensures
            r == match self.timeout_ms {
                Some(o) => override_behavior(o),
                None => None,
            },
    {
        match &self.timeout_ms {
            Some(o) => o.behavior(),
            None => None,
        }
    }
}

/// What a hook may ask of a call before it runs.
pub struct ToolHookDirective {
    pub local_shell: Option<HookLocalShellDirective>,
}

/// Whether a JSON value is acceptable where an optional part of a directive
/// stands: absent or null means none.
pub open spec fn absent(m: Option<JsonValue>) -> bool {
    m is None || m matches Some(JsonValue::Null)
}

/// Whether a JSON value reads as a directive: an object whose `local_shell`
/// is absent, null, or an object whose `timeout_ms` is absent, null, a whole
/// number in range, or a string. Other members are ignored.
pub open spec fn directive_shape(v: JsonValue) -> bool {
    match v {
        JsonValue::Object(ms) => {
            let ls = member(ms@, "local_shell"@);
            absent(ls) || match ls {
                Some(JsonValue::Object(ls_ms)) => {
                    let t = member(ls_ms@, "timeout_ms"@);
                    absent(t) || t matches Some(JsonValue::Str(_)) || match t {
                        Some(JsonValue::Number(n)) => number_as_u64(n@) is Some,
                        _ => false,
                    }
                },
                _ => false,
            }
        },
        _ => false,
    }
}

/// The timeout behaviour that a directive of that shape asks for.
pub open spec fn directive_behavior(v: JsonValue) -> Option<TimeoutBehavior> {
    match v {
        JsonValue::Object(ms) => match member(ms@, "local_shell"@) {
            Some(JsonValue::Object(ls_ms)) => match member(ls_ms@, "timeout_ms"@) {
                Some(JsonValue::Number(n)) => match number_as_u64(n@) {
                    Some(ms) => Some(TimeoutBehavior::Millis(ms)),
                    None => None,
                },
                Some(JsonValue::Str(k)) => override_behavior(ToolHookTimeoutOverride::Keyword(k)),
                _ => None,
            },
            _ => None,
        },
        _ => None,
    }
}

/// Whether a JSON document is a directive: `directive_shape` on the
/// mathematical form.
pub open spec fn directive_shape_json(j: Json) -> bool {
    match j {
        Json::Object(ms) => {
            let ls = member_view(ms, "local_shell"@);
            ls is None || ls == Some(Json::Null) || match ls {
                Some(Json::Object(ls_ms)) => {
                    let t = member_view(ls_ms, "timeout_ms"@);
                    t is None || t == Some(Json::Null) || t matches Some(Json::Str(_)) || match t {
                        Some(Json::Number(n)) => number_as_u64(n) is Some,
                        _ => false,
                    }
                },
                _ => false,
            }
        },
        _ => false,
    }
}

/// The timeout behaviour that a directive document asks for.
pub open spec fn directive_behavior_json(j: Json) -> Option<TimeoutBehavior> {
    match j {
        Json::Object(ms) => match member_view(ms, "local_shell"@) {
            Some(Json::Object(ls_ms)) => match member_view(ls_ms, "timeout_ms"@) {
                Some(Json::Number(n)) => match number_as_u64(n) {
                    Some(ms) => Some(TimeoutBehavior::Millis(ms)),
                    None => None,
                },
                Some(Json::Str(k)) => if is_infinite_keyword(normalized_keyword(k)) {
                    Some(TimeoutBehavior::Infinite)
                } else {
                    None
                },
                _ => None,
            },
            _ => None,
        },
        _ => None,
    }
}

/// Reading a directive depends on the document alone.
pub proof fn lemma_directive_view(v: JsonValue)
    ensures
        directive_shape(v) == directive_shape_json(v@),
        directive_behavior(v) == directive_behavior_json(v@),
{
    if let JsonValue::Object(ms) = v {
        lemma_object_view(v);
        lemma_member_view(ms@, "local_shell"@);
        if let Some(ls) = member(ms@, "local_shell"@) {
            if let JsonValue::Object(ls_ms) = ls {
                lemma_object_view(ls);
                lemma_member_view(ls_ms@, "timeout_ms"@);
            }
        }
    }
}

/// The timeout behaviour that a directive asks for.
pub open spec fn behavior_of(d: ToolHookDirective) -> Option<TimeoutBehavior> {
    match d.local_shell {
        Some(ls) => match ls.timeout_ms {
            Some(o) => override_behavior(o),
            None => None,
        },
        None => None,
    }
}

impl ToolHookDirective {
    /// The timeout behaviour that the directive asks for, if any.
    pub fn timeout_behavior(&self) -> (r: Option<TimeoutBehavior>)
        ensures
            r == behavior_of(*self),
    {
        match &self.local_shell {
            Some(ls) => ls.timeout_behavior(),
            None => None,
        }
    }

    /// Reads a directive from JSON; `None` when the value does not have the
    /// shape of a directive.
    pub fn from_json(v: &JsonValue) -> (r: Option<ToolHookDirective>)
        ensures
            r is Some <==> directive_shape(*v),
            r matches Some(d) ==> behavior_of(d) == directive_behavior(*v),
    {
        if !matches!(v, JsonValue::Object(_)) {
            return None;
        }
        let local_shell = match v.get("local_shell") {
            None => None,
            Some(JsonValue::Null) => None,
            Some(ls) => {
                if !matches!(ls, JsonValue::Object(_)) {
                    return None;
                }
                let timeout_ms = match ls.get("timeout_ms") {
                    None => None,
                    Some(JsonValue::Null) => None,
                    Some(JsonValue::Str(k)) => Some(ToolHookTimeoutOverride::Keyword(k.clone())),
                    Some(n) => match n.as_u64() {
                        Some(ms) => Some(ToolHookTimeoutOverride::Millis(ms)),
                        None => {
                            return None;
                        },
                    },
                };
                Some(HookLocalShellDirective { timeout_ms })
            },
        };
        Some(ToolHookDirective { local_shell })
    }
}

/// Whether a hook's output is a directive: not blank, and, trimmed, a
/// JSON document that is a directive.
pub open spec fn is_directive_text(out: Seq<char>) -> bool {
    trimmed(out).len() > 0 && match parsed_json(trimmed(out)) {
        Some(j) => directive_shape_json(j),
        None => false,
    }
}

/// Reads what a hook printed before a call: blank output is no directive,
/// and so is output that is not a directive.
pub fn parse_directive(stdout: &str) -> (r: Option<ToolHookDirective>)
    ensures
        r is Some <==> is_directive_text(stdout@),
        r matches Some(d) ==> behavior_of(d) == directive_behavior_json(parsed_json(trimmed(stdout@))->Some_0),
{
    let t = trim_text(stdout);
    if t.unicode_len() == 0 {
        return None;
    }
    match parse_json(t) {
        Some(v) => {
            proof { lemma_directive_view(v); }
            ToolHookDirective::from_json(&v)
        },
        None => None,
    }
}

/// A copy of a list of strings.
pub fn copy_strings(v: &Vec<String>) -> (r: Vec<String>)
    ensures
        r@ == v@,
{
    let mut out: Vec<String> = Vec::new();
    let mut i: usize = 0;
    while i < v.len()
        invariant
            0 <= i <= v@.len(),
            out@ == v@.subrange(0, i as int),
        decreases v@.len() - i,
    {
        out.push(v[i].clone());
        assert(out@ =~= v@.subrange(0, i + 1));
        i = i + 1;
    }
    assert(v@.subrange(0, v@.len() as int) =~= v@);
    out
}

/// A copy of an optional string.
pub fn copy_opt(v: &Option<String>) -> (r: Option<String>)
    ensures
        r == *v,
{
    match v {
        Some(s) => Some(s.clone()),
        None => None,
    }
}

/// The payload of a call as a hook sees it.
pub enum ToolCallPayloadSnapshot {
    Function { arguments: String, parsed_arguments: Option<JsonValue> },
    Custom { input: String },
    LocalShell { command: Vec<String>, workdir: Option<String>, timeout_ms: Option<u64> },
    Mcp { server: String, tool: String, raw_arguments: String },
}

/// A call as a hook sees it.
pub struct ToolCallSnapshot {
    pub tool_name: String,
    pub call_id: String,
    pub payload: ToolCallPayloadSnapshot,
}

/// Whether `s` is a snapshot of `call`: the same name, id and payload, with
/// function arguments also given as JSON when they parse.
pub open spec fn snapshot_of(s: ToolCallSnapshot, call: ToolCall) -> bool {
    &&& s.tool_name == call.tool_name
    &&& s.call_id == call.call_id
    &&& match (s.payload, call.payload) {
        (ToolCallPayloadSnapshot::Function { arguments: a, parsed_arguments: p }, ToolPayload::Function { arguments }) => {
            &&& a == arguments
            &&& match p {
                Some(v) => parsed_json(arguments@) == Some(v@),
                None => parsed_json(arguments@) is None,
            }
        },
        (ToolCallPayloadSnapshot::Custom { input: a }, ToolPayload::Custom { input }) => a == input,
        (ToolCallPayloadSnapshot::LocalShell { command, workdir, timeout_ms }, ToolPayload::LocalShell { params }) => {
            command@ == params.command@ && workdir == params.workdir && timeout_ms == params.timeout_ms
        },
        (ToolCallPayloadSnapshot::Mcp { server: s0, tool: t0, raw_arguments: r0 }, ToolPayload::Mcp { server, tool, raw_arguments }) => {
            s0 == server && t0 == tool && r0 == raw_arguments
        },
        _ => false,
    }
}

impl ToolCallSnapshot {
    /// A snapshot of `call`, sharing nothing with it.
    pub fn from_call(call: &ToolCall) -> (r: ToolCallSnapshot)
        ensures
            snapshot_of(r, *call),
    {
        let payload = match &call.payload {
            ToolPayload::Function { arguments } => ToolCallPayloadSnapshot::Function {
                arguments: arguments.clone(),
                parsed_arguments: parse_json(arguments.as_str()),
            },
            ToolPayload::Custom { input } => ToolCallPayloadSnapshot::Custom { input: input.clone() },
            ToolPayload::LocalShell { params } => ToolCallPayloadSnapshot::LocalShell {
                command: copy_strings(&params.command),
                workdir: copy_opt(&params.workdir),
                timeout_ms: params.timeout_ms,
            },
            ToolPayload::Mcp { server, tool, raw_arguments } => ToolCallPayloadSnapshot::Mcp {
                server: server.clone(),
                tool: tool.clone(),
                raw_arguments: raw_arguments.clone(),
            },
        };
        ToolCallSnapshot { tool_name: call.tool_name.clone(), call_id: call.call_id.clone(), payload }
    }

    /// The snapshot as the JSON a hook reads.
    pub fn to_json(self) -> (r: JsonValue)
        ensures
            r@ == snapshot_json(self),
    {
        let mut p: Vec<(String, JsonValue)> = Vec::new();
        let ghost sp = self.payload;
        assert(members_view(p@) =~= Seq::<(Seq<char>, Json)>::empty());
        match self.payload {
            ToolCallPayloadSnapshot::Function { arguments, parsed_arguments } => {
                push_member(&mut p, "kind", json_string("function"));
                push_member(&mut p, "arguments", JsonValue::Str(arguments));
                match parsed_arguments {
                    Some(v) => push_member(&mut p, "parsed_arguments", v),
                    None => {},
                }
            },
            ToolCallPayloadSnapshot::Custom { input } => {
                push_member(&mut p, "kind", json_string("custom"));
                push_member(&mut p, "input", JsonValue::Str(input));
            },
            ToolCallPayloadSnapshot::LocalShell { command, workdir, timeout_ms } => {
                push_member(&mut p, "kind", json_string("local_shell"));
                push_member(&mut p, "command", strings_json(command));
                match workdir {
                    Some(w) => push_member(&mut p, "workdir", JsonValue::Str(w)),
                    None => {},
                }
                match timeout_ms {
                    Some(t) => push_member(&mut p, "timeout_ms", JsonValue::from_u64(t)),
                    None => {},
                }
            },
            ToolCallPayloadSnapshot::Mcp { server, tool, raw_arguments } => {
                push_member(&mut p, "kind", json_string("mcp"));
                push_member(&mut p, "server", JsonValue::Str(server));
                push_member(&mut p, "tool", JsonValue::Str(tool));
                push_member(&mut p, "raw_arguments", JsonValue::Str(raw_arguments));
            },
        }
        assert(members_view(p@) =~= payload_snapshot_json(sp)->Object_0);
        let mut ms: Vec<(String, JsonValue)> = Vec::new();
        assert(members_view(ms@) =~= Seq::<(Seq<char>, Json)>::empty());
        push_member(&mut ms, "tool_name", JsonValue::Str(self.tool_name));
        push_member(&mut ms, "call_id", JsonValue::Str(self.call_id));
        push_member(&mut ms, "payload", object(p));
        let r = object(ms);
        assert(r@->Object_0 =~= snapshot_json(self)->Object_0);
        r
    }
}

/// A list of strings as a JSON array.
pub fn strings_json(v: Vec<String>) -> (r: JsonValue)
    ensures
        r@ == Json::Array(v@.map_values(|s: String| Json::Str(s@))),
{
    let mut out: Vec<JsonValue> = Vec::new();
    let mut i: usize = 0;
    while i < v.len()
        invariant
            0 <= i <= v@.len(),
            out@.len() == i,
            forall|j: int| 0 <= j < i ==> #[trigger] out@[j]@ == Json::Str(v@[j]@),
        decreases v@.len() - i,
    {
        out.push(JsonValue::Str(v[i].clone()));
        i = i + 1;
    }
    let ghost g = out@;
    let r = JsonValue::Array(out);
    assert(forall|j: int| 0 <= j < v@.len() ==> r@->Array_0[j] == g[j]@);
    assert(r@->Array_0 =~= v@.map_values(|s: String| Json::Str(s@)));
    r
}

/// The JSON a hook reads for the payload of a call.
pub open spec fn payload_snapshot_json(p: ToolCallPayloadSnapshot) -> Json {
    Json::Object(match p {
        ToolCallPayloadSnapshot::Function { arguments, parsed_arguments } => {
            let base = seq![("kind"@, Json::Str("function"@)), ("arguments"@, Json::Str(arguments@))];
            match parsed_arguments {
                Some(v) => base.push(("parsed_arguments"@, v@)),
                None => base,
            }
        },
        ToolCallPayloadSnapshot::Custom { input } => seq![("kind"@, Json::Str("custom"@)), ("input"@, Json::Str(input@))],
        ToolCallPayloadSnapshot::LocalShell { command, workdir, timeout_ms } => {
            let base = seq![
                ("kind"@, Json::Str("local_shell"@)),
                ("command"@, Json::Array(command@.map_values(|s: String| Json::Str(s@)))),
            ];
            let with_dir = match workdir {
                Some(w) => base.push(("workdir"@, Json::Str(w@))),
                None => base,
            };
            match timeout_ms {
                Some(t) => with_dir.push(("timeout_ms"@, Json::Number(decimal(t as nat)))),
                None => with_dir,
            }
        },
        ToolCallPayloadSnapshot::Mcp { server, tool, raw_arguments } => seq![
            ("kind"@, Json::Str("mcp"@)),
            ("server"@, Json::Str(server@)),
            ("tool"@, Json::Str(tool@)),
            ("raw_arguments"@, Json::Str(raw_arguments@)),
        ],
    })
}

/// The JSON a hook reads for a call.
pub open spec fn snapshot_json(s: ToolCallSnapshot) -> Json {
    Json::Object(seq![
        ("tool_name"@, Json::Str(s.tool_name@)),
        ("call_id"@, Json::Str(s.call_id@)),
        ("payload"@, payload_snapshot_json(s.payload)),
    ])
}

/// When a tool hook runs.
#[derive(Clone, Copy, Debug, PartialEq, Eq, Structural)]
pub enum ToolHookPhase {
    BeforeExecution,
    AfterExecution,
}

/// How a call ended, as the hook after it is told.
pub enum ToolHookOutcome {
    Success { response: ResponseInputItem },
    Error { message: String },
}

/// What a tool hook is sent.
pub struct ToolHookEvent {
    pub phase: ToolHookPhase,
    pub call: ToolCallSnapshot,
    pub outcome: Option<ToolHookOutcome>,
}

impl ToolHookEvent {
    /// The event before a call runs.
    pub fn before(call: ToolCallSnapshot) -> (r: ToolHookEvent)
        ensures
            r == (ToolHookEvent { phase: ToolHookPhase::BeforeExecution, call, outcome: None }),
    {
        ToolHookEvent { phase: ToolHookPhase::BeforeExecution, call, outcome: None }
    }

    /// The event after a call gave `response`.
    pub fn after_success(call: ToolCallSnapshot, response: ResponseInputItem) -> (r: ToolHookEvent)
        ensures
            r == (ToolHookEvent {
                phase: ToolHookPhase::AfterExecution,
                call,
                outcome: Some(ToolHookOutcome::Success { response }),
            }),
    {
        ToolHookEvent { phase: ToolHookPhase::AfterExecution, call, outcome: Some(ToolHookOutcome::Success { response }) }
    }

    /// The event after a call failed with `message`.
    pub fn after_error(call: ToolCallSnapshot, message: String) -> (r: ToolHookEvent)
        ensures
            r == (ToolHookEvent {
                phase: ToolHookPhase::AfterExecution,
                call,
                outcome: Some(ToolHookOutcome::Error { message }),
            }),
    {
        ToolHookEvent { phase: ToolHookPhase::AfterExecution, call, outcome: Some(ToolHookOutcome::Error { message }) }
    }

    /// The event as the JSON a hook reads on its input.
    pub fn to_json(self) -> (r: JsonValue)
        ensures
            r@ == event_json(self),
    {
        let ghost g = self;
        let mut ms: Vec<(String, JsonValue)> = Vec::new();
        assert(members_view(ms@) =~= Seq::<(Seq<char>, Json)>::empty());
        let phase = match self.phase {
            ToolHookPhase::BeforeExecution => json_string("before_execution"),
            ToolHookPhase::AfterExecution => json_string("after_execution"),
        };
        push_member(&mut ms, "phase", phase);
        push_member(&mut ms, "call", self.call.to_json());
        match self.outcome {
            Some(ToolHookOutcome::Success { response }) => {
                let mut inner: Vec<(String, JsonValue)> = Vec::new();
                push_member(&mut inner, "response", response.to_json());
                let mut outer: Vec<(String, JsonValue)> = Vec::new();
                push_member(&mut outer, "success", object(inner));
                push_member(&mut ms, "outcome", object(outer));
            },
            Some(ToolHookOutcome::Error { message }) => {
                let mut inner: Vec<(String, JsonValue)> = Vec::new();
                push_member(&mut inner, "message", JsonValue::Str(message));
                let mut outer: Vec<(String, JsonValue)> = Vec::new();
                push_member(&mut outer, "error", object(inner));
                push_member(&mut ms, "outcome", object(outer));
            },
            None => {},
        }
        assert(members_view(ms@) =~= event_json(g)->Object_0);
        object(ms)
    }
}

/// The JSON a tool hook reads: the phase, the call, and for the phase
/// after a call, how it ended.
pub open spec fn event_json(e: ToolHookEvent) -> Json {
    let base = seq![
        ("phase"@, Json::Str(match e.phase {
            ToolHookPhase::BeforeExecution => "before_execution"@,
            ToolHookPhase::AfterExecution => "after_execution"@,
        })),
        ("call"@, snapshot_json(e.call)),
    ];
    Json::Object(match e.outcome {
        Some(ToolHookOutcome::Success { response }) => base.push(("outcome"@, Json::Object(seq![
            ("success"@, Json::Object(seq![("response"@, response_input_json(response))])),
        ]))),
        Some(ToolHookOutcome::Error { message }) => base.push(("outcome"@, Json::Object(seq![
            ("error"@, Json::Object(seq![("message"@, Json::Str(message@))])),
        ]))),
        None => base,
    })
}

/// What the stop hook is sent once a turn completes.
pub struct StopHookEvent {
    pub conversation_id: String,
    pub turn_id: String,
    pub cwd: String,
    pub final_message: Option<String>,
    pub response_items: Vec<JsonValue>,
    pub token_usage: Option<JsonValue>,
}

impl StopHookEvent {
    pub fn new(
        conversation_id: String,
        turn_id: String,
        cwd: String,
        final_message: Option<String>,
        response_items: Vec<JsonValue>,
        token_usage: Option<JsonValue>,
    ) -> (r: StopHookEvent)
        ensures
            r == (StopHookEvent { conversation_id, turn_id, cwd, final_message, response_items, token_usage }),
    {
        StopHookEvent { conversation_id, turn_id, cwd, final_message, response_items, token_usage }
    }

    /// The event as the JSON the stop hook reads on its input.
    pub fn to_json(self) -> (r: JsonValue)
        ensures
            r@ == stop_event_json(self),
    {
        let ghost g = self;
        let mut ms: Vec<(String, JsonValue)> = Vec::new();
        assert(members_view(ms@) =~= Seq::<(Seq<char>, Json)>::empty());
        push_member(&mut ms, "conversation_id", JsonValue::Str(self.conversation_id));
        push_member(&mut ms, "turn_id", JsonValue::Str(self.turn_id));
        push_member(&mut ms, "cwd", JsonValue::Str(self.cwd));
        match self.final_message {
            Some(m) => push_member(&mut ms, "final_message", JsonValue::Str(m)),
            None => {},
        }
        let items = JsonValue::Array(self.response_items);
        push_member(&mut ms, "response_items", items);
        match self.token_usage {
            Some(u) => push_member(&mut ms, "token_usage", u),
            None => {},
        }
        assert(members_view(ms@) =~= stop_event_json(g)->Object_0);
        object(ms)
    }
}

/// The JSON the stop hook reads; `final_message` and `token_usage` appear
/// only when present.
pub open spec fn stop_event_json(e: StopHookEvent) -> Json {
    let base = seq![
        ("conversation_id"@, Json::Str(e.conversation_id@)),
        ("turn_id"@, Json::Str(e.turn_id@)),
        ("cwd"@, Json::Str(e.cwd@)),
    ];
    let with_message = match e.final_message {
        Some(m) => base.push(("final_message"@, Json::Str(m@))),
        None => base,
    };
    let with_items = with_message.push(("response_items"@, JsonValue::Array(e.response_items)@));
    Json::Object(match e.token_usage {
        Some(u) => with_items.push(("token_usage"@, u@)),
        None => with_items,
    })
}

} // verus!
