//! The tool router: it turns model items into tool calls, lists the tools
//! the model sees, applies hook directives, and drives the dispatch of a
//! call around its hook.
use vstd::prelude::*;
use crate::json::{Json, JsonValue, parse_json, parsed_json, print_json, printed_json, set_member, decimal, lemma_object_view, lemma_with_member_view};
use crate::hooks::{TimeoutBehavior, ToolHookDirective, behavior_of, ToolCallSnapshot, ToolHookEvent, ToolHookOutcome, ToolHookPhase, snapshot_of};
use crate::protocol::{FunctionCallOutputPayload, LocalShellAction, ResponseInputItem, ResponseItem, response_input_json};
use crate::text::same_text;

verus! {

/// How a shell call asks to be sandboxed.
#[derive(Clone, Copy, Debug, PartialEq, Eq, Structural)]
pub enum SandboxPermissions {
    UseDefault,
    RequireEscalated,
}

/// The parameters of a local shell call.
pub struct ShellToolCallParams {
    pub command: Vec<String>,
    pub workdir: Option<String>,
    pub timeout_ms: Option<u64>,
    pub sandbox_permissions: Option<SandboxPermissions>,
    pub justification: Option<String>,
}

/// What a tool call carries, by the kind of tool.
pub enum ToolPayload {
    Function { arguments: String },
    Custom { input: String },
    LocalShell { params: ShellToolCallParams },
    Mcp { server: String, tool: String, raw_arguments: String },
}

/// One call of a tool, as the router hands it to a handler.
pub struct ToolCall {
    pub tool_name: String,
    pub call_id: String,
    pub payload: ToolPayload,
}

/// Why a tool call failed.
pub enum FunctionCallError {
    /// Told to the model as the call's output.
    RespondToModel(String),
    /// A local shell call came with neither a call id nor an id.
    MissingLocalShellCallId,
    /// The turn cannot go on.
    Fatal(String),
}

/// The text of an error, as the model sees it.
pub open spec fn error_text(e: FunctionCallError) -> Seq<char> {
    match e {
        FunctionCallError::RespondToModel(m) => m@,
        FunctionCallError::MissingLocalShellCallId => "LocalShellCall without call_id or id"@,
        FunctionCallError::Fatal(m) => "Fatal error: "@ + m@,
    }
}

impl FunctionCallError {
    /// The text of the error.
    pub fn message(&self) -> (r: String)
        ensures
            r@ == error_text(*self),
    {
        match self {
            FunctionCallError::RespondToModel(m) => m.clone(),
            FunctionCallError::MissingLocalShellCallId => String::from_str("LocalShellCall without call_id or id"),
            FunctionCallError::Fatal(m) => String::from_str("Fatal error: ").concat(m.as_str()),
        }
    }
}

/// A tool the model is offered: its name and the definition sent to the
/// model.
pub struct ToolSpec {
    pub name: String,
    pub definition: JsonValue,
}

/// A tool as configured for the router.
pub struct ConfiguredToolSpec {
    pub spec: ToolSpec,
    pub supports_parallel_tool_calls: bool,
}

/// The tools that MCP servers offer, by the name the model calls them.
pub struct McpToolIndex {
    pub tools: Vec<(String, String, String)>,
}

/// The server and tool behind an MCP tool name: the first entry of that
/// name.
pub open spec fn mcp_route(tools: Seq<(String, String, String)>, name: Seq<char>) -> Option<(String, String)>
    decreases tools.len(),
{
    if tools.len() == 0 {
        None
    } else if tools[0].0@ == name {
        Some((tools[0].1, tools[0].2))
    } else {
        mcp_route(tools.drop_first(), name)
    }
}

impl McpToolIndex {
    /// The server and tool that `name` stands for, if it is an MCP tool.
    pub fn parse_mcp_tool_name(&self, name: &str) -> (r: Option<(String, String)>)
        ensures
            r == mcp_route(self.tools@, name@),
    {
        let mut i: usize = 0;
        assert(self.tools@.subrange(0, self.tools@.len() as int) =~= self.tools@);
        while i < self.tools.len()
            invariant
                0 <= i <= self.tools@.len(),
                mcp_route(self.tools@, name@) == mcp_route(self.tools@.subrange(i as int, self.tools@.len() as int), name@),
            decreases self.tools@.len() - i,
        {
            let ghost rest = self.tools@.subrange(i as int, self.tools@.len() as int);
            if same_text(self.tools[i].0.as_str(), name) {
                return Some((self.tools[i].1.clone(), self.tools[i].2.clone()));
            }
            assert(rest.drop_first() =~= self.tools@.subrange(i + 1, self.tools@.len() as int));
            i = i + 1;
        }
        None
    }
}

/// The router: the configured tools, in configuration order.
pub struct ToolRouter {
    specs: Vec<ConfiguredToolSpec>,
}

impl ToolRouter {
    /// A router over `specs`.
    pub fn new(specs: Vec<ConfiguredToolSpec>) -> (r: ToolRouter)
        ensures
            r.configured() == specs@,
    {
        ToolRouter { specs }
    }

    pub closed spec fn configured(&self) -> Seq<ConfiguredToolSpec> {
        self.specs@
    }

    /// Copies of the configured tool specs, in configuration order.
    pub fn specs(&self) -> (r: Vec<ToolSpec>)
        ensures
            r@.len() == self.configured().len(),
            forall|i: int| 0 <= i < r@.len() ==> (#[trigger] r@[i]).name == self.configured()[i].spec.name
                && r@[i].definition@ == self.configured()[i].spec.definition@,
    {
        let mut out: Vec<ToolSpec> = Vec::new();
        let mut i: usize = 0;
        while i < self.specs.len()
            invariant
                0 <= i <= self.specs@.len(),
                out@.len() == i,
                forall|j: int| 0 <= j < i ==> (#[trigger] out@[j]).name == self.specs@[j].spec.name
                    && out@[j].definition@ == self.specs@[j].spec.definition@,
            decreases self.specs@.len() - i,
        {
            let s = &self.specs[i].spec;
            out.push(ToolSpec { name: s.name.clone(), definition: s.definition.duplicate() });
            i = i + 1;
        }
        out
    }

    /// Whether a tool of that name is configured to run in parallel with
    /// other calls.
    pub fn tool_supports_parallel(&self, tool_name: &str) -> (r: bool)
        ensures
            r == exists|i: int| 0 <= i < self.configured().len()
                && (#[trigger] self.configured()[i]).supports_parallel_tool_calls
                && self.configured()[i].spec.name@ == tool_name@,
    {
        let mut i: usize = 0;
        while i < self.specs.len()
            invariant
                0 <= i <= self.specs@.len(),
                forall|j: int| 0 <= j < i ==> !((#[trigger] self.specs@[j]).supports_parallel_tool_calls
                    && self.specs@[j].spec.name@ == tool_name@),
            decreases self.specs@.len() - i,
        {
            if self.specs[i].supports_parallel_tool_calls && same_text(self.specs[i].spec.name.as_str(), tool_name) {
                return true;
            }
            i = i + 1;
        }
        false
    }
}

/// Whether `r` is what `build_tool_call` owes for `item`, where `route` is
/// what the MCP lookup gives for a function call's name. Only function
/// calls, custom tool calls and local shell calls are tool calls.
pub open spec fn classified(tools: Seq<(String, String, String)>, item: ResponseItem, r: Result<Option<ToolCall>, FunctionCallError>) -> bool {
    match item {
        ResponseItem::FunctionCall { name, arguments, call_id } => match mcp_route(tools, name@) {
            Some((server, tool)) => r == Ok::<Option<ToolCall>, FunctionCallError>(Some(ToolCall {
                tool_name: name,
                call_id,
                payload: ToolPayload::Mcp { server, tool, raw_arguments: arguments },
            })),
            None => r == Ok::<Option<ToolCall>, FunctionCallError>(Some(ToolCall {
                tool_name: name,
                call_id,
                payload: ToolPayload::Function { arguments },
            })),
        },
        ResponseItem::CustomToolCall { name, input, call_id } => r == Ok::<Option<ToolCall>, FunctionCallError>(Some(ToolCall {
            tool_name: name,
            call_id,
            payload: ToolPayload::Custom { input },
        })),
        ResponseItem::LocalShellCall { id, call_id, action: LocalShellAction::Exec(exec) } => match (call_id, id) {
            (None, None) => r matches Err(FunctionCallError::MissingLocalShellCallId),
            _ => r matches Ok(Some(c)) && {
                &&& c.tool_name@ == "local_shell"@
                &&& c.call_id == (match call_id { Some(c) => c, None => id->Some_0 })
                &&& c.payload == ToolPayload::LocalShell { params: ShellToolCallParams {
                    command: exec.command,
                    workdir: exec.working_directory,
                    timeout_ms: exec.timeout_ms,
                    sandbox_permissions: Some(SandboxPermissions::UseDefault),
                    justification: None,
                } }
            },
        },
        _ => r == Ok::<Option<ToolCall>, FunctionCallError>(None),
    }
}

/// Whether `r` reports `err` for the call `call_id` in the form the model
/// expects: a custom output for a custom call, otherwise a function output
/// marked unsuccessful, each carrying the error's text.
pub open spec fn is_failure_response(r: ResponseInputItem, call_id: String, custom: bool, err: FunctionCallError) -> bool {
    if custom {
        r matches ResponseInputItem::CustomToolCallOutput { call_id: c, output } && c == call_id
            && output@ == error_text(err)
    } else {
        r matches ResponseInputItem::FunctionCallOutput { call_id: c, output } && c == call_id
            && output.content@ == error_text(err) && output.content_items is None
            && output.success == Some(false)
    }
}

/// Classification reads nothing but the item and, for a function call,
/// what the MCP lookup gives for its name: two lookups that agree there
/// give the same call. Items that are not tool calls give `Ok(None)`.
pub proof fn law_classification_reads_only_the_route(
    t1: Seq<(String, String, String)>,
    t2: Seq<(String, String, String)>,
    item: ResponseItem,
    r: Result<Option<ToolCall>, FunctionCallError>,
)
    requires
        classified(t1, item, r),
        item matches ResponseItem::FunctionCall { name, .. } ==> mcp_route(t1, name@) == mcp_route(t2, name@),
    ensures
        classified(t2, item, r),
        !(item is FunctionCall || item is CustomToolCall || item is LocalShellCall)
            ==> r == Ok::<Option<ToolCall>, FunctionCallError>(None),
{
}

impl ToolRouter {
    /// Classifies a model item as a tool call. Function calls whose name is
    /// an MCP tool become MCP calls; items that are not tool calls give
    /// `Ok(None)`. Nothing but the MCP lookup is consulted.
    pub fn build_tool_call(mcp: &McpToolIndex, item: ResponseItem) -> (r: Result<Option<ToolCall>, FunctionCallError>)
        ensures
            classified(mcp.tools@, item, r),
    {
        match item {
            ResponseItem::FunctionCall { name, arguments, call_id } => {
                match mcp.parse_mcp_tool_name(name.as_str()) {
                    Some((server, tool)) => Ok(Some(ToolCall {
                        tool_name: name,
                        call_id,
                        payload: ToolPayload::Mcp { server, tool, raw_arguments: arguments },
                    })),
                    None => Ok(Some(ToolCall { tool_name: name, call_id, payload: ToolPayload::Function { arguments } })),
                }
            },
            ResponseItem::CustomToolCall { name, input, call_id } => Ok(Some(ToolCall {
                tool_name: name,
                call_id,
                payload: ToolPayload::Custom { input },
            })),
            ResponseItem::LocalShellCall { id, call_id, action } => {
                let call_id = match call_id {
                    Some(c) => c,
                    None => match id {
                        Some(i) => i,
                        None => {
                            return Err(FunctionCallError::MissingLocalShellCallId);
                        },
                    },
                };
                match action {
                    LocalShellAction::Exec(exec) => {
                        let params = ShellToolCallParams {
                            command: exec.command,
                            workdir: exec.working_directory,
                            timeout_ms: exec.timeout_ms,
                            sandbox_permissions: Some(SandboxPermissions::UseDefault),
                            justification: None,
                        };
                        proof { reveal_strlit("local_shell"); }
                        Ok(Some(ToolCall {
                            tool_name: String::from_str("local_shell"),
                            call_id,
                            payload: ToolPayload::LocalShell { params },
                        }))
                    },
                }
            },
            _ => Ok(None),
        }
    }

    /// The item the model sees when a call fails without ending the turn:
    /// a custom output for a custom call, otherwise a function output marked
    /// unsuccessful, each carrying the error's text.
    pub fn failure_response(call_id: String, payload_outputs_custom: bool, err: FunctionCallError) -> (r: ResponseInputItem)
        ensures
            is_failure_response(r, call_id, payload_outputs_custom, err),
    {
        let message = err.message();
        if payload_outputs_custom {
            ResponseInputItem::CustomToolCallOutput { call_id, output: message }
        } else {
            ResponseInputItem::FunctionCallOutput {
                call_id,
                output: FunctionCallOutputPayload { content: message, content_items: None, success: Some(false) },
            }
        }
    }

    /// Sets a shell timeout as a hook asked: a number of milliseconds as it
    /// is, no timeout as zero.
    pub fn apply_timeout_behavior(target: &mut Option<u64>, behavior: TimeoutBehavior)
        ensures
            *final(target) == Some(timeout_value(behavior)),
    {
        match behavior {
            TimeoutBehavior::Millis(ms) => *target = Some(ms),
            TimeoutBehavior::Infinite => *target = Some(0),
        }
    }
}

/// The timeout in milliseconds that a behaviour stands for; zero means none.
pub open spec fn timeout_value(b: TimeoutBehavior) -> u64 {
    match b {
        TimeoutBehavior::Millis(ms) => ms,
        TimeoutBehavior::Infinite => 0,
    }
}

/// The arguments of a `shell_command` call with `timeout_ms` set to `ms`:
/// a JSON object gets the member set and is written back; anything else, or
/// an object that cannot be written, stays as it was.
pub open spec fn args_with_timeout(args: Seq<char>, ms: u64) -> Seq<char> {
    match parsed_json(args) {
        Some(Json::Object(members)) => match printed_json(Json::Object(
            crate::json::with_member_view(members, "timeout_ms"@, Json::Number(decimal(ms as nat))),
        )) {
            Some(t) => t,
            None => args,
        },
        _ => args,
    }
}

/// Whether `after` is `before` with the directive's timeout applied: on a
/// local shell call, its timeout; on a `shell_command` function call, its
/// arguments' `timeout_ms`. Any other call, or a directive without a
/// timeout, leaves the call as it was.
pub open spec fn directive_applied(before: ToolCall, d: ToolHookDirective, after: ToolCall) -> bool {
    &&& after.tool_name == before.tool_name
    &&& after.call_id == before.call_id
    &&& match behavior_of(d) {
        None => after.payload == before.payload,
        Some(b) => match before.payload {
            ToolPayload::LocalShell { params } => after.payload == ToolPayload::LocalShell {
                params: ShellToolCallParams { timeout_ms: Some(timeout_value(b)), ..params },
            },
            ToolPayload::Function { arguments } => if before.tool_name@ == "shell_command"@ {
                after.payload matches ToolPayload::Function { arguments: a }
                    && a@ == args_with_timeout(arguments@, timeout_value(b))
            } else {
                after.payload == before.payload
            },
            _ => after.payload == before.payload,
        },
    }
}

/// Sets `timeout_ms` in JSON arguments, as `args_with_timeout` says;
/// `None` when the arguments stay as they were.
fn set_args_timeout(arguments: &str, ms: u64) -> (r: Option<String>)
    ensures
        r matches Some(t) ==> t@ == args_with_timeout(arguments@, ms),
        r is None ==> args_with_timeout(arguments@, ms) == arguments@,
{
    match parse_json(arguments) {
        Some(JsonValue::Object(members)) => {
            let mut members = members;
            let ghost orig = members@;
            proof { lemma_object_view(JsonValue::Object(members)); }
            let key = String::from_str("timeout_ms");
            let value = JsonValue::from_u64(ms);
            let ghost gk = key;
            let ghost gv = value;
            set_member(&mut members, key, value);
            proof { lemma_with_member_view(orig, gk, gv); }
            let obj = JsonValue::Object(members);
            proof { lemma_object_view(obj); }
            print_json(&obj)
        },
        _ => None,
    }
}

/// The timeout in milliseconds that a behaviour stands for.
pub fn timeout_millis(b: TimeoutBehavior) -> (r: u64)
    ensures
        r == timeout_value(b),
{
    match b {
        TimeoutBehavior::Millis(ms) => ms,
        TimeoutBehavior::Infinite => 0,
    }
}

impl ToolRouter {
    /// Applies what a hook asked before the call runs, as
    /// `directive_applied` says.
    pub fn apply_tool_hook_directive(call: &mut ToolCall, directive: ToolHookDirective)
        ensures
            directive_applied(*old(call), directive, *final(call)),
    {
        let behavior = match directive.timeout_behavior() {
            Some(b) => b,
            None => return,
        };
        proof { reveal_strlit("shell_command"); }
        let is_shell_command = same_text(call.tool_name.as_str(), "shell_command");
        match &mut call.payload {
            ToolPayload::LocalShell { params } => {
                Self::apply_timeout_behavior(&mut params.timeout_ms, behavior);
            },
            ToolPayload::Function { arguments } => {
                if is_shell_command {
                    match set_args_timeout(arguments.as_str(), timeout_millis(behavior)) {
                        Some(t) => *arguments = t,
                        None => {},
                    }
                }
            },
            _ => {},
        }
    }
}

/// What the driver of a dispatch must do next.
pub enum DispatchAction {
    /// Send this event to the tool hook and report back what it printed.
    EmitBefore(ToolHookEvent),
    /// Run the handler on this call and report back its result.
    Invoke(ToolCall),
    /// Send this event to the tool hook, then report back.
    EmitAfter(ToolHookEvent),
    /// The dispatch is over with this result.
    Finish(Result<ResponseInputItem, FunctionCallError>),
}

/// Where a dispatch stands.
#[derive(Clone, Copy, Debug, PartialEq, Eq, Structural)]
pub enum DispatchStage {
    AwaitingDirective,
    AwaitingHandler,
    AwaitingAfterHook,
    Done,
}

enum DispatchState {
    AwaitingDirective { call: ToolCall },
    AwaitingHandler { call_id: String, custom: bool, after: Option<ToolCallSnapshot> },
    AwaitingAfterHook { result: Result<ResponseInputItem, FunctionCallError> },
    Done,
}

/// The dispatch of one tool call around its hook: the hook sees the call
/// before it runs and may change its timeout, the handler runs it, and the
/// hook hears how it ended.
pub struct ToolDispatch {
    state: DispatchState,
    hooked: bool,
}

/// The kind of an action: 0 before-event, 1 invoke, 2 after-event, 3 finish.
pub open spec fn action_kind(a: DispatchAction) -> nat {
    match a {
        DispatchAction::EmitBefore(_) => 0,
        DispatchAction::Invoke(_) => 1,
        DispatchAction::EmitAfter(_) => 2,
        DispatchAction::Finish(_) => 3,
    }
}

/// The kind of the first action of a dispatch.
pub open spec fn start_kind(hooked: bool) -> nat {
    if hooked { 0 } else { 1 }
}

/// The stage after the first action.
pub open spec fn start_stage(hooked: bool) -> DispatchStage {
    if hooked { DispatchStage::AwaitingDirective } else { DispatchStage::AwaitingHandler }
}

/// The kind of the action that leaves `stage`.
pub open spec fn step_kind(stage: DispatchStage, hooked: bool) -> nat {
    match stage {
        DispatchStage::AwaitingDirective => 1,
        DispatchStage::AwaitingHandler => if hooked { 2 } else { 3 },
        _ => 3,
    }
}

/// The stage that follows `stage`.
pub open spec fn step_stage(stage: DispatchStage, hooked: bool) -> DispatchStage {
    match stage {
        DispatchStage::AwaitingDirective => DispatchStage::AwaitingHandler,
        DispatchStage::AwaitingHandler => if hooked { DispatchStage::AwaitingAfterHook } else { DispatchStage::Done },
        _ => DispatchStage::Done,
    }
}

/// The kinds of the actions from `stage` until the dispatch is done, in at
/// most `fuel` steps.
pub open spec fn run_kinds(stage: DispatchStage, hooked: bool, fuel: nat) -> Seq<nat>
    decreases fuel,
{
    if stage == DispatchStage::Done || fuel == 0 {
        Seq::empty()
    } else {
        seq![step_kind(stage, hooked)] + run_kinds(step_stage(stage, hooked), hooked, (fuel - 1) as nat)
    }
}

/// The kinds of all actions of a dispatch.
pub open spec fn full_run(hooked: bool) -> Seq<nat> {
    seq![start_kind(hooked)] + run_kinds(start_stage(hooked), hooked, 3)
}

/// How many actions of a run are of kind `k`.
pub open spec fn count_kind(run: Seq<nat>, k: nat) -> nat
    decreases run.len(),
{
    if run.len() == 0 {
        0
    } else {
        count_kind(run.drop_first(), k) + if run[0] == k { 1nat } else { 0nat }
    }
}

/// A dispatch with a hook emits exactly one before-event and one
/// after-event; without a hook it emits none; either way it ends in one
/// finish, within four actions.
pub proof fn law_hook_events_per_call(hooked: bool)
    ensures
        full_run(hooked) == if hooked { seq![0nat, 1, 2, 3] } else { seq![1nat, 3] },
        count_kind(full_run(hooked), 0) == if hooked { 1nat } else { 0nat },
        count_kind(full_run(hooked), 2) <= 1,
        count_kind(full_run(hooked), 3) == 1,
        run_kinds(start_stage(hooked), hooked, 3) == run_kinds(start_stage(hooked), hooked, 4),
{
    reveal_with_fuel(run_kinds, 5);
    reveal_with_fuel(count_kind, 5);
    if hooked {
        assert(full_run(hooked) =~= seq![0nat, 1, 2, 3]);
        assert(full_run(hooked).drop_first() =~= seq![1nat, 2, 3]);
        assert(full_run(hooked).drop_first().drop_first() =~= seq![2nat, 3]);
        assert(full_run(hooked).drop_first().drop_first().drop_first() =~= seq![3nat]);
        assert(seq![3nat].drop_first() =~= Seq::<nat>::empty());
        assert(run_kinds(start_stage(hooked), hooked, 3) =~= run_kinds(start_stage(hooked), hooked, 4));
    } else {
        assert(full_run(hooked) =~= seq![1nat, 3]);
        assert(full_run(hooked).drop_first() =~= seq![3nat]);
        assert(seq![3nat].drop_first() =~= Seq::<nat>::empty());
        assert(run_kinds(start_stage(hooked), hooked, 3) =~= run_kinds(start_stage(hooked), hooked, 4));
    }
}

/// Whether `out` is what a dispatch returns for the handler's `result`:
/// a response as it is, a fatal error as it is, any other error as the
/// failure response for the call.
pub open spec fn settled(result: Result<ResponseInputItem, FunctionCallError>, call_id: String, custom: bool, out: Result<ResponseInputItem, FunctionCallError>) -> bool {
    match result {
        Ok(resp) => out == Ok::<ResponseInputItem, FunctionCallError>(resp),
        Err(FunctionCallError::Fatal(m)) => out == Err::<ResponseInputItem, FunctionCallError>(FunctionCallError::Fatal(m)),
        Err(e) => out matches Ok(item) && is_failure_response(item, call_id, custom, e),
    }
}

/// Whether `e` is the after-event for the handler's `result`: a fatal
/// error is reported with its bare message, any other error with its text.
pub open spec fn after_event_for(e: ToolHookEvent, call: ToolCallSnapshot, result: Result<ResponseInputItem, FunctionCallError>) -> bool {
    &&& e.phase == ToolHookPhase::AfterExecution
    &&& e.call == call
    &&& match result {
        Ok(resp) => e.outcome matches Some(ToolHookOutcome::Success { response })
            && response_input_json(response) == response_input_json(resp),
        Err(FunctionCallError::Fatal(m)) => e.outcome matches Some(ToolHookOutcome::Error { message })
            && message == m,
        Err(err) => e.outcome matches Some(ToolHookOutcome::Error { message }) && message@ == error_text(err),
    }
}

impl ToolDispatch {
    /// Where the dispatch stands.
    pub closed spec fn stage(&self) -> DispatchStage {
        match self.state {
            DispatchState::AwaitingDirective { .. } => DispatchStage::AwaitingDirective,
            DispatchState::AwaitingHandler { .. } => DispatchStage::AwaitingHandler,
            DispatchState::AwaitingAfterHook { .. } => DispatchStage::AwaitingAfterHook,
            DispatchState::Done => DispatchStage::Done,
        }
    }

    /// A snapshot waits for the after-event exactly when a hook sees the
    /// call.
    pub closed spec fn wf(&self) -> bool {
        match self.state {
            DispatchState::AwaitingDirective { .. } => self.hooked,
            DispatchState::AwaitingHandler { after, .. } => after is Some <==> self.hooked,
            DispatchState::AwaitingAfterHook { .. } => self.hooked,
            DispatchState::Done => true,
        }
    }

    /// Whether a hook sees this call.
    pub closed spec fn hooked(&self) -> bool {
        self.hooked
    }

    /// The call that waits for the hook's directive.
    pub closed spec fn waiting_call(&self) -> ToolCall {
        self.state->AwaitingDirective_call
    }

    /// The id of the call that runs, and whether it is a custom call.
    pub closed spec fn running(&self) -> (String, bool) {
        (self.state->AwaitingHandler_call_id, self.state->AwaitingHandler_custom)
    }

    /// The snapshot that the after-event will carry.
    pub closed spec fn after_snapshot(&self) -> ToolCallSnapshot {
        self.state->AwaitingHandler_after->Some_0
    }

    /// The result that the dispatch will finish with.
    pub closed spec fn outcome(&self) -> Result<ResponseInputItem, FunctionCallError> {
        self.state->AwaitingAfterHook_result
    }

    /// Where the dispatch stands.
    pub fn current_stage(&self) -> (r: DispatchStage)
        ensures
            r == self.stage(),
    {
        match &self.state {
            DispatchState::AwaitingDirective { .. } => DispatchStage::AwaitingDirective,
            DispatchState::AwaitingHandler { .. } => DispatchStage::AwaitingHandler,
            DispatchState::AwaitingAfterHook { .. } => DispatchStage::AwaitingAfterHook,
            DispatchState::Done => DispatchStage::Done,
        }
    }

    /// Starts the dispatch of `call`. With a hook, the first action sends
    /// the hook a snapshot of the call as it came; without one, the call
    /// runs at once.
    pub fn start(call: ToolCall, hooked: bool) -> (r: (ToolDispatch, DispatchAction))
        ensures
            r.0.wf(),
            r.0.hooked() == hooked,
            r.0.stage() == start_stage(hooked),
            action_kind(r.1) == start_kind(hooked),
            hooked ==> r.0.waiting_call() == call,
            hooked ==> (r.1 matches DispatchAction::EmitBefore(e)
                && e.phase == ToolHookPhase::BeforeExecution && e.outcome is None && snapshot_of(e.call, call)),
            !hooked ==> r.1 == DispatchAction::Invoke(call)
                && r.0.running() == (call.call_id, call.payload is Custom),
    {
        if hooked {
            let snapshot = ToolCallSnapshot::from_call(&call);
            (
                ToolDispatch { state: DispatchState::AwaitingDirective { call }, hooked },
                DispatchAction::EmitBefore(ToolHookEvent::before(snapshot)),
            )
        } else {
            let call_id = call.call_id.clone();
            let custom = matches!(call.payload, ToolPayload::Custom { .. });
            (
                ToolDispatch { state: DispatchState::AwaitingHandler { call_id, custom, after: None }, hooked },
                DispatchAction::Invoke(call),
            )
        }
    }

    /// The hook has answered the before-event with `directive`: the call,
    /// with the directive applied, runs next.
    pub fn directive_received(&mut self, directive: Option<ToolHookDirective>) -> (r: DispatchAction)
        requires
            old(self).stage() == DispatchStage::AwaitingDirective,
            old(self).wf(),
        ensures
            final(self).wf(),
            final(self).hooked() == old(self).hooked(),
            final(self).stage() == step_stage(old(self).stage(), old(self).hooked()),
            action_kind(r) == step_kind(old(self).stage(), old(self).hooked()),
            r matches DispatchAction::Invoke(c) && {
                &&& match directive {
                    Some(d) => directive_applied(old(self).waiting_call(), d, c),
                    None => c == old(self).waiting_call(),
                }
                &&& snapshot_of(final(self).after_snapshot(), c)
                &&& final(self).running() == (c.call_id, c.payload is Custom)
            },
    {
        let mut state = DispatchState::Done;
        std::mem::swap(&mut self.state, &mut state);
        match state {
            DispatchState::AwaitingDirective { call } => {
                let mut call = call;
                match directive {
                    Some(d) => ToolRouter::apply_tool_hook_directive(&mut call, d),
                    None => {},
                }
                let after = ToolCallSnapshot::from_call(&call);
                let call_id = call.call_id.clone();
                let custom = matches!(call.payload, ToolPayload::Custom { .. });
                self.state = DispatchState::AwaitingHandler { call_id, custom, after: Some(after) };
                DispatchAction::Invoke(call)
            },
            _ => DispatchAction::Finish(Err(FunctionCallError::Fatal(String::new()))),
        }
    }

    /// The handler has finished with `result`. With a hook, the hook hears
    /// of it next; without one, the dispatch finishes.
    pub fn handler_finished(&mut self, result: Result<ResponseInputItem, FunctionCallError>) -> (r: DispatchAction)
        requires
            old(self).stage() == DispatchStage::AwaitingHandler,
            old(self).wf(),
        ensures
            final(self).wf(),
            final(self).hooked() == old(self).hooked(),
            final(self).stage() == step_stage(old(self).stage(), old(self).hooked()),
            action_kind(r) == step_kind(old(self).stage(), old(self).hooked()),
            old(self).hooked() ==> (r matches DispatchAction::EmitAfter(e)
                && after_event_for(e, old(self).after_snapshot(), result)
                && settled(result, old(self).running().0, old(self).running().1, final(self).outcome())),
            !old(self).hooked() ==> (r matches DispatchAction::Finish(out)
                && settled(result, old(self).running().0, old(self).running().1, out)),
    {
        let mut state = DispatchState::Done;
        std::mem::swap(&mut self.state, &mut state);
        match state {
            DispatchState::AwaitingHandler { call_id, custom, after } => {
                let (event, out) = match result {
                    Ok(resp) => {
                        let event = match after {
                            Some(snap) => Some(ToolHookEvent::after_success(snap, resp.duplicate())),
                            None => None,
                        };
                        (event, Ok(resp))
                    },
                    Err(FunctionCallError::Fatal(m)) => {
                        let event = match after {
                            Some(snap) => Some(ToolHookEvent::after_error(snap, m.clone())),
                            None => None,
                        };
                        (event, Err(FunctionCallError::Fatal(m)))
                    },
                    Err(e) => {
                        let message = e.message();
                        let event = match after {
                            Some(snap) => Some(ToolHookEvent::after_error(snap, message)),
                            None => None,
                        };
                        (event, Ok(ToolRouter::failure_response(call_id, custom, e)))
                    },
                };
                match event {
                    Some(e) => {
                        self.state = DispatchState::AwaitingAfterHook { result: out };
                        DispatchAction::EmitAfter(e)
                    },
                    None => DispatchAction::Finish(out),
                }
            },
            _ => DispatchAction::Finish(Err(FunctionCallError::Fatal(String::new()))),
        }
    }

    /// The hook has been sent the after-event: the dispatch finishes.
    pub fn after_hook_done(&mut self) -> (r: DispatchAction)
        requires
            old(self).stage() == DispatchStage::AwaitingAfterHook,
            old(self).wf(),
        ensures
            final(self).wf(),
            final(self).hooked() == old(self).hooked(),
            final(self).stage() == step_stage(old(self).stage(), old(self).hooked()),
            action_kind(r) == step_kind(old(self).stage(), old(self).hooked()),
            r == DispatchAction::Finish(old(self).outcome()),
    {
        let mut state = DispatchState::Done;
        std::mem::swap(&mut self.state, &mut state);
        match state {
            DispatchState::AwaitingAfterHook { result } => DispatchAction::Finish(result),
            _ => DispatchAction::Finish(Err(FunctionCallError::Fatal(String::new()))),
        }
    }
}

} // verus!
