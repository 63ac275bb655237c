//! Tools defined in the configuration: a command run with the call's
//! arguments in its environment. A tool may ask the session to shut down
//! after it, leaving its output pending.
use vstd::prelude::*;
use crate::json::{parse_json, parsed_json, print_json, printed_json, json_error, json_error_text};
use crate::router::{FunctionCallError, ToolPayload};
use crate::text::{join_path, joined_path, same_text};
use crate::hooks::copy_strings;
use crate::json::JsonValue;

verus! {

/// A tool defined in the configuration.
pub struct ConfigCustomTool {
    pub name: String,
    pub command: Vec<String>,
    pub cwd: Option<String>,
    pub env: Vec<(String, String)>,
    pub timeout_ms: Option<u64>,
    pub with_escalated_permissions: Option<bool>,
    pub shutdown_after_call: bool,
}

/// What a handler produced for a call.
pub enum ToolOutput {
    Function { content: String, content_items: Option<JsonValue>, success: Option<bool> },
    Custom { output: String },
    /// A placeholder; the real result may arrive later, and the session may
    /// be asked to shut down now.
    Pending { content: String, content_items: Option<JsonValue>, success: Option<bool>, shutdown: bool },
}

/// The command a configured tool runs for one call.
pub struct ExecRequest {
    pub command: Vec<String>,
    pub cwd: String,
    pub timeout_ms: Option<u64>,
    pub env: Vec<(String, String)>,
    pub with_escalated_permissions: Option<bool>,
    pub justification: Option<String>,
}

/// The value of `k` in an environment: its first entry.
pub open spec fn env_get(env: Seq<(String, String)>, k: Seq<char>) -> Option<Seq<char>>
    decreases env.len(),
{
    if env.len() == 0 {
        None
    } else if env[0].0@ == k {
        Some(env[0].1@)
    } else {
        env_get(env.drop_first(), k)
    }
}

/// An environment with `k` set to `v`: its first entry of that name
/// replaced, or an entry added at the end.
pub open spec fn env_set(env: Seq<(String, String)>, k: Seq<char>, v: Seq<char>) -> Seq<(Seq<char>, Seq<char>)>
    decreases env.len(),
{
    if env.len() == 0 {
        seq![(k, v)]
    } else if env[0].0@ == k {
        seq![(k, v)] + env_view(env.drop_first())
    } else {
        seq![(env[0].0@, env[0].1@)] + env_set(env.drop_first(), k, v)
    }
}

/// The entries of an environment as text pairs.
pub open spec fn env_view(env: Seq<(String, String)>) -> Seq<(Seq<char>, Seq<char>)> {
    Seq::new(env.len(), |i: int| (env[i].0@, env[i].1@))
}

/// The text-pair form of `env_set`, on text pairs.
pub open spec fn pairs_set(env: Seq<(Seq<char>, Seq<char>)>, k: Seq<char>, v: Seq<char>) -> Seq<(Seq<char>, Seq<char>)>
    decreases env.len(),
{
    if env.len() == 0 {
        seq![(k, v)]
    } else if env[0].0 == k {
        env.update(0, (k, v))
    } else {
        seq![env[0]] + pairs_set(env.drop_first(), k, v)
    }
}

/// `base` with each entry of `extra` set in turn.
pub open spec fn extended(base: Seq<(Seq<char>, Seq<char>)>, extra: Seq<(Seq<char>, Seq<char>)>) -> Seq<(Seq<char>, Seq<char>)>
    decreases extra.len(),
{
    if extra.len() == 0 {
        base
    } else {
        pairs_set(extended(base, extra.drop_last()), extra.last().0, extra.last().1)
    }
}

/// Sets `k` to `v` in an environment, as `pairs_set` says.
pub fn set_env(env: &mut Vec<(String, String)>, k: &str, v: &str)
    ensures
        env_view(final(env)@) == pairs_set(env_view(old(env)@), k@, v@),
{
    let ghost orig = env@;
    let mut i: usize = 0;
    while i < env.len()
        invariant
            0 <= i <= env@.len(),
            env@ == orig,
            orig == old(env)@,
            forall|j: int| 0 <= j < i ==> env@[j].0@ != k@,
        decreases env@.len() - i,
    {
        if same_text(env[i].0.as_str(), k) {
            proof { lemma_pairs_set_at(env_view(orig), k@, v@, i as int); }
            env.set(i, (k.to_owned(), v.to_owned()));
            assert(env_view(env@) =~= env_view(orig).update(i as int, (k@, v@)));
            return;
        }
        i = i + 1;
    }
    proof { lemma_pairs_set_absent(env_view(orig), k@, v@); }
    env.push((k.to_owned(), v.to_owned()));
    assert(env_view(env@) =~= env_view(orig).push((k@, v@)));
}

proof fn lemma_pairs_set_at(env: Seq<(Seq<char>, Seq<char>)>, k: Seq<char>, v: Seq<char>, i: int)
    requires
        0 <= i < env.len(),
        env[i].0 == k,
        forall|j: int| 0 <= j < i ==> env[j].0 != k,
    ensures
        pairs_set(env, k, v) == env.update(i, (k, v)),
    decreases i,
{
    if i > 0 {
        let t = env.drop_first();
        assert forall|j: int| 0 <= j < i - 1 implies t[j].0 != k by {
            assert(t[j] == env[j + 1]);
        }
        lemma_pairs_set_at(t, k, v, i - 1);
        assert(seq![env[0]] + t.update(i - 1, (k, v)) =~= env.update(i, (k, v)));
    }
}

proof fn lemma_pairs_set_absent(env: Seq<(Seq<char>, Seq<char>)>, k: Seq<char>, v: Seq<char>)
    requires
        forall|j: int| 0 <= j < env.len() ==> env[j].0 != k,
    ensures
        pairs_set(env, k, v) == env.push((k, v)),
    decreases env.len(),
{
    if env.len() > 0 {
        let t = env.drop_first();
        assert forall|j: int| 0 <= j < t.len() implies t[j].0 != k by {
            assert(t[j] == env[j + 1]);
        }
        lemma_pairs_set_absent(t, k, v);
        assert(seq![env[0]] + t.push((k, v)) =~= env.push((k, v)));
    } else {
        assert(seq![(k, v)] =~= env.push((k, v)));
    }
}

/// The handler of the tools defined in the configuration.
pub struct CustomToolHandler {
    tools: Vec<ConfigCustomTool>,
}

/// The tool that a name stands for: the last one defined under it.
pub open spec fn tool_named(tools: Seq<ConfigCustomTool>, name: Seq<char>) -> Option<int>
    decreases tools.len(),
{
    if tools.len() == 0 {
        None
    } else if tools.last().name@ == name {
        Some(tools.len() - 1)
    } else {
        tool_named(tools.drop_last(), name)
    }
}

proof fn lemma_tool_named_range(tools: Seq<ConfigCustomTool>, name: Seq<char>)
    ensures
        tool_named(tools, name) matches Some(i) ==> 0 <= i < tools.len() && tools[i].name@ == name,
    decreases tools.len(),
{
    if tools.len() > 0 && tools.last().name@ != name {
        lemma_tool_named_range(tools.drop_last(), name);
    }
}

/// Whether a call is in order for a configured tool: function arguments
/// that are JSON serde_json can write back, for a tool that is configured.
pub open spec fn runnable(tools: Seq<ConfigCustomTool>, name: Seq<char>, payload: ToolPayload) -> bool {
    &&& tool_named(tools, name) is Some
    &&& match payload {
        ToolPayload::Function { arguments } => match parsed_json(arguments@) {
            Some(j) => printed_json(j) is Some,
            None => false,
        },
        _ => false,
    }
}

/// The message when arguments are not JSON.
pub open spec fn parse_error_text(name: Seq<char>, args: Seq<char>) -> Seq<char> {
    "failed to parse arguments for "@ + name + ": "@ + json_error_text(args)
}

/// The working directory of a run: the tool's own, resolved against the
/// turn's, or the turn's.
pub open spec fn run_cwd(tool_cwd: Option<String>, turn_cwd: Seq<char>) -> Seq<char> {
    match tool_cwd {
        Some(c) => joined_path(turn_cwd, c@),
        None => turn_cwd,
    }
}

/// The environment of a run: the base one, the tool's entries set over it,
/// then the call's facts.
pub open spec fn run_env(
    base: Seq<(String, String)>,
    tool_env: Seq<(String, String)>,
    args: Seq<char>,
    name: Seq<char>,
    call_id: Seq<char>,
    conversation_id: Seq<char>,
    turn_id: Seq<char>,
    turn_cwd: Seq<char>,
) -> Seq<(Seq<char>, Seq<char>)> {
    let e0 = extended(env_view(base), env_view(tool_env));
    let e1 = pairs_set(e0, "CODEX_TOOL_ARGS_JSON"@, args);
    let e2 = pairs_set(e1, "CODEX_TOOL_NAME"@, name);
    let e3 = pairs_set(e2, "CODEX_TOOL_CALL_ID"@, call_id);
    let e4 = pairs_set(e3, "CODEX_CONVERSATION_ID"@, conversation_id);
    let e5 = pairs_set(e4, "CODEX_TURN_ID"@, turn_id);
    pairs_set(e5, "CODEX_TURN_CWD"@, turn_cwd)
}

impl CustomToolHandler {
    /// A handler for `tools`; of two tools with one name, the later wins.
    pub fn new(tools: Vec<ConfigCustomTool>) -> (r: CustomToolHandler)
        ensures
            r.tools() == tools@,
    {
        CustomToolHandler { tools }
    }

    pub closed spec fn tools(&self) -> Seq<ConfigCustomTool> {
        self.tools@
    }

    /// The index of the tool that `name` stands for.
    fn find(&self, name: &str) -> (r: Option<usize>)
        ensures
            match r {
                Some(i) => tool_named(self.tools@, name@) == Some(i as int) && i < self.tools@.len(),
                None => tool_named(self.tools@, name@) is None,
            },
    {
        proof { lemma_tool_named_range(self.tools@, name@); }
        let mut i: usize = self.tools.len();
        assert(self.tools@.subrange(0, i as int) =~= self.tools@);
        while i > 0
            invariant
                0 <= i <= self.tools@.len(),
                tool_named(self.tools@, name@) == tool_named(self.tools@.subrange(0, i as int), name@),
            decreases i,
        {
            let ghost pre = self.tools@.subrange(0, i as int);
            if same_text(self.tools[i - 1].name.as_str(), name) {
                return Some(i - 1);
            }
            assert(pre.drop_last() =~= self.tools@.subrange(0, i - 1));
            i = i - 1;
        }
        None
    }

    /// Prepares the run of a configured tool for one call: the call must
    /// carry function arguments, name a configured tool, and its arguments
    /// must be JSON, which is passed on re-encoded. The environment is the
    /// base one with the tool's entries and the call's facts set over it.
    pub fn prepare(
        &self,
        tool_name: &str,
        call_id: &str,
        payload: &ToolPayload,
        base_env: Vec<(String, String)>,
        conversation_id: &str,
        turn_id: &str,
        turn_cwd: &str,
    ) -> (r: Result<ExecRequest, FunctionCallError>)
        ensures
            !(payload is Function) ==> (r matches Err(FunctionCallError::RespondToModel(m))
                && m@ == "tool "@ + tool_name@ + " expects function arguments"@),
            payload is Function && tool_named(self.tools(), tool_name@) is None ==> (r matches Err(
                FunctionCallError::RespondToModel(m),
            ) && m@ == "unsupported config-defined tool: "@ + tool_name@),
            (payload is Function && tool_named(self.tools(), tool_name@) is Some
                && parsed_json(payload->Function_arguments@) is None) ==> (r matches Err(FunctionCallError::RespondToModel(m))
                && m@ == parse_error_text(tool_name@, payload->Function_arguments@)),
            r matches Ok(req) ==> (payload matches ToolPayload::Function { arguments } && {
                let tool = self.tools()[tool_named(self.tools(), tool_name@)->Some_0];
                &&& tool_named(self.tools(), tool_name@) is Some
                &&& match parsed_json(arguments@) {
                    Some(j) => match printed_json(j) {
                        Some(t) => env_view(req.env@) == run_env(base_env@, tool.env@, t, tool.name@, call_id@,
                            conversation_id@, turn_id@, turn_cwd@),
                        None => false,
                    },
                    None => false,
                }
                &&& req.command@ == tool.command@
                    && req.cwd@ == run_cwd(tool.cwd, turn_cwd@)
                    && req.timeout_ms == tool.timeout_ms
                    && req.with_escalated_permissions == tool.with_escalated_permissions
                    && req.justification is None
            }),
            r matches Err(e) ==> e is RespondToModel,
            runnable(self.tools(), tool_name@, *payload) ==> r is Ok,
    {
        let arguments = match payload {
            ToolPayload::Function { arguments } => arguments,
            _ => {
                return Err(FunctionCallError::RespondToModel(
                    String::from_str("tool ").concat(tool_name).concat(" expects function arguments"),
                ));
            },
        };
        let tool = match self.find(tool_name) {
            Some(i) => &self.tools[i],
            None => {
                return Err(FunctionCallError::RespondToModel(
                    String::from_str("unsupported config-defined tool: ").concat(tool_name),
                ));
            },
        };
        let args_json = match parse_json(arguments.as_str()) {
            Some(v) => v,
            None => {
                let detail = json_error(arguments.as_str());
                return Err(FunctionCallError::RespondToModel(
                    String::from_str("failed to parse arguments for ").concat(tool_name).concat(": ").concat(
                        detail.as_str(),
                    ),
                ));
            },
        };
        let serialized = match print_json(&args_json) {
            Some(t) => t,
            None => {
                return Err(FunctionCallError::RespondToModel(
                    String::from_str("failed to serialize arguments for ").concat(tool_name),
                ));
            },
        };
        let mut env = base_env;
        let mut i: usize = 0;
        while i < tool.env.len()
            invariant
                0 <= i <= tool.env@.len(),
                env_view(env@) == extended(env_view(base_env@), env_view(tool.env@).subrange(0, i as int)),
            decreases tool.env@.len() - i,
        {
            set_env(&mut env, tool.env[i].0.as_str(), tool.env[i].1.as_str());
            assert(env_view(tool.env@).subrange(0, i + 1).drop_last() =~= env_view(tool.env@).subrange(0, i as int));
            i = i + 1;
        }
        assert(env_view(tool.env@).subrange(0, tool.env@.len() as int) =~= env_view(tool.env@));
        set_env(&mut env, "CODEX_TOOL_ARGS_JSON", serialized.as_str());
        set_env(&mut env, "CODEX_TOOL_NAME", tool.name.as_str());
        set_env(&mut env, "CODEX_TOOL_CALL_ID", call_id);
        set_env(&mut env, "CODEX_CONVERSATION_ID", conversation_id);
        set_env(&mut env, "CODEX_TURN_ID", turn_id);
        set_env(&mut env, "CODEX_TURN_CWD", turn_cwd);
        let cwd = match &tool.cwd {
            Some(c) => join_path(turn_cwd, c.as_str()),
            None => turn_cwd.to_owned(),
        };
        Ok(ExecRequest {
            command: copy_strings(&tool.command),
            cwd,
            timeout_ms: tool.timeout_ms,
            env,
            with_escalated_permissions: tool.with_escalated_permissions,
            justification: None,
        })
    }

    /// The output of a run as the call returns it: a tool that shuts the
    /// session down after it turns a function output into a pending one.
    pub fn finish(&self, tool_name: &str, output: ToolOutput) -> (r: ToolOutput)
        ensures
            match (tool_named(self.tools(), tool_name@), output) {
                (Some(i), ToolOutput::Function { content, content_items, success }) => if self.tools()[i].shutdown_after_call {
                    r == ToolOutput::Pending { content, content_items, success, shutdown: true }
                } else {
                    r == output
                },
                _ => r == output,
            },
    {
        let shutdown = match self.find(tool_name) {
            Some(i) => self.tools[i].shutdown_after_call,
            None => false,
        };
        if shutdown {
            match output {
                ToolOutput::Function { content, content_items, success } => ToolOutput::Pending {
                    content,
                    content_items,
                    success,
                    shutdown: true,
                },
                other => other,
            }
        } else {
            output
        }
    }
}

} // verus!
