//! Tool dispatch and pending results for an agent session.
//!
//! - `router`: model items become tool calls; a call is dispatched around
//!   its hook as a state machine whose driver performs each action.
//! - `hooks`: the directive a hook may print before a call, the snapshot of
//!   the call it sees, and the events it is sent.
//! - `pending_tools`: the rendezvous table for results that arrive later.
//! - `rollout`: the repair of the JSONL rollout log once the real result of
//!   the last tool call is known.
//! - `pending_tool_ipc`: the metadata file and the request of the loopback
//!   endpoint through which such a result is handed in.
//! - `custom_tool`: tools defined in the configuration.
//! - `config_override`, `prompt_sequence`: command-line overrides and
//!   scripted prompt sequences.
//! - `protocol`, `json`, `text`: the items exchanged with the model, the
//!   JSON tree, and helpers on strings and paths.
pub mod json;
pub mod text;
pub mod protocol;
pub mod pending_tools;
pub mod rollout;
pub mod router;
pub mod hooks;
pub mod config_override;
pub mod prompt_sequence;
pub mod pending_tool_ipc;
pub mod custom_tool;
