//! The items that the model emits and the session sends back, as this
//! library reads them, and the JSON form of a tool's output.
use vstd::prelude::*;
use crate::json::{Json, JsonValue, member_view, lemma_member_view, lemma_object_view, members_view, push_member, object, json_string, member, take_member, lemma_member_without};

verus! {

/// The output of a function tool call.
pub struct FunctionCallOutputPayload {
    pub content: String,
    pub content_items: Option<JsonValue>,
    pub success: Option<bool>,
}

/// What a local shell call asks to run.
pub struct LocalShellExecAction {
    pub command: Vec<String>,
    pub timeout_ms: Option<u64>,
    pub working_directory: Option<String>,
}

pub enum LocalShellAction {
    Exec(LocalShellExecAction),
}

/// An item of the model's response. Items that the tool core does not act
/// on keep their JSON form.
pub enum ResponseItem {
    FunctionCall { name: String, arguments: String, call_id: String },
    CustomToolCall { name: String, input: String, call_id: String },
    LocalShellCall { id: Option<String>, call_id: Option<String>, action: LocalShellAction },
    FunctionCallOutput { call_id: String, output: FunctionCallOutputPayload },
    CustomToolCallOutput { call_id: String, output: String },
    Other(JsonValue),
}

/// An item that the session sends back to the model for a tool call.
pub enum ResponseInputItem {
    FunctionCallOutput { call_id: String, output: FunctionCallOutputPayload },
    CustomToolCallOutput { call_id: String, output: String },
}

/// `content_items` as JSON gives it: absent or null is none, an array is
/// kept, anything else is refused.
pub open spec fn decode_items(m: Option<JsonValue>) -> Option<Option<JsonValue>> {
    match m {
        None => Some(None),
        Some(JsonValue::Null) => Some(None),
        Some(JsonValue::Array(a)) => Some(Some(JsonValue::Array(a))),
        _ => None,
    }
}

/// `success` as JSON gives it: absent or null is none, a boolean is kept,
/// anything else is refused.
pub open spec fn decode_success(m: Option<JsonValue>) -> Option<Option<bool>> {
    match m {
        None => Some(None),
        Some(JsonValue::Null) => Some(None),
        Some(JsonValue::Bool(b)) => Some(Some(b)),
        _ => None,
    }
}

/// The payload that a JSON object `{content, content_items?, success?}`
/// denotes.
pub open spec fn decode_payload(v: JsonValue) -> Option<FunctionCallOutputPayload> {
    match v {
        JsonValue::Object(ms) => match member(ms@, "content"@) {
            Some(JsonValue::Str(c)) => match (
                decode_items(member(ms@, "content_items"@)),
                decode_success(member(ms@, "success"@)),
            ) {
                (Some(items), Some(success)) => Some(
                    FunctionCallOutputPayload { content: c, content_items: items, success },
                ),
                _ => None,
            },
            _ => None,
        },
        _ => None,
    }
}

/// Whether a JSON document reads as a payload: `decode_payload` on the
/// mathematical form.
pub open spec fn payload_shape_json(j: Json) -> bool {
    match j {
        Json::Object(ms) => {
            &&& member_view(ms, "content"@) matches Some(Json::Str(_))
            &&& match member_view(ms, "content_items"@) {
                None => true,
                Some(Json::Null) => true,
                Some(Json::Array(_)) => true,
                _ => false,
            }
            &&& match member_view(ms, "success"@) {
                None => true,
                Some(Json::Null) => true,
                Some(Json::Bool(_)) => true,
                _ => false,
            }
        },
        _ => false,
    }
}

/// Whether a payload reads depends on the document alone.
pub proof fn lemma_payload_shape(v: JsonValue)
    ensures
        decode_payload(v) is Some <==> payload_shape_json(v@),
{
    if let JsonValue::Object(ms) = v {
        lemma_object_view(v);
        lemma_member_view(ms@, "content"@);
        lemma_member_view(ms@, "content_items"@);
        lemma_member_view(ms@, "success"@);
    }
}

fn items_from_json(m: Option<JsonValue>) -> (r: Option<Option<JsonValue>>)
    ensures
        r == decode_items(m),
{
    match m {
        None => Some(None),
        Some(JsonValue::Null) => Some(None),
        Some(JsonValue::Array(a)) => Some(Some(JsonValue::Array(a))),
        _ => None,
    }
}

fn success_from_json(m: Option<JsonValue>) -> (r: Option<Option<bool>>)
    ensures
        r == decode_success(m),
{
    match m {
        None => Some(None),
        Some(JsonValue::Null) => Some(None),
        Some(JsonValue::Bool(b)) => Some(Some(b)),
        _ => None,
    }
}

/// The JSON form of a payload; content items other than an array are
/// written as null.
pub open spec fn payload_json(p: FunctionCallOutputPayload) -> Json {
    Json::Object(seq![
        ("content"@, Json::Str(p.content@)),
        ("content_items"@, match p.content_items {
            Some(v) => if v@ is Array { v@ } else { Json::Null },
            None => Json::Null,
        }),
        ("success"@, match p.success {
            Some(b) => Json::Bool(b),
            None => Json::Null,
        }),
    ])
}

impl FunctionCallOutputPayload {
    /// Reads a payload from its JSON object, as `decode_payload` says.
    pub fn from_json(v: JsonValue) -> (r: Option<FunctionCallOutputPayload>)
        ensures
            r == decode_payload(v),
    {
        match v {
            JsonValue::Object(ms) => {
                let mut ms = ms;
                let ghost orig = ms@;
                proof {
                    reveal_strlit("content");
                    reveal_strlit("content_items");
                    reveal_strlit("success");
                    assert("content"@.len() != "content_items"@.len());
                    assert("content"@[0] != "success"@[0]);
                    assert("content_items"@.len() != "success"@.len());
                }
                let content = take_member(&mut ms, "content");
                let ghost after_content = ms@;
                let items = take_member(&mut ms, "content_items");
                let success = take_member(&mut ms, "success");
                proof {
                    lemma_member_without(orig, "content"@, "content_items"@);
                    lemma_member_without(orig, "content"@, "success"@);
                    lemma_member_without(after_content, "content_items"@, "success"@);
                }
                match content {
                    Some(JsonValue::Str(c)) => {
                        match (items_from_json(items), success_from_json(success)) {
                            (Some(content_items), Some(success)) => Some(
                                FunctionCallOutputPayload { content: c, content_items, success },
                            ),
                            _ => None,
                        }
                    },
                    _ => None,
                }
            },
            _ => None,
        }
    }

    /// The JSON object of a payload; it reads back as the same payload.
    pub fn to_json(self) -> (r: JsonValue)
        ensures
            r@ == payload_json(self),
            (self.content_items matches None || self.content_items matches Some(JsonValue::Array(_)))
                ==> decode_payload(r) == Some(self),
    {
        let items = match self.content_items {
            Some(JsonValue::Array(a)) => JsonValue::Array(a),
            _ => JsonValue::Null,
        };
        let success = match self.success {
            Some(b) => JsonValue::Bool(b),
            None => JsonValue::Null,
        };
        let ms = vec![
            (String::from_str("content"), JsonValue::Str(self.content)),
            (String::from_str("content_items"), items),
            (String::from_str("success"), success),
        ];
        proof {
            reveal_strlit("content");
            reveal_strlit("content_items");
            reveal_strlit("success");
            assert("content"@.len() != "content_items"@.len());
            assert("content"@[0] != "success"@[0]);
            assert("content_items"@.len() != "success"@.len());
            reveal_with_fuel(member, 4);
            assert(ms@.drop_first() =~= seq![ms@[1], ms@[2]]);
            assert(ms@.drop_first().drop_first() =~= seq![ms@[2]]);
        }
        let ghost g = ms@;
        let r = JsonValue::Object(ms);
        assert(forall|j: int| 0 <= j < 3 ==> r@->Object_0[j] == (g[j].0@, g[j].1@));
        assert(g[1].1@ == payload_json(self)->Object_0[1].1);
        assert(g[2].1@ == payload_json(self)->Object_0[2].1);
        assert(r@->Object_0 =~= payload_json(self)->Object_0);
        r
    }
}

impl FunctionCallOutputPayload {
    /// A copy of the payload.
    pub fn duplicate(&self) -> (r: FunctionCallOutputPayload)
        ensures
            payload_json(r) == payload_json(*self),
            r.content == self.content,
            r.success == self.success,
    {
        let r = FunctionCallOutputPayload {
            content: self.content.clone(),
            content_items: match &self.content_items {
                Some(v) => Some(v.duplicate()),
                None => None,
            },
            success: self.success,
        };
        assert(payload_json(r)->Object_0 =~= payload_json(*self)->Object_0);
        r
    }
}

/// The JSON form of an item sent back for a tool call.
pub open spec fn response_input_json(i: ResponseInputItem) -> Json {
    match i {
        ResponseInputItem::FunctionCallOutput { call_id, output } => Json::Object(seq![
            ("type"@, Json::Str("function_call_output"@)),
            ("call_id"@, Json::Str(call_id@)),
            ("output"@, payload_json(output)),
        ]),
        ResponseInputItem::CustomToolCallOutput { call_id, output } => Json::Object(seq![
            ("type"@, Json::Str("custom_tool_call_output"@)),
            ("call_id"@, Json::Str(call_id@)),
            ("output"@, Json::Str(output@)),
        ]),
    }
}

impl ResponseInputItem {
    /// A copy of the item.
    pub fn duplicate(&self) -> (r: ResponseInputItem)
        ensures
            response_input_json(r) == response_input_json(*self),
    {
        match self {
            ResponseInputItem::FunctionCallOutput { call_id, output } => ResponseInputItem::FunctionCallOutput {
                call_id: call_id.clone(),
                output: output.duplicate(),
            },
            ResponseInputItem::CustomToolCallOutput { call_id, output } => ResponseInputItem::CustomToolCallOutput {
                call_id: call_id.clone(),
                output: output.clone(),
            },
        }
    }

    /// The item as JSON.
    pub fn to_json(self) -> (r: JsonValue)
        ensures
            r@ == response_input_json(self),
    {
        let ghost g = self;
        let mut ms: Vec<(String, JsonValue)> = Vec::new();
        assert(members_view(ms@) =~= Seq::<(Seq<char>, Json)>::empty());
        match self {
            ResponseInputItem::FunctionCallOutput { call_id, output } => {
                push_member(&mut ms, "type", json_string("function_call_output"));
                push_member(&mut ms, "call_id", JsonValue::Str(call_id));
                push_member(&mut ms, "output", output.to_json());
            },
            ResponseInputItem::CustomToolCallOutput { call_id, output } => {
                push_member(&mut ms, "type", json_string("custom_tool_call_output"));
                push_member(&mut ms, "call_id", JsonValue::Str(call_id));
                push_member(&mut ms, "output", JsonValue::Str(output));
            },
        }
        assert(members_view(ms@) =~= response_input_json(g)->Object_0);
        object(ms)
    }
}

} // verus!
