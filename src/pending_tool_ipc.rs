//! The localhost endpoint through which a deliverer outside the process
//! hands in the real result of a pending tool call: the metadata file that
//! tells it where to connect, and the one request it sends.
use vstd::prelude::*;
use crate::json::{Json, JsonValue, member, member_view, lemma_member_view, lemma_object_view, members_view, take_member, lemma_member_without, parse_json, parsed_json,
    print_json, printed_json, push_member, object, decimal, number_as_u64};
use crate::protocol::{FunctionCallOutputPayload, decode_payload, payload_json, payload_shape_json, lemma_payload_shape};
use crate::text::{join_path, joined_path};

verus! {

/// Where the endpoint listens, as its metadata file records it.
pub struct PendingToolSocketMetadata {
    pub host: String,
    pub port: u16,
}

/// The metadata that a JSON object `{host, port}` denotes; other members
/// are ignored.
pub open spec fn decode_metadata(v: JsonValue) -> Option<PendingToolSocketMetadata> {
    match v {
        JsonValue::Object(ms) => match (member(ms@, "host"@), member(ms@, "port"@)) {
            (Some(JsonValue::Str(h)), Some(JsonValue::Number(n))) => match number_as_u64(n@) {
                Some(p) => if p <= u16::MAX { Some(PendingToolSocketMetadata { host: h, port: p as u16 }) } else { None },
                None => None,
            },
            _ => None,
        },
        _ => None,
    }
}

/// The JSON form of the metadata.
pub open spec fn metadata_json(m: PendingToolSocketMetadata) -> Json {
    Json::Object(seq![("host"@, Json::Str(m.host@)), ("port"@, Json::Number(decimal(m.port as nat)))])
}

/// Reads the metadata from the JSON of its file, as `decode_metadata` says.
pub fn load_metadata(contents: JsonValue) -> (r: Option<PendingToolSocketMetadata>)
    ensures
        r == decode_metadata(contents),
{
    proof {
        reveal_strlit("host");
        reveal_strlit("port");
    }
    match contents {
        JsonValue::Object(ms) => {
            let port = match member_number(&ms, "port") {
                Some(p) => p,
                None => return None,
            };
            if port > 65535 {
                return None;
            }
            let mut ms = ms;
            let host = take_member(&mut ms, "host");
            match host {
                Some(JsonValue::Str(h)) => Some(PendingToolSocketMetadata { host: h, port: port as u16 }),
                _ => None,
            }
        },
        _ => None,
    }
}

/// The member `key` of a member list read as a `u64`.
fn member_number(ms: &Vec<(String, JsonValue)>, key: &str) -> (r: Option<u64>)
    ensures
        r == match member(ms@, key@) {
            Some(JsonValue::Number(n)) => number_as_u64(n@),
            _ => None,
        },
{
    match crate::json::member_of(ms, key) {
        Some(v) => v.as_u64(),
        None => None,
    }
}

impl PendingToolSocketMetadata {
    /// The metadata as the JSON of its file.
    pub fn to_json(&self) -> (r: JsonValue)
        ensures
            r@ == metadata_json(*self),
    {
        let mut ms: Vec<(String, JsonValue)> = Vec::new();
        assert(members_view(ms@) =~= Seq::<(Seq<char>, Json)>::empty());
        push_member(&mut ms, "host", JsonValue::Str(self.host.clone()));
        push_member(&mut ms, "port", JsonValue::from_u64(self.port as u64));
        assert(members_view(ms@) =~= metadata_json(*self)->Object_0);
        object(ms)
    }
}

/// The path of the metadata file of a conversation:
/// `<codex_home>/live/<conversation_id>.json`.
pub fn metadata_path_for(codex_home: &str, conversation_id: &str) -> (r: String)
    ensures
        r@ == joined_path(joined_path(codex_home@, "live"@), conversation_id@ + ".json"@),
{
    let live = join_path(codex_home, "live");
    let file = conversation_id.to_owned().concat(".json");
    join_path(live.as_str(), file.as_str())
}

/// The one request a deliverer sends: the call and its real output.
pub struct DeliverPendingRequest {
    pub call_id: String,
    pub output: FunctionCallOutputPayload,
}

/// The request that a JSON object `{call_id, output}` denotes.
pub open spec fn decode_request(v: JsonValue) -> Option<DeliverPendingRequest> {
    match v {
        JsonValue::Object(ms) => match (member(ms@, "call_id"@), member(ms@, "output"@)) {
            (Some(JsonValue::Str(c)), Some(o)) => match decode_payload(o) {
                Some(p) => Some(DeliverPendingRequest { call_id: c, output: p }),
                None => None,
            },
            _ => None,
        },
        _ => None,
    }
}

/// Whether a JSON document reads as a request: `decode_request` on the
/// mathematical form.
pub open spec fn request_shape_json(j: Json) -> bool {
    match j {
        Json::Object(ms) => match (member_view(ms, "call_id"@), member_view(ms, "output"@)) {
            (Some(Json::Str(_)), Some(o)) => payload_shape_json(o),
            _ => false,
        },
        _ => false,
    }
}

/// Whether a request reads depends on the document alone.
pub proof fn lemma_request_shape(v: JsonValue)
    ensures
        decode_request(v) is Some <==> request_shape_json(v@),
{
    if let JsonValue::Object(ms) = v {
        lemma_object_view(v);
        lemma_member_view(ms@, "call_id"@);
        lemma_member_view(ms@, "output"@);
        if let Some(o) = member(ms@, "output"@) {
            lemma_payload_shape(o);
        }
    }
}

/// Whether a body is a request: JSON that reads as one.
pub open spec fn is_request_text(body: Seq<char>) -> bool {
    match parsed_json(body) {
        Some(j) => request_shape_json(j),
        None => false,
    }
}

/// The JSON form of a request.
pub open spec fn request_json(r: DeliverPendingRequest) -> Json {
    Json::Object(seq![("call_id"@, Json::Str(r.call_id@)), ("output"@, payload_json(r.output))])
}

impl DeliverPendingRequest {
    /// Reads a request from its JSON, as `decode_request` says.
    pub fn from_json(v: JsonValue) -> (r: Option<DeliverPendingRequest>)
        ensures
            r == decode_request(v),
    {
        proof {
            reveal_strlit("call_id");
            reveal_strlit("output");
            assert("call_id"@.len() != "output"@.len());
        }
        match v {
            JsonValue::Object(ms) => {
                let mut ms = ms;
                let ghost orig = ms@;
                let id = take_member(&mut ms, "call_id");
                let out = take_member(&mut ms, "output");
                proof { lemma_member_without(orig, "call_id"@, "output"@); }
                match (id, out) {
                    (Some(JsonValue::Str(c)), Some(o)) => match FunctionCallOutputPayload::from_json(o) {
                        Some(p) => Some(DeliverPendingRequest { call_id: c, output: p }),
                        None => None,
                    },
                    _ => None,
                }
            },
            _ => None,
        }
    }

    /// The request as JSON.
    pub fn to_json(self) -> (r: JsonValue)
        ensures
            r@ == request_json(self),
    {
        let ghost g = self;
        let mut ms: Vec<(String, JsonValue)> = Vec::new();
        assert(members_view(ms@) =~= Seq::<(Seq<char>, Json)>::empty());
        push_member(&mut ms, "call_id", JsonValue::Str(self.call_id));
        push_member(&mut ms, "output", self.output.to_json());
        assert(members_view(ms@) =~= request_json(g)->Object_0);
        object(ms)
    }
}

/// The body a deliverer sends for `call_id` and `output`; `None` when it
/// cannot be written.
pub fn request_body(call_id: String, output: FunctionCallOutputPayload) -> (r: Option<String>)
    ensures
        r matches Some(t) ==> printed_json(request_json(DeliverPendingRequest { call_id, output })) == Some(t@),
        r is None ==> printed_json(request_json(DeliverPendingRequest { call_id, output })) is None,
{
    let req = DeliverPendingRequest { call_id, output };
    print_json(&req.to_json())
}

/// What the endpoint does with a connection, given the body it read.
pub enum ConnectionAction {
    /// The body was empty: close without a word.
    Close,
    /// Hand the result to the conversation, then answer `ok`.
    Deliver(DeliverPendingRequest),
    /// The body is not a request.
    Reject,
}

/// Decides what to do with the body of a connection: an empty body closes
/// it, a request is delivered, anything else is refused.
pub fn connection_action(body: &str) -> (r: ConnectionAction)
    ensures
        r is Close <==> body@.len() == 0,
        r is Deliver <==> body@.len() > 0 && is_request_text(body@),
        r matches ConnectionAction::Deliver(req) ==> exists|v: JsonValue| #[trigger] parsed_json(body@) == Some(v@)
            && decode_request(v) == Some(req),
{
    if body.unicode_len() == 0 {
        return ConnectionAction::Close;
    }
    match parse_json(body) {
        Some(v) => {
            proof { lemma_request_shape(v); }
            match DeliverPendingRequest::from_json(v) {
                Some(req) => ConnectionAction::Deliver(req),
                None => ConnectionAction::Reject,
            }
        },
        None => ConnectionAction::Reject,
    }
}

} // verus!
