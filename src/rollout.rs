//! Repair of the rollout log after a restart: the most recent tool output in
//! the JSONL log gets the real result in place of its placeholder.
use vstd::prelude::*;
use crate::json::{Json, JsonValue, json_string, member, member_view, lemma_member_view, lemma_object_view, take_member, lemma_member_without, parse_json, print_json, parsed_json, printed_json};
use crate::protocol::{FunctionCallOutputPayload, decode_payload, payload_json, payload_shape_json, lemma_payload_shape};
use crate::text::{same_text, trim_text, trimmed, text_lines, lines_of, one_line, lemma_lines_of_line};

verus! {

/// Which kind of tool output was patched.
#[derive(Clone, Copy, Debug, PartialEq, Eq, Structural)]
pub enum ToolResultKind {
    Function,
    Custom,
}

/// The call whose output was patched.
#[derive(Debug)]
pub struct PatchedToolCall {
    pub call_id: String,
    pub kind: ToolResultKind,
}

impl PartialEq for PatchedToolCall {
    fn eq(&self, o: &PatchedToolCall) -> (r: bool)
        ensures
            r == (self.call_id@ == o.call_id@ && self.kind == o.kind),
    {
        self.call_id == o.call_id && self.kind == o.kind
    }
}

impl vstd::std_specs::cmp::PartialEqSpecImpl for PatchedToolCall {
    open spec fn obeys_eq_spec() -> bool {
        true
    }

    open spec fn eq_spec(&self, o: &PatchedToolCall) -> bool {
        self.call_id@ == o.call_id@ && self.kind == o.kind
    }
}

/// What a rollout line records. Tool outputs are read into their fields;
/// every other record keeps its type tag and JSON payload as read.
pub enum RolloutItem {
    FunctionCallOutput { call_id: String, output: FunctionCallOutputPayload },
    CustomToolCallOutput { call_id: String, output: String },
    Other { kind: String, payload: JsonValue },
}

/// One timestamped record of the log.
pub struct RolloutLine {
    pub timestamp: String,
    pub item: RolloutItem,
}

/// Why the log could not be repaired.
pub enum RolloutEditError {
    /// The log holds nothing but whitespace.
    Empty,
    /// A line is not a rollout record; it is kept for the message.
    BadLine { line: String },
    /// No line holds a tool output.
    NoToolOutput,
    /// A record could not be written back as JSON.
    Encode,
}

impl RolloutEditError {
    /// The error as a sentence.
    pub fn message(&self) -> (r: String)
        ensures
            r@ == match self {
                RolloutEditError::Empty => "rollout file is empty"@,
                RolloutEditError::BadLine { line } => "failed to parse rollout line as JSON; offending line: "@ + line@,
                RolloutEditError::NoToolOutput => "no tool call output found in rollout; nothing to replace"@,
                RolloutEditError::Encode => "failed to encode rollout line"@,
            },
    {
        match self {
            RolloutEditError::Empty => String::from_str("rollout file is empty"),
            RolloutEditError::BadLine { line } => String::from_str(
                "failed to parse rollout line as JSON; offending line: ",
            ).concat(line.as_str()),
            RolloutEditError::NoToolOutput => String::from_str(
                "no tool call output found in rollout; nothing to replace",
            ),
            RolloutEditError::Encode => String::from_str("failed to encode rollout line"),
        }
    }
}

/// The record that a line's type tag and payload denote: a tool output is
/// read into its fields, anything else is kept as it is. A tool output
/// whose call id or output is malformed denotes nothing.
pub open spec fn decode_item(kind: String, v: JsonValue) -> Option<RolloutItem> {
    let other = Some(RolloutItem::Other { kind, payload: v });
    if kind@ != "response_item"@ {
        other
    } else {
        match v {
            JsonValue::Object(ms) => match member(ms@, "type"@) {
                Some(JsonValue::Str(t)) => if t@ == "function_call_output"@ {
                    match (member(ms@, "call_id"@), member(ms@, "output"@)) {
                        (Some(JsonValue::Str(c)), Some(o)) => match decode_payload(o) {
                            Some(p) => Some(RolloutItem::FunctionCallOutput { call_id: c, output: p }),
                            None => None,
                        },
                        _ => None,
                    }
                } else if t@ == "custom_tool_call_output"@ {
                    match (member(ms@, "call_id"@), member(ms@, "output"@)) {
                        (Some(JsonValue::Str(c)), Some(JsonValue::Str(text))) => Some(
                            RolloutItem::CustomToolCallOutput { call_id: c, output: text },
                        ),
                        _ => None,
                    }
                } else {
                    other
                },
                _ => other,
            },
            _ => other,
        }
    }
}

/// The record that a line's JSON denotes: an object with a string
/// `timestamp`, a string `type` and a `payload` that `decode_item` reads.
pub open spec fn decode_line(v: JsonValue) -> Option<RolloutLine> {
    match v {
        JsonValue::Object(ms) => match (member(ms@, "timestamp"@), member(ms@, "type"@), member(ms@, "payload"@)) {
            (Some(JsonValue::Str(ts)), Some(JsonValue::Str(kind)), Some(p)) => match decode_item(kind, p) {
                Some(item) => Some(RolloutLine { timestamp: ts, item }),
                None => None,
            },
            _ => None,
        },
        _ => None,
    }
}

/// The JSON form of a record's payload.
pub open spec fn item_payload_json(i: RolloutItem) -> Json {
    match i {
        RolloutItem::FunctionCallOutput { call_id, output } => Json::Object(seq![
            ("type"@, Json::Str("function_call_output"@)),
            ("call_id"@, Json::Str(call_id@)),
            ("output"@, payload_json(output)),
        ]),
        RolloutItem::CustomToolCallOutput { call_id, output } => Json::Object(seq![
            ("type"@, Json::Str("custom_tool_call_output"@)),
            ("call_id"@, Json::Str(call_id@)),
            ("output"@, Json::Str(output@)),
        ]),
        RolloutItem::Other { kind, payload } => payload@,
    }
}

/// The type tag of a record.
pub open spec fn item_kind(i: RolloutItem) -> Seq<char> {
    match i {
        RolloutItem::Other { kind, payload } => kind@,
        _ => "response_item"@,
    }
}

/// The JSON form of a line.
pub open spec fn line_json(l: RolloutLine) -> Json {
    Json::Object(seq![
        ("timestamp"@, Json::Str(l.timestamp@)),
        ("type"@, Json::Str(item_kind(l.item))),
        ("payload"@, item_payload_json(l.item)),
    ])
}

/// Whether a line records a tool output.
pub open spec fn is_tool_output(l: RolloutLine) -> bool {
    l.item is FunctionCallOutput || l.item is CustomToolCallOutput
}

/// The index of the last line that records a tool output.
pub open spec fn last_tool_output(ls: Seq<RolloutLine>) -> Option<int>
    decreases ls.len(),
{
    if ls.len() == 0 {
        None
    } else if is_tool_output(ls.last()) {
        Some(ls.len() - 1)
    } else {
        last_tool_output(ls.drop_last())
    }
}

/// `after` is `before` with its tool output replaced by `text`: a function
/// output gets `text` as content and loses its content items, its success
/// flag kept; a custom output becomes `text`.
pub open spec fn patched_as(before: RolloutLine, after: RolloutLine, text: Seq<char>) -> bool {
    &&& after.timestamp == before.timestamp
    &&& match (before.item, after.item) {
        (
            RolloutItem::FunctionCallOutput { call_id: c0, output: o0 },
            RolloutItem::FunctionCallOutput { call_id: c1, output: o1 },
        ) => c1 == c0 && o1.content@ == text && o1.content_items is None && o1.success == o0.success,
        (
            RolloutItem::CustomToolCallOutput { call_id: c0, output: _ },
            RolloutItem::CustomToolCallOutput { call_id: c1, output: o1 },
        ) => c1 == c0 && o1@ == text,
        _ => false,
    }
}

/// What the patch of line `l` reports.
pub open spec fn patched_call(l: RolloutLine) -> (Seq<char>, ToolResultKind) {
    match l.item {
        RolloutItem::FunctionCallOutput { call_id, output } => (call_id@, ToolResultKind::Function),
        RolloutItem::CustomToolCallOutput { call_id, output } => (call_id@, ToolResultKind::Custom),
        _ => (Seq::empty(), ToolResultKind::Function),
    }
}

proof fn lemma_last_tool_output(ls: Seq<RolloutLine>)
    ensures
        last_tool_output(ls) matches Some(k) ==> 0 <= k < ls.len() && is_tool_output(ls[k])
            && forall|j: int| k < j < ls.len() ==> !is_tool_output(#[trigger] ls[j]),
        last_tool_output(ls) is None ==> forall|j: int| 0 <= j < ls.len() ==> !is_tool_output(#[trigger] ls[j]),
    decreases ls.len(),
{
    if ls.len() > 0 && !is_tool_output(ls.last()) {
        let t = ls.drop_last();
        lemma_last_tool_output(t);
        assert forall|j: int| 0 <= j < ls.len() - 1 implies ls[j] == #[trigger] t[j] by {}
        if last_tool_output(ls) is None {
            assert forall|j: int| 0 <= j < ls.len() implies !is_tool_output(#[trigger] ls[j]) by {
                if j < ls.len() - 1 {
                    assert(ls[j] == t[j]);
                }
            }
        } else {
            let k = last_tool_output(ls)->Some_0;
            assert(ls[k] == t[k]);
            assert forall|j: int| k < j < ls.len() implies !is_tool_output(#[trigger] ls[j]) by {
                if j < ls.len() - 1 {
                    assert(ls[j] == t[j]);
                }
            }
        }
    }
}

proof fn lemma_last_tool_output_at(ls: Seq<RolloutLine>, k: int)
    requires
        0 <= k < ls.len(),
        is_tool_output(ls[k]),
        forall|j: int| k < j < ls.len() ==> !is_tool_output(#[trigger] ls[j]),
    ensures
        last_tool_output(ls) == Some(k),
    decreases ls.len(),
{
    if k < ls.len() - 1 {
        assert(!is_tool_output(ls[ls.len() - 1]));
        assert forall|j: int| k < j < ls.len() - 1 implies !is_tool_output(#[trigger] ls.drop_last()[j]) by {
            assert(ls.drop_last()[j] == ls[j]);
        }
        lemma_last_tool_output_at(ls.drop_last(), k);
    }
}

/// Replaces the last tool output among `lines` with `new_output`. Every
/// other line stays as it was; `None` when no line holds a tool output.
pub fn patch_last_tool_output(lines: &mut Vec<RolloutLine>, new_output: &str) -> (r: Option<PatchedToolCall>)
    ensures
        final(lines)@.len() == old(lines)@.len(),
        match last_tool_output(old(lines)@) {
            None => r is None && final(lines)@ == old(lines)@,
            Some(k) => {
                &&& r matches Some(p) && (p.call_id@, p.kind) == patched_call(old(lines)@[k])
                &&& patched_as(old(lines)@[k], final(lines)@[k], new_output@)
                &&& forall|j: int| 0 <= j < old(lines)@.len() && j != k ==> #[trigger] final(lines)@[j] == old(lines)@[j]
            },
        },
{
    let ghost orig = lines@;
    let mut i: usize = lines.len();
    while i > 0
        invariant
            0 <= i <= lines@.len(),
            lines@ == orig,
            orig == old(lines)@,
            forall|j: int| i <= j < orig.len() ==> !is_tool_output(#[trigger] orig[j]),
        decreases i,
    {
        let is_out = match &lines[i - 1].item {
            RolloutItem::FunctionCallOutput { .. } => true,
            RolloutItem::CustomToolCallOutput { .. } => true,
            RolloutItem::Other { .. } => false,
        };
        if is_out {
            let k = i - 1;
            proof { lemma_last_tool_output_at(orig, k as int); }
            let line = lines.remove(k);
            let RolloutLine { timestamp, item } = line;
            let (item, patched) = match item {
                RolloutItem::FunctionCallOutput { call_id, output } => {
                    let id = call_id.clone();
                    let output = FunctionCallOutputPayload {
                        content: new_output.to_owned(),
                        content_items: None,
                        success: output.success,
                    };
                    (
                        RolloutItem::FunctionCallOutput { call_id, output },
                        PatchedToolCall { call_id: id, kind: ToolResultKind::Function },
                    )
                },
                RolloutItem::CustomToolCallOutput { call_id, output: _ } => {
                    let id = call_id.clone();
                    (
                        RolloutItem::CustomToolCallOutput { call_id, output: new_output.to_owned() },
                        PatchedToolCall { call_id: id, kind: ToolResultKind::Custom },
                    )
                },
                RolloutItem::Other { kind, payload } => {
                    (RolloutItem::Other { kind, payload }, PatchedToolCall { call_id: String::new(), kind: ToolResultKind::Function })
                },
            };
            lines.insert(k, RolloutLine { timestamp, item });
            proof {
                assert forall|j: int| 0 <= j < orig.len() && j != k implies #[trigger] lines@[j] == orig[j] by {
                    if j < k {
                        assert(lines@[j] == orig.remove(k as int)[j]);
                    } else {
                        assert(lines@[j] == orig.remove(k as int)[j - 1]);
                    }
                }
            }
            return Some(patched);
        }
        i = i - 1;
    }
    proof { lemma_last_tool_output(orig); }
    assert(last_tool_output(orig) is None) by {
        lemma_last_tool_output(orig);
        if last_tool_output(orig) is Some {
            let k = last_tool_output(orig)->Some_0;
            assert(!is_tool_output(orig[k]));
        }
    }
    None
}

/// Reads a record from its type tag and payload, as `decode_item` says.
pub fn item_from_json(kind: String, v: JsonValue) -> (r: Option<RolloutItem>)
    ensures
        r == decode_item(kind, v),
{
    proof {
        reveal_strlit("type");
        reveal_strlit("call_id");
        reveal_strlit("output");
        assert("type"@.len() != "call_id"@.len() && "type"@.len() != "output"@.len());
        assert("call_id"@.len() != "output"@.len());
    }
    if !same_text(kind.as_str(), "response_item") {
        return Some(RolloutItem::Other { kind, payload: v });
    }
    let shape = match v.get("type") {
        Some(JsonValue::Str(t)) => {
            if same_text(t.as_str(), "function_call_output") {
                1u8
            } else if same_text(t.as_str(), "custom_tool_call_output") {
                2u8
            } else {
                0u8
            }
        },
        _ => 0u8,
    };
    if shape == 0 {
        return Some(RolloutItem::Other { kind, payload: v });
    }
    match v {
        JsonValue::Object(ms) => {
            let mut ms = ms;
            let ghost orig = ms@;
            let id = take_member(&mut ms, "call_id");
            let out = take_member(&mut ms, "output");
            proof { lemma_member_without(orig, "call_id"@, "output"@); }
            match (id, out) {
                (Some(JsonValue::Str(c)), Some(o)) => {
                    if shape == 1 {
                        match FunctionCallOutputPayload::from_json(o) {
                            Some(p) => Some(RolloutItem::FunctionCallOutput { call_id: c, output: p }),
                            None => None,
                        }
                    } else {
                        match o {
                            JsonValue::Str(text) => Some(RolloutItem::CustomToolCallOutput { call_id: c, output: text }),
                            _ => None,
                        }
                    }
                },
                _ => None,
            }
        },
        _ => None,
    }
}

/// Reads a line from its JSON, as `decode_line` says.
pub fn line_from_json(v: JsonValue) -> (r: Option<RolloutLine>)
    ensures
        r == decode_line(v),
{
    proof {
        reveal_strlit("timestamp");
        reveal_strlit("type");
        reveal_strlit("payload");
        assert("timestamp"@.len() != "type"@.len() && "timestamp"@.len() != "payload"@.len());
        assert("type"@.len() != "payload"@.len());
    }
    match v {
        JsonValue::Object(ms) => {
            let mut ms = ms;
            let ghost orig = ms@;
            let ts = take_member(&mut ms, "timestamp");
            let ghost after_ts = ms@;
            let kind = take_member(&mut ms, "type");
            let payload = take_member(&mut ms, "payload");
            proof {
                lemma_member_without(orig, "timestamp"@, "type"@);
                lemma_member_without(orig, "timestamp"@, "payload"@);
                lemma_member_without(after_ts, "type"@, "payload"@);
            }
            match (ts, kind, payload) {
                (Some(JsonValue::Str(ts)), Some(JsonValue::Str(kind)), Some(p)) => match item_from_json(kind, p) {
                    Some(item) => Some(RolloutLine { timestamp: ts, item }),
                    None => None,
                },
                _ => None,
            }
        },
        _ => None,
    }
}

/// A JSON object from three members.
fn object3(k0: &str, v0: JsonValue, k1: &str, v1: JsonValue, k2: &str, v2: JsonValue) -> (r: JsonValue)
    ensures
        r@ == Json::Object(seq![(k0@, v0@), (k1@, v1@), (k2@, v2@)]),
{
    let ms = vec![(k0.to_owned(), v0), (k1.to_owned(), v1), (k2.to_owned(), v2)];
    let ghost g = ms@;
    let r = JsonValue::Object(ms);
    assert(forall|j: int| 0 <= j < 3 ==> r@->Object_0[j] == (g[j].0@, g[j].1@));
    assert(r@->Object_0 =~= seq![(k0@, v0@), (k1@, v1@), (k2@, v2@)]);
    r
}

/// Writes a line as JSON, as `line_json` says.
pub fn line_to_json(l: RolloutLine) -> (r: JsonValue)
    ensures
        r@ == line_json(l),
{
    let RolloutLine { timestamp, item } = l;
    let (kind, payload) = match item {
        RolloutItem::FunctionCallOutput { call_id, output } => {
            let p = object3(
                "type", json_string("function_call_output"),
                "call_id", JsonValue::Str(call_id),
                "output", output.to_json(),
            );
            (json_string("response_item"), p)
        },
        RolloutItem::CustomToolCallOutput { call_id, output } => {
            let p = object3(
                "type", json_string("custom_tool_call_output"),
                "call_id", JsonValue::Str(call_id),
                "output", JsonValue::Str(output),
            );
            (json_string("response_item"), p)
        },
        RolloutItem::Other { kind, payload } => (JsonValue::Str(kind), payload),
    };
    object3("timestamp", JsonValue::Str(timestamp), "type", kind, "payload", payload)
}

/// The lines of a text that hold more than whitespace, in order.
pub open spec fn nonblank(ls: Seq<Seq<char>>) -> Seq<Seq<char>>
    decreases ls.len(),
{
    if ls.len() == 0 {
        Seq::empty()
    } else if trimmed(ls.last()).len() > 0 {
        nonblank(ls.drop_last()).push(ls.last())
    } else {
        nonblank(ls.drop_last())
    }
}

/// Whether `line` is a JSON text that reads as the rollout line `l`.
pub open spec fn reads_as(line: Seq<char>, l: RolloutLine) -> bool {
    exists|v: JsonValue| parsed_json(line) == Some(v@) && decode_line(v) == Some(l)
}

/// Whether `ls` is what the non-blank lines of a log text read as, line for
/// line.
pub open spec fn log_reads_as(text: Seq<char>, ls: Seq<RolloutLine>) -> bool {
    let src = nonblank(lines_of(text));
    &&& ls.len() == src.len()
    &&& forall|i: int| 0 <= i < src.len() ==> reads_as(src[i], #[trigger] ls[i])
}

/// Whether a JSON document has the shape of a rollout line: an object with
/// a string `timestamp`, a string `type` and a `payload`.
pub open spec fn line_shape(j: Json) -> bool {
    match j {
        Json::Object(ms) => match (member_view(ms, "timestamp"@), member_view(ms, "type"@), member_view(ms, "payload"@)) {
            (Some(Json::Str(_)), Some(Json::Str(kind)), Some(p)) => item_shape(kind, p),
            _ => false,
        },
        _ => false,
    }
}

/// Whether a record's payload reads, on the mathematical form: anything but
/// a tool output reads as it is; a tool output needs a string call id, and
/// an output that is a payload (function) or a string (custom).
pub open spec fn item_shape(kind: Seq<char>, j: Json) -> bool {
    kind != "response_item"@ || match j {
        Json::Object(ms) => match member_view(ms, "type"@) {
            Some(Json::Str(t)) => if t == "function_call_output"@ {
                match (member_view(ms, "call_id"@), member_view(ms, "output"@)) {
                    (Some(Json::Str(_)), Some(o)) => payload_shape_json(o),
                    _ => false,
                }
            } else if t == "custom_tool_call_output"@ {
                match (member_view(ms, "call_id"@), member_view(ms, "output"@)) {
                    (Some(Json::Str(_)), Some(Json::Str(_))) => true,
                    _ => false,
                }
            } else {
                true
            },
            _ => true,
        },
        _ => true,
    }
}

/// A record reads exactly when its payload has the shape of one.
pub proof fn lemma_decode_item_shape(kind: String, v: JsonValue)
    ensures
        decode_item(kind, v) is Some <==> item_shape(kind@, v@),
{
    if let JsonValue::Object(ms) = v {
        lemma_object_view(v);
        lemma_member_view(ms@, "type"@);
        lemma_member_view(ms@, "call_id"@);
        lemma_member_view(ms@, "output"@);
        if let Some(o) = member(ms@, "output"@) {
            lemma_payload_shape(o);
        }
    }
}

/// Whether `line` is JSON with the shape of a rollout line, its tool output,
/// if it records one, well formed.
pub open spec fn readable(line: Seq<char>) -> bool {
    parsed_json(line) matches Some(j) && line_shape(j)
}

/// A line reads exactly when its JSON has the shape of a line.
pub proof fn lemma_decode_line_shape(v: JsonValue)
    ensures
        decode_line(v) is Some <==> line_shape(v@),
{
    if let JsonValue::Object(ms) = v {
        lemma_object_view(v);
        lemma_member_view(ms@, "timestamp"@);
        lemma_member_view(ms@, "type"@);
        lemma_member_view(ms@, "payload"@);
        if let (Some(JsonValue::Str(kind)), Some(p)) = (member(ms@, "type"@), member(ms@, "payload"@)) {
            lemma_decode_item_shape(kind, p);
        }
    }
}

/// The text of the log: each line's JSON followed by a line feed; `None`
/// if a line cannot be written.
pub open spec fn render(ls: Seq<RolloutLine>) -> Option<Seq<char>>
    decreases ls.len(),
{
    if ls.len() == 0 {
        Some(Seq::empty())
    } else {
        match (render(ls.drop_last()), printed_json(line_json(ls.last()))) {
            (Some(a), Some(t)) => Some(a + t + seq!['\n']),
            _ => None,
        }
    }
}

/// The non-blank lines of a prefix come first among those of the whole.
proof fn lemma_nonblank_prefix(ls: Seq<Seq<char>>, i: int)
    requires
        0 <= i <= ls.len(),
    ensures
        nonblank(ls.subrange(0, i)).len() <= nonblank(ls).len(),
        forall|j: int| 0 <= j < nonblank(ls.subrange(0, i)).len()
            ==> #[trigger] nonblank(ls.subrange(0, i))[j] == nonblank(ls)[j],
    decreases ls.len() - i,
{
    if i < ls.len() {
        lemma_nonblank_prefix(ls, i + 1);
        lemma_nonblank_step(ls, i);
        let a = nonblank(ls.subrange(0, i));
        let b = nonblank(ls.subrange(0, i + 1));
        assert forall|j: int| 0 <= j < a.len() implies #[trigger] a[j] == nonblank(ls)[j] by {
            assert(a[j] == b[j]);
        }
    } else {
        assert(ls.subrange(0, i) =~= ls);
    }
}

proof fn lemma_nonblank_step(ls: Seq<Seq<char>>, i: int)
    requires
        0 <= i < ls.len(),
    ensures
        nonblank(ls.subrange(0, i + 1)) == if trimmed(ls[i]).len() > 0 {
            nonblank(ls.subrange(0, i)).push(ls[i])
        } else {
            nonblank(ls.subrange(0, i))
        },
{
    assert(ls.subrange(0, i + 1).drop_last() =~= ls.subrange(0, i));
}

/// Reads every line of a log text that holds more than whitespace. The text
/// must hold more than whitespace; the first line that does not read as a
/// rollout line is reported.
pub fn read_rollout(contents: &str) -> (r: Result<Vec<RolloutLine>, RolloutEditError>)
    ensures
        r matches Err(RolloutEditError::Empty) <==> trimmed(contents@).len() == 0,
        r matches Ok(ls) ==> log_reads_as(contents@, ls@),
        r matches Err(RolloutEditError::BadLine { line }) ==> {
            let src = nonblank(lines_of(contents@));
            exists|k: int| 0 <= k < src.len() && #[trigger] src[k] == line@ && !readable(src[k])
                && forall|i: int| 0 <= i < k ==> readable(#[trigger] src[i])
        },
        r matches Err(e) ==> e is Empty || e is BadLine,
{
    let t = trim_text(contents);
    if t.unicode_len() == 0 {
        return Err(RolloutEditError::Empty);
    }
    let raw = text_lines(contents);
    let ghost all = lines_of(contents@);
    let mut out: Vec<RolloutLine> = Vec::new();
    let mut i: usize = 0;
    while i < raw.len()
        invariant
            0 <= i <= raw@.len(),
            all == lines_of(contents@),
            trimmed(contents@).len() > 0,
            raw@.len() == all.len(),
            forall|j: int| 0 <= j < raw@.len() ==> #[trigger] raw@[j]@ == all[j],
            out@.len() == nonblank(all.subrange(0, i as int)).len(),
            forall|j: int| 0 <= j < out@.len() ==> reads_as(nonblank(all.subrange(0, i as int))[j], #[trigger] out@[j]),
        decreases raw@.len() - i,
    {
        let line: &str = raw[i];
        proof { lemma_nonblank_step(all, i as int); }
        let ghost before = nonblank(all.subrange(0, i as int));
        if trim_text(line).unicode_len() > 0 {
            let parsed = parse_json(line);
            let ghost gv = if parsed is Some { parsed->Some_0 } else { JsonValue::Null };
            let decoded = match parsed {
                Some(v) => {
                    let d = line_from_json(v);
                    proof {
                        if d is Some {
                            assert(reads_as(line@, d->Some_0));
                        }
                    }
                    d
                },
                None => None,
            };
            match decoded {
                Some(l) => {
                    out.push(l);
                    proof {
                        let now = nonblank(all.subrange(0, i + 1));
                        assert(now == before.push(line@));
                        assert forall|j: int| 0 <= j < out@.len() implies reads_as(now[j], #[trigger] out@[j]) by {
                            if j < out@.len() - 1 {
                                assert(now[j] == before[j]);
                            }
                        }
                    }
                },
                None => {
                    proof {
                        let src = nonblank(all);
                        lemma_nonblank_prefix(all, i as int + 1);
                        let now = nonblank(all.subrange(0, i + 1));
                        assert(now == before.push(line@));
                        let k = before.len() as int;
                        assert(now[k] == line@);
                        assert(src[k] == line@);
                        assert(!readable(line@)) by {
                            if parsed is Some {
                                lemma_decode_line_shape(gv);
                            }
                        }
                        assert forall|j: int| 0 <= j < k implies readable(#[trigger] src[j]) by {
                            assert(now[j] == before[j]);
                            assert(src[j] == now[j]);
                            assert(reads_as(before[j], out@[j]));
                            let v = choose|v: JsonValue| parsed_json(before[j]) == Some(v@) && decode_line(v) == Some(out@[j]);
                            lemma_decode_line_shape(v);
                        }
                    }
                    return Err(RolloutEditError::BadLine { line: line.to_owned() });
                },
            }
        }
        i = i + 1;
    }
    proof {
        assert(all.subrange(0, raw@.len() as int) =~= all);
    }
    Ok(out)
}

proof fn lemma_render_prefix(ls: Seq<RolloutLine>, m: int)
    requires
        0 <= m < ls.len(),
    ensures
        render(ls.subrange(0, m + 1)) == match (render(ls.subrange(0, m)), printed_json(line_json(ls[m]))) {
            (Some(a), Some(t)) => Some(a + t + seq!['\n']),
            _ => None,
        },
{
    assert(ls.subrange(0, m + 1).drop_last() =~= ls.subrange(0, m));
}

/// A log renders when, and only when, every line does.
proof fn lemma_render_none(ls: Seq<RolloutLine>, k: int)
    requires
        0 <= k < ls.len(),
        printed_json(line_json(ls[k])) is None,
    ensures
        render(ls) is None,
    decreases ls.len(),
{
    if k < ls.len() - 1 {
        assert(ls.drop_last()[k] == ls[k]);
        lemma_render_none(ls.drop_last(), k);
    }
}

/// Whether every line of a log is written as one line of text.
pub open spec fn prints_one_line_each(ls: Seq<RolloutLine>) -> bool {
    forall|i: int| 0 <= i < ls.len() ==> (printed_json(line_json(#[trigger] ls[i])) matches Some(t) && one_line(t))
}

/// The texts of the lines of a log, one for each.
pub open spec fn printed_lines(ls: Seq<RolloutLine>) -> Seq<Seq<char>> {
    Seq::new(ls.len(), |i: int| printed_json(line_json(ls[i]))->Some_0)
}

/// The text of a log splits back into one line for each of its records.
pub proof fn lemma_render_lines(ls: Seq<RolloutLine>, rest: Seq<char>)
    requires
        prints_one_line_each(ls),
        render(ls) is Some,
    ensures
        lines_of(render(ls)->Some_0 + rest) == printed_lines(ls) + lines_of(rest),
    decreases ls.len(),
{
    if ls.len() == 0 {
        assert(render(ls)->Some_0 + rest =~= rest);
        assert(printed_lines(ls) + lines_of(rest) =~= lines_of(rest));
    } else {
        let init = ls.drop_last();
        let t = printed_json(line_json(ls.last()))->Some_0;
        assert(prints_one_line_each(init)) by {
            assert forall|i: int| 0 <= i < init.len() implies (printed_json(line_json(#[trigger] init[i])) matches Some(u)
                && one_line(u)) by {
                assert(init[i] == ls[i]);
            }
        }
        assert(ls[ls.len() - 1] == ls.last());
        let a = render(init)->Some_0;
        lemma_render_lines(init, t + seq!['\n'] + rest);
        lemma_lines_of_line(t, rest);
        assert(render(ls)->Some_0 + rest =~= a + (t + seq!['\n'] + rest));
        assert(printed_lines(init) + (seq![t] + lines_of(rest)) =~= printed_lines(ls) + lines_of(rest));
    }
}

/// Writes the lines of a log, each as one line of JSON; the text splits
/// back into exactly those lines.
pub fn render_rollout(lines: Vec<RolloutLine>) -> (r: Option<String>)
    ensures
        r matches Some(t) ==> render(lines@) == Some(t@),
        r is None ==> render(lines@) is None,
        r matches Some(t) ==> lines_of(t@) == printed_lines(lines@),
{
    let ghost orig = lines@;
    let n = lines.len();
    let mut rest = lines;
    let mut texts: Vec<String> = Vec::new();
    while rest.len() > 0
        invariant
            rest@.len() + texts@.len() == n,
            n == orig.len(),
            rest@ == orig.subrange(0, rest@.len() as int),
            orig == lines@,
            forall|j: int| 0 <= j < texts@.len()
                ==> printed_json(line_json(orig[n - 1 - j])) == Some(#[trigger] texts@[j]@),
            forall|j: int| 0 <= j < texts@.len() ==> one_line(#[trigger] texts@[j]@),
        decreases rest@.len(),
    {
                let line = rest.pop().unwrap();
        assert(line == orig[rest@.len() as int]);
        match print_json(&line_to_json(line)) {
            Some(t) => texts.push(t),
            None => {
                proof { lemma_render_none(orig, rest@.len() as int); }
                return None;
            },
        }
        assert(rest@ =~= orig.subrange(0, rest@.len() as int));
    }
    let mut out = String::new();
    let mut m: usize = 0;
    assert(orig.subrange(0, 0) =~= Seq::<RolloutLine>::empty());
    while m < n
        invariant
            0 <= m <= n,
            n == orig.len(),
            texts@.len() == n,
            forall|j: int| 0 <= j < texts@.len()
                ==> printed_json(line_json(orig[n - 1 - j])) == Some(#[trigger] texts@[j]@),
            render(orig.subrange(0, m as int)) == Some(out@),
            orig == lines@,
        decreases n - m,
    {
        proof {
            lemma_render_prefix(orig, m as int);
            assert(printed_json(line_json(orig[n - 1 - (n - 1 - m)])) == Some(texts@[n - 1 - m]@));
        }
        out.append(texts[n - 1 - m].as_str());
        out.append("\n");
        proof {
            reveal_strlit("\n");
            assert(out@ =~= render(orig.subrange(0, m as int))->Some_0 + texts@[n - 1 - m]@ + seq!['\n']);
        }
        m = m + 1;
    }
    assert(orig.subrange(0, n as int) =~= orig);
    proof {
        assert forall|i: int| 0 <= i < orig.len() implies (printed_json(line_json(#[trigger] orig[i])) matches Some(u)
            && one_line(u)) by {
            let j = n - 1 - i;
            assert(printed_json(line_json(orig[n - 1 - j])) == Some(texts@[j]@));
            assert(one_line(texts@[j]@));
        }
        lemma_render_lines(orig, Seq::empty());
        assert(out@ + Seq::<char>::empty() =~= out@);
        assert(printed_lines(orig) + lines_of(Seq::<char>::empty()) =~= printed_lines(orig));
    }
    Some(out)
}

/// Whether `after` is `before` with its last tool output replaced by `text`,
/// every other line unchanged.
pub open spec fn last_output_replaced(before: Seq<RolloutLine>, after: Seq<RolloutLine>, text: Seq<char>) -> bool {
    &&& after.len() == before.len()
    &&& last_tool_output(before) matches Some(k)
    &&& patched_as(before[k], after[k], text)
    &&& forall|j: int| 0 <= j < before.len() && j != k ==> #[trigger] after[j] == before[j]
}

/// Replaces the most recent tool output of a log text with `new_output`,
/// and gives the new text with the call that was patched. The new text
/// holds one JSON line for each non-blank line of the old one, each ended
/// by a line feed; all of them but the patched one are the old lines read
/// and written back unchanged.
pub fn edit_rollout_text(contents: &str, new_output: &str) -> (r: Result<(String, PatchedToolCall), RolloutEditError>)
    ensures
        r matches Err(RolloutEditError::Empty) <==> trimmed(contents@).len() == 0,
        r matches Err(RolloutEditError::BadLine { line }) ==> {
            let src = nonblank(lines_of(contents@));
            exists|k: int| 0 <= k < src.len() && #[trigger] src[k] == line@ && !readable(src[k])
                && forall|i: int| 0 <= i < k ==> readable(#[trigger] src[i])
        },
        r matches Err(RolloutEditError::NoToolOutput) ==> exists|ls: Seq<RolloutLine>|
            #[trigger] log_reads_as(contents@, ls) && last_tool_output(ls) is None,
        r matches Ok((text, p)) ==> exists|ls: Seq<RolloutLine>, out: Seq<RolloutLine>| {
            &&& #[trigger] log_reads_as(contents@, ls)
            &&& #[trigger] last_output_replaced(ls, out, new_output@)
            &&& (p.call_id@, p.kind) == patched_call(ls[last_tool_output(ls)->Some_0])
            &&& render(out) == Some(text@)
            &&& lines_of(text@) == printed_lines(out)
        },
        r matches Err(RolloutEditError::Encode) ==> exists|ls: Seq<RolloutLine>, out: Seq<RolloutLine>| {
            &&& #[trigger] log_reads_as(contents@, ls)
            &&& #[trigger] last_output_replaced(ls, out, new_output@)
            &&& render(out) is None
        },
{
    let mut lines = match read_rollout(contents) {
        Ok(ls) => ls,
        Err(e) => return Err(e),
    };
    let ghost before = lines@;
    let patched = patch_last_tool_output(&mut lines, new_output);
    let ghost after = lines@;
    match patched {
        None => {
            assert(last_tool_output(before) is None);
            Err(RolloutEditError::NoToolOutput)
        },
        Some(p) => {
            match render_rollout(lines) {
                Some(text) => {
                    assert(last_output_replaced(before, after, new_output@));
                    Ok((text, p))
                },
                None => {
                    assert(last_output_replaced(before, after, new_output@));
                    Err(RolloutEditError::Encode)
                },
            }
        },
    }
}

/// The JSON of line `l` once its tool output holds `text`.
pub open spec fn patched_line_json(l: RolloutLine, text: Seq<char>) -> Json {
    let payload = match l.item {
        RolloutItem::FunctionCallOutput { call_id, output } => Json::Object(seq![
            ("type"@, Json::Str("function_call_output"@)),
            ("call_id"@, Json::Str(call_id@)),
            ("output"@, Json::Object(seq![
                ("content"@, Json::Str(text)),
                ("content_items"@, Json::Null),
                ("success"@, match output.success {
                    Some(b) => Json::Bool(b),
                    None => Json::Null,
                }),
            ])),
        ]),
        RolloutItem::CustomToolCallOutput { call_id, output } => Json::Object(seq![
            ("type"@, Json::Str("custom_tool_call_output"@)),
            ("call_id"@, Json::Str(call_id@)),
            ("output"@, Json::Str(text)),
        ]),
        RolloutItem::Other { kind, payload } => payload@,
    };
    Json::Object(seq![
        ("timestamp"@, Json::Str(l.timestamp@)),
        ("type"@, Json::Str(item_kind(l.item))),
        ("payload"@, payload),
    ])
}

/// Replacing the last tool output keeps the number of lines, writes every
/// other line exactly as before, and changes the patched line only in its
/// output: the new content, no content items, the success flag kept.
pub proof fn law_edit_touches_only_last_output(before: Seq<RolloutLine>, after: Seq<RolloutLine>, text: Seq<char>)
    requires
        last_output_replaced(before, after, text),
    ensures
        after.len() == before.len(),
        forall|j: int| 0 <= j < before.len() && j != last_tool_output(before)->Some_0
            ==> line_json(#[trigger] after[j]) == line_json(before[j]),
        line_json(after[last_tool_output(before)->Some_0]) == patched_line_json(before[last_tool_output(before)->Some_0], text),
{
    let k = last_tool_output(before)->Some_0;
    let a = after[k];
    let b = before[k];
    assert(a.timestamp == b.timestamp);
    assert(item_kind(a.item) == item_kind(b.item));
    match (b.item, a.item) {
        (RolloutItem::FunctionCallOutput { call_id: c0, output: o0 }, RolloutItem::FunctionCallOutput { call_id: c1, output: o1 }) => {
            assert(payload_json(o1)->Object_0 =~= seq![
                ("content"@, Json::Str(text)),
                ("content_items"@, Json::Null),
                ("success"@, match o0.success {
                    Some(v) => Json::Bool(v),
                    None => Json::Null,
                }),
            ]);
            assert(item_payload_json(a.item)->Object_0 =~= patched_line_json(b, text)->Object_0[2].1->Object_0);
        },
        _ => {
            assert(item_payload_json(a.item)->Object_0 =~= patched_line_json(b, text)->Object_0[2].1->Object_0);
        },
    }
    assert(line_json(a)->Object_0 =~= patched_line_json(b, text)->Object_0);
}

} // verus!
