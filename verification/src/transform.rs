//! Rewriting of backend events into chat-completion chunks.
use crate::bytes;
use crate::json;
use crate::json::Json;
use crate::json::JsonView;
use crate::text;
use openai::ChatCompletionChunk;
use openai::ChunkChoice;
use openai::ChunkDelta;
use openai::FunctionDelta;
use openai::ToolCallDelta;
use openai::Usage;
use upstream::EventView;
use upstream::ItemView;
use upstream::OutputItem;
use upstream::UpstreamEvent;
use upstream::UpstreamUsage;
use vstd::hash_map::StringHashMap;
use vstd::prelude::*;
use vstd::utf8::encode_utf8;

pub mod laws;
pub mod openai;
pub mod run;
pub mod upstream;

verus! {

/// Why an event cannot be transformed.
#[derive(Debug)]
pub enum TransformError {
    /// The event is no JSON, or not of the form that its type asks for.
    InvalidJson(String),
    /// A chunk cannot be written.
    MarshalError(String),
}

impl TransformError {
    /// The message of the error.
    pub open spec fn text(&self) -> Seq<char> {
        match self {
            TransformError::InvalidJson(m) => "invalid upstream JSON chunk: "@ + m@,
            TransformError::MarshalError(m) => "failed to marshal chunk: "@ + m@,
        }
    }

    /// The message of the error.
    pub fn message(&self) -> (r: String)
        ensures
            r@ == self.text(),
    {
        match self {
            TransformError::InvalidJson(m) => {
                let mut out: String = "invalid upstream JSON chunk: ".to_owned();
                out.append(m.as_str());
                out
            },
            TransformError::MarshalError(m) => {
                let mut out: String = "failed to marshal chunk: ".to_owned();
                out.append(m.as_str());
                out
            },
        }
    }
}

/// What an event becomes.
#[derive(Debug)]
pub enum TransformResult {
    /// One or more chunks, each the bytes of one JSON object.
    Emitted(Vec<Vec<u8>>),
    /// Nothing is to be sent.
    Swallowed,
    /// The stream is at its end.
    Done,
}

/// Converts the events of one backend stream into chat-completion chunks.
pub struct SSETransformer {
    pub model: String,
    pub response_id: String,
    pub role_sent: bool,
    pub tool_index_by_item_id: StringHashMap<usize>,
    pub tool_id_by_item_id: StringHashMap<String>,
    pub tool_name_by_item_id: StringHashMap<String>,
    pub next_tool_index: usize,
    pub saw_tool_calls: bool,
}

/// A transformer in mathematical form.
#[verifier::ext_equal]
pub struct TransformerView {
    pub model: Seq<char>,
    pub response_id: Seq<char>,
    pub role_sent: bool,
    pub tool_index: Map<Seq<char>, usize>,
    pub tool_id: Map<Seq<char>, Seq<char>>,
    pub tool_name: Map<Seq<char>, Seq<char>>,
    pub next_tool_index: usize,
    pub saw_tool_calls: bool,
}

/// The texts behind a map of strings.
pub open spec fn map_texts(m: Map<Seq<char>, String>) -> Map<Seq<char>, Seq<char>> {
    m.map_values(|s: String| s@)
}

/// What an event becomes, in mathematical form.
pub enum Outcome {
    Emitted(Seq<JsonView>),
    Swallowed,
    Done,
    Invalid(Seq<char>),
}

/// The sentinel `[DONE]`.
pub open spec fn done_marker() -> Seq<u8> {
    seq![91u8, 68u8, 79u8, 78u8, 69u8, 93u8]
}

/// A chunk with one choice.
pub open spec fn chunk(
    t: TransformerView,
    seq: Option<u64>,
    delta: JsonView,
    finish: Option<Seq<char>>,
    usage: Option<JsonView>,
) -> JsonView {
    openai::chunk_json(
        t.response_id,
        t.model,
        seq,
        seq![
            JsonView::Object(
                map![
                    "index"@ => openai::int_json(0),
                    "delta"@ => delta,
                    "finish_reason"@ => openai::text_or_null(finish),
                ],
            ),
        ],
        usage,
    )
}

/// A delta with one text member.
pub open spec fn text_delta(key: Seq<char>, t: Seq<char>) -> JsonView {
    JsonView::Object(map![key => JsonView::Text(t)])
}

/// The chunk that announces the role, where it was not sent yet.
pub open spec fn role_chunk(t: TransformerView, seq: Option<u64>) -> Option<JsonView> {
    if t.role_sent {
        None
    } else {
        Some(chunk(t, seq, text_delta("role"@, "assistant"@), None, None))
    }
}

/// The chunk that announces the role, where it was not sent yet, and then a
/// chunk with this delta.
pub open spec fn with_role(t: TransformerView, seq: Option<u64>, delta: JsonView) -> Seq<JsonView> {
    let last = seq![chunk(t, seq, delta, None, None)];
    match role_chunk(t, seq) {
        Some(first) => seq![first] + last,
        None => last,
    }
}

/// The transformer after the role was sent.
pub open spec fn after_role(t: TransformerView) -> TransformerView {
    TransformerView { role_sent: true, ..t }
}

/// The delta that begins a tool call.
pub open spec fn call_delta(index: usize, call_id: Seq<char>, name: Seq<char>) -> JsonView {
    JsonView::Object(
        map![
            "tool_calls"@ => JsonView::Array(
                seq![
                    JsonView::Object(
                        map![
                            "index"@ => openai::int_json(index as int),
                            "id"@ => JsonView::Text(call_id),
                            "type"@ => JsonView::Text("function"@),
                            "function"@ => JsonView::Object(
                                map![
                                    "name"@ => JsonView::Text(name),
                                    "arguments"@ => JsonView::Text(Seq::empty()),
                                ],
                            ),
                        ],
                    ),
                ],
            ),
        ],
    )
}

/// The delta that adds to the arguments of a tool call.
pub open spec fn arguments_delta(index: usize, arguments: Seq<char>) -> JsonView {
    JsonView::Object(
        map![
            "tool_calls"@ => JsonView::Array(
                seq![
                    JsonView::Object(
                        map![
                            "index"@ => openai::int_json(index as int),
                            "function"@ => JsonView::Object(
                                map!["arguments"@ => JsonView::Text(arguments)],
                            ),
                        ],
                    ),
                ],
            ),
        ],
    )
}

/// A transformer for a new response: what belongs to the response before is
/// forgotten, and an empty id leaves the id as it is.
pub open spec fn after_created(t: TransformerView, id: Seq<char>) -> TransformerView {
    TransformerView {
        model: t.model,
        response_id: if id.len() > 0 {
            "chatcmpl-"@ + id
        } else {
            t.response_id
        },
        role_sent: false,
        tool_index: Map::empty(),
        tool_id: Map::empty(),
        tool_name: Map::empty(),
        next_tool_index: 0,
        saw_tool_calls: false,
    }
}

/// A tool call that can be announced: a function call with an id and a name.
pub open spec fn is_call(item: ItemView) -> bool {
    item.item_type == "function_call"@ && item.id.len() > 0 && item.name.len() > 0
}

/// The call id of an item, made from its own id where it has none.
pub open spec fn call_id_of(item: ItemView) -> Seq<char> {
    if item.call_id.len() == 0 {
        "call_"@ + item.id
    } else {
        item.call_id
    }
}

/// The index of an item among the tool calls: the one that it has, else the
/// next free one.
pub open spec fn index_of(t: TransformerView, id: Seq<char>) -> usize {
    if t.tool_index.dom().contains(id) {
        t.tool_index[id]
    } else {
        t.next_tool_index
    }
}

/// The transformer after a tool call was announced.
pub open spec fn after_call(t: TransformerView, item: ItemView) -> TransformerView {
    TransformerView {
        tool_index: t.tool_index.insert(item.id, index_of(t, item.id)),
        tool_id: t.tool_id.insert(item.id, call_id_of(item)),
        tool_name: t.tool_name.insert(item.id, item.name),
        next_tool_index: if t.tool_index.dom().contains(item.id) || t.next_tool_index
            == usize::MAX {
            t.next_tool_index
        } else {
            (t.next_tool_index + 1) as usize
        },
        saw_tool_calls: true,
        role_sent: true,
        ..t
    }
}

/// The JSON object of counts that may be absent.
pub open spec fn usage_json(u: Option<Usage>) -> Option<JsonView> {
    match u {
        Some(u) => Some(u.json()),
        None => None,
    }
}

/// Zero counts.
pub open spec fn zero_usage() -> Usage {
    Usage::counts(0, 0, 0)
}

/// The transformer after an event.
pub open spec fn after_event(t: TransformerView, e: EventView) -> TransformerView {
    match e {
        EventView::ResponseCreated { id } => after_created(t, id),
        EventView::OutputTextDelta { delta } => after_role(t),
        EventView::ResponseCompleted { usage } => t,
        EventView::OutputItemAdded { item } => match item {
            Some(i) => if is_call(i) {
                after_call(t, i)
            } else {
                t
            },
            None => t,
        },
        EventView::FunctionCallArgumentsDelta { item_id, delta } => if t.tool_index.dom().contains(
            item_id,
        ) {
            after_role(t)
        } else {
            t
        },
        EventView::Reasoning { content } => if content is Some {
            after_role(t)
        } else {
            t
        },
        EventView::Other => t,
    }
}

/// The chunks that an event becomes.
pub open spec fn event_chunks(t: TransformerView, seq: Option<u64>, e: EventView) -> Seq<JsonView> {
    match e {
        EventView::ResponseCreated { id } => Seq::empty(),
        EventView::OutputTextDelta { delta } => with_role(t, seq, text_delta("content"@, delta)),
        EventView::ResponseCompleted { usage } => seq![
            chunk(
                t,
                seq,
                JsonView::Object(Map::empty()),
                Some(
                    if t.saw_tool_calls {
                        "tool_calls"@
                    } else {
                        "stop"@
                    },
                ),
                Some(
                    match usage {
                        Some(u) => u.usage().json(),
                        None => zero_usage().json(),
                    },
                ),
            ),
        ],
        EventView::OutputItemAdded { item } => match item {
            Some(i) => if is_call(i) {
                with_role(t, seq, call_delta(index_of(t, i.id), call_id_of(i), i.name))
            } else {
                Seq::empty()
            },
            None => Seq::empty(),
        },
        EventView::FunctionCallArgumentsDelta { item_id, delta } => if t.tool_index.dom().contains(
            item_id,
        ) {
            with_role(t, seq, arguments_delta(t.tool_index[item_id], delta))
        } else {
            Seq::empty()
        },
        EventView::Reasoning { content } => match content {
            Some(c) => with_role(t, seq, text_delta("reasoning_content"@, c)),
            None => Seq::empty(),
        },
        EventView::Other => Seq::empty(),
    }
}

/// What a payload becomes that was parsed, or was not.
pub open spec fn parsed_outcome(t: TransformerView, parsed: Result<JsonView, Seq<char>>)
    -> Outcome {
    match parsed {
        Err(m) => Outcome::Invalid(m),
        Ok(v) => match upstream::event_of(v) {
            Err(m) => Outcome::Invalid(m),
            Ok((seq, e)) => if event_chunks(t, seq, e).len() == 0 {
                Outcome::Swallowed
            } else {
                Outcome::Emitted(event_chunks(t, seq, e))
            },
        },
    }
}

/// The transformer after a payload that was parsed, or was not.
pub open spec fn after_parsed(t: TransformerView, parsed: Result<JsonView, Seq<char>>)
    -> TransformerView {
    match parsed {
        Err(m) => t,
        Ok(v) => match upstream::event_of(v) {
            Err(m) => t,
            Ok((seq, e)) => after_event(t, e),
        },
    }
}

/// What the payload of an event becomes.
pub open spec fn outcome(t: TransformerView, data: Seq<u8>) -> Outcome {
    let d = bytes::trimmed(data);
    if d.len() == 0 {
        Outcome::Swallowed
    } else if d == done_marker() {
        Outcome::Done
    } else {
        parsed_outcome(t, json::json_parse(d))
    }
}

/// The transformer after the payload of an event.
pub open spec fn after_data(t: TransformerView, data: Seq<u8>) -> TransformerView {
    let d = bytes::trimmed(data);
    if d.len() == 0 || d == done_marker() {
        t
    } else {
        after_parsed(t, json::json_parse(d))
    }
}

/// What a parser made of a payload, in mathematical form.
pub open spec fn parsed_view(parsed: Result<Json, String>) -> Result<JsonView, Seq<char>> {
    match parsed {
        Ok(j) => Ok(j@),
        Err(m) => Err(m@),
    }
}

/// The bytes of a chunk: its compact text, with the members of every object in
/// the order of the fields that they are written from.
pub open spec fn chunk_bytes(v: JsonView) -> Seq<u8> {
    encode_utf8(json::ordered_text(v, openai::member_order()))
}

/// The bytes of chunks.
pub open spec fn all_chunk_bytes(chunks: Seq<JsonView>) -> Seq<Seq<u8>> {
    chunks.map_values(|v: JsonView| chunk_bytes(v))
}

/// A transformer that has seen nothing.
pub open spec fn fresh(model: Seq<char>) -> TransformerView {
    TransformerView {
        model: if text::trimmed(model).len() == 0 {
            "gpt-5"@
        } else {
            text::trimmed(model)
        },
        response_id: Seq::empty(),
        role_sent: false,
        tool_index: Map::empty(),
        tool_id: Map::empty(),
        tool_name: Map::empty(),
        next_tool_index: 0,
        saw_tool_calls: false,
    }
}

/// A part of a chunk that is written whole and read back as it was, and nests
/// no deeper than `depth`.
pub open spec fn sound(v: JsonView, depth: nat) -> bool {
    json::is_plain(v) && json::nests_within(v, depth) && json::keys_among(v, openai::member_order())
}

/// No member of a chunk has the reserved key, and each has its place in the
/// order.
proof fn lemma_member_names()
    ensures
        "id"@ != json::RESERVED_KEY@,
        "object"@ != json::RESERVED_KEY@,
        "created"@ != json::RESERVED_KEY@,
        "model"@ != json::RESERVED_KEY@,
        "choices"@ != json::RESERVED_KEY@,
        "usage"@ != json::RESERVED_KEY@,
        "index"@ != json::RESERVED_KEY@,
        "delta"@ != json::RESERVED_KEY@,
        "finish_reason"@ != json::RESERVED_KEY@,
        "role"@ != json::RESERVED_KEY@,
        "content"@ != json::RESERVED_KEY@,
        "reasoning_content"@ != json::RESERVED_KEY@,
        "tool_calls"@ != json::RESERVED_KEY@,
        "type"@ != json::RESERVED_KEY@,
        "function"@ != json::RESERVED_KEY@,
        "name"@ != json::RESERVED_KEY@,
        "arguments"@ != json::RESERVED_KEY@,
        "prompt_tokens"@ != json::RESERVED_KEY@,
        "completion_tokens"@ != json::RESERVED_KEY@,
        "total_tokens"@ != json::RESERVED_KEY@,
        "prompt_tokens_details"@ != json::RESERVED_KEY@,
        "completion_tokens_details"@ != json::RESERVED_KEY@,
        "cached_tokens"@ != json::RESERVED_KEY@,
        "reasoning_tokens"@ != json::RESERVED_KEY@,
        openai::member_order().contains("index"@),
        openai::member_order().contains("id"@),
        openai::member_order().contains("object"@),
        openai::member_order().contains("created"@),
        openai::member_order().contains("model"@),
        openai::member_order().contains("choices"@),
        openai::member_order().contains("delta"@),
        openai::member_order().contains("finish_reason"@),
        openai::member_order().contains("usage"@),
        openai::member_order().contains("role"@),
        openai::member_order().contains("content"@),
        openai::member_order().contains("reasoning_content"@),
        openai::member_order().contains("tool_calls"@),
        openai::member_order().contains("type"@),
        openai::member_order().contains("function"@),
        openai::member_order().contains("name"@),
        openai::member_order().contains("arguments"@),
        openai::member_order().contains("prompt_tokens"@),
        openai::member_order().contains("completion_tokens"@),
        openai::member_order().contains("total_tokens"@),
        openai::member_order().contains("prompt_tokens_details"@),
        openai::member_order().contains("completion_tokens_details"@),
        openai::member_order().contains("cached_tokens"@),
        openai::member_order().contains("reasoning_tokens"@),
{
    let order = openai::member_order();
    assert(order[0] == "index"@);
    assert(order[1] == "id"@);
    assert(order[2] == "object"@);
    assert(order[3] == "created"@);
    assert(order[4] == "model"@);
    assert(order[5] == "choices"@);
    assert(order[6] == "delta"@);
    assert(order[7] == "finish_reason"@);
    assert(order[8] == "usage"@);
    assert(order[9] == "role"@);
    assert(order[10] == "content"@);
    assert(order[11] == "reasoning_content"@);
    assert(order[12] == "tool_calls"@);
    assert(order[13] == "type"@);
    assert(order[14] == "function"@);
    assert(order[15] == "name"@);
    assert(order[16] == "arguments"@);
    assert(order[17] == "prompt_tokens"@);
    assert(order[18] == "completion_tokens"@);
    assert(order[19] == "total_tokens"@);
    assert(order[20] == "prompt_tokens_details"@);
    assert(order[21] == "completion_tokens_details"@);
    assert(order[22] == "cached_tokens"@);
    assert(order[23] == "reasoning_tokens"@);
    reveal_strlit("$serde_json::private::RawValue");
    assert(json::RESERVED_KEY@[0] == '$');
    reveal_strlit("id");
    reveal_strlit("object");
    reveal_strlit("created");
    reveal_strlit("model");
    reveal_strlit("choices");
    reveal_strlit("usage");
    reveal_strlit("index");
    reveal_strlit("delta");
    reveal_strlit("finish_reason");
    reveal_strlit("role");
    reveal_strlit("content");
    reveal_strlit("reasoning_content");
    reveal_strlit("tool_calls");
    reveal_strlit("type");
    reveal_strlit("function");
    reveal_strlit("name");
    reveal_strlit("arguments");
    reveal_strlit("prompt_tokens");
    reveal_strlit("completion_tokens");
    reveal_strlit("total_tokens");
    reveal_strlit("prompt_tokens_details");
    reveal_strlit("completion_tokens_details");
    reveal_strlit("cached_tokens");
    reveal_strlit("reasoning_tokens");
    assert("id"@[0] != '$');
    assert("object"@[0] != '$');
    assert("created"@[0] != '$');
    assert("model"@[0] != '$');
    assert("choices"@[0] != '$');
    assert("usage"@[0] != '$');
    assert("index"@[0] != '$');
    assert("delta"@[0] != '$');
    assert("finish_reason"@[0] != '$');
    assert("role"@[0] != '$');
    assert("content"@[0] != '$');
    assert("reasoning_content"@[0] != '$');
    assert("tool_calls"@[0] != '$');
    assert("type"@[0] != '$');
    assert("function"@[0] != '$');
    assert("name"@[0] != '$');
    assert("arguments"@[0] != '$');
    assert("prompt_tokens"@[0] != '$');
    assert("completion_tokens"@[0] != '$');
    assert("total_tokens"@[0] != '$');
    assert("prompt_tokens_details"@[0] != '$');
    assert("completion_tokens_details"@[0] != '$');
    assert("cached_tokens"@[0] != '$');
    assert("reasoning_tokens"@[0] != '$');
}

/// A bound on nesting holds for every larger bound.
proof fn lemma_nests_more(v: JsonView, a: nat, b: nat)
    requires
        json::nests_within(v, a),
        a <= b,
    ensures
        json::nests_within(v, b),
    decreases v,
{
    match v {
        JsonView::Array(s) => {
            assert forall|i: int| 0 <= i < s.len() implies json::nests_within(
                #[trigger] s[i],
                (b - 1) as nat,
            ) by {
                lemma_nests_more(s[i], (a - 1) as nat, (b - 1) as nat);
            }
        },
        JsonView::Object(m) => {
            assert forall|k: Seq<char>| m.dom().contains(k) implies json::nests_within(
                #[trigger] m[k],
                (b - 1) as nat,
            ) by {
                lemma_nests_more(m[k], (a - 1) as nat, (b - 1) as nat);
            }
        },
        _ => {},
    }
}

/// The counts of a response are read back as they were written.
proof fn lemma_usage_reads_back(u: Usage)
    ensures
        sound(u.json(), 2),
{
    lemma_member_names();
    reveal_with_fuel(json::is_plain, 3);
    reveal_with_fuel(json::nests_within, 3);
    reveal_with_fuel(json::keys_among, 3);
}

/// A chunk is read back as it was written.
proof fn lemma_chunk_reads_back(
    t: TransformerView,
    seq: Option<u64>,
    delta: JsonView,
    finish: Option<Seq<char>>,
    usage: Option<JsonView>,
)
    requires
        sound(delta, 4),
        usage matches Some(u) ==> sound(u, 2),
    ensures
        json::is_legible(chunk(t, seq, delta, finish, usage), openai::member_order()),
{
    lemma_member_names();
    reveal_with_fuel(json::is_plain, 2);
    reveal_with_fuel(json::nests_within, 2);
    reveal_with_fuel(json::keys_among, 2);
    let choice = JsonView::Object(
        map![
            "index"@ => openai::int_json(0),
            "delta"@ => delta,
            "finish_reason"@ => openai::text_or_null(finish),
        ],
    );
    assert(sound(choice, 5));
    let choices = JsonView::Array(seq![choice]);
    assert(sound(choices, 6));
    if usage is Some {
        lemma_nests_more(usage->0, 2, 6);
    }
    let whole = chunk(t, seq, delta, finish, usage);
    assert(sound(whole, 7));
    lemma_nests_more(whole, 7, 127);
}

impl SSETransformer {
    /// The transformer in mathematical form.
    pub open spec fn view(&self) -> TransformerView {
        TransformerView {
            model: self.model@,
            response_id: self.response_id@,
            role_sent: self.role_sent,
            tool_index: self.tool_index_by_item_id@,
            tool_id: map_texts(self.tool_id_by_item_id@),
            tool_name: map_texts(self.tool_name_by_item_id@),
            next_tool_index: self.next_tool_index,
            saw_tool_calls: self.saw_tool_calls,
        }
    }

    /// A transformer for a stream of this model; `gpt-5` where it is blank.
    pub fn new(model: &str) -> (r: Self)
        ensures
            r@ == fresh(model@),
    {
        let trimmed = text::trim(model);
        let chosen: String = if trimmed.as_str().is_empty() {
            "gpt-5".to_owned()
        } else {
            trimmed
        };
        let r = SSETransformer {
            model: chosen,
            response_id: String::new(),
            role_sent: false,
            tool_index_by_item_id: StringHashMap::new(),
            tool_id_by_item_id: StringHashMap::new(),
            tool_name_by_item_id: StringHashMap::new(),
            next_tool_index: 0,
            saw_tool_calls: false,
        };
        proof {
            assert(r@ =~= fresh(model@));
        }
        r
    }

    /// The bytes of a chunk with one choice.
    fn make_chunk(
        &self,
        seq: Option<u64>,
        delta: ChunkDelta,
        finish_reason: Option<&'static str>,
        usage: Option<Usage>,
    ) -> (r: Vec<u8>)
        requires
            sound(delta.json(), 4),
        ensures
            ({
                let v = chunk(
                    self@,
                    seq,
                    delta.json(),
                    match finish_reason {
                        Some(f) => Some(f@),
                        None => None,
                    },
                    usage_json(usage),
                );
                good_frame(r, v)
            }),
    {
        let ghost u: Option<JsonView> = usage_json(usage);
        let ghost d: JsonView = delta.json();
        proof {
            if usage is Some {
                lemma_usage_reads_back(usage->0);
            }
        }
        let mut choices: Vec<ChunkChoice> = Vec::new();
        choices.push(ChunkChoice { index: 0, delta, finish_reason });
        let made = ChatCompletionChunk {
            id: self.response_id.clone(),
            created: seq,
            model: self.model.clone(),
            choices,
            usage,
        };
        proof {
            let f = match finish_reason {
                Some(f) => Some(f@),
                None => None,
            };
            assert(openai::choices_json(made.choices@) =~= seq![made.choices@[0].json()]);
            assert(made.json() == chunk(self@, seq, d, f, u));
            lemma_chunk_reads_back(self@, seq, d, f, u);
        }
        let text = made.to_json().to_ordered_text(&openai::members_in_order());
        proof {
            text::lemma_encoding_no_control(text@);
            text::lemma_encoding_of_brace(text@);
        }
        bytes::copy(text.as_str().as_bytes())
    }

    /// The chunk that announces the role, where it was not sent yet.
    pub fn send_role(&mut self, seq: Option<u64>) -> (r: Option<Vec<u8>>)
        ensures
            final(self)@ == after_role(old(self)@),
            match r {
                Some(b) => role_chunk(old(self)@, seq) matches Some(v) && good_frame(b, v),
                None => role_chunk(old(self)@, seq) is None,
            },
    {
        if self.role_sent {
            return None;
        }
        let delta = ChunkDelta {
            role: Some("assistant"),
            content: None,
            reasoning_content: None,
            tool_calls: None,
        };
        proof {
            lemma_member_names();
            reveal_with_fuel(json::is_plain, 2);
            reveal_with_fuel(json::nests_within, 2);
            reveal_with_fuel(json::keys_among, 2);
            assert(delta.json() == text_delta("role"@, "assistant"@));
        }
        let bytes = self.make_chunk(seq, delta, None, None);
        self.role_sent = true;
        Some(bytes)
    }

    /// The role where it was not sent yet, then a chunk with this delta.
    fn emit(&mut self, seq: Option<u64>, delta: ChunkDelta) -> (r: TransformResult)
        requires
            sound(delta.json(), 4),
        ensures
            final(self)@ == after_role(old(self)@),
            r matches TransformResult::Emitted(frames) && good_frames(
                frames@,
                with_role(old(self)@, seq, delta.json()),
            ),
    {
        let ghost start = self@;
        let ghost d = delta.json();
        let mut frames: Vec<Vec<u8>> = Vec::new();
        match self.send_role(seq) {
            Some(role) => frames.push(role),
            None => {},
        }
        let bytes = self.make_chunk(seq, delta, None, None);
        frames.push(bytes);
        proof {
            assert(chunk(self@, seq, d, None, None) == chunk(start, seq, d, None, None));
        }
        TransformResult::Emitted(frames)
    }

    /// Begins a new response.
    fn handle_created(&mut self, id: String) -> (r: TransformResult)
        ensures
            r is Swallowed,
            final(self)@ == after_created(old(self)@, id@),
    {
        if !id.as_str().is_empty() {
            let mut response_id: String = "chatcmpl-".to_owned();
            response_id.append(id.as_str());
            self.response_id = response_id;
        }
        self.role_sent = false;
        self.saw_tool_calls = false;
        self.tool_index_by_item_id.clear();
        self.tool_id_by_item_id.clear();
        self.tool_name_by_item_id.clear();
        self.next_tool_index = 0;
        proof {
            assert(self@ =~= after_created(old(self)@, id@));
        }
        TransformResult::Swallowed
    }

    /// A piece of the visible answer.
    fn handle_text_delta(&mut self, seq: Option<u64>, delta: String) -> (r: TransformResult)
        ensures
            final(self)@ == after_role(old(self)@),
            r matches TransformResult::Emitted(frames) && good_frames(
                frames@,
                with_role(old(self)@, seq, text_delta("content"@, delta@)),
            ),
    {
        let ghost t = delta@;
        let d = ChunkDelta {
            role: None,
            content: Some(delta),
            reasoning_content: None,
            tool_calls: None,
        };
        proof {
            lemma_member_names();
            reveal_with_fuel(json::is_plain, 2);
            reveal_with_fuel(json::nests_within, 2);
            reveal_with_fuel(json::keys_among, 2);
            assert(d.json() == text_delta("content"@, t));
        }
        self.emit(seq, d)
    }

    /// A piece of reasoning.
    fn handle_reasoning(&mut self, seq: Option<u64>, content: String) -> (r: TransformResult)
        ensures
            final(self)@ == after_role(old(self)@),
            r matches TransformResult::Emitted(frames) && good_frames(
                frames@,
                with_role(old(self)@, seq, text_delta("reasoning_content"@, content@)),
            ),
    {
        let ghost t = content@;
        let d = ChunkDelta {
            role: None,
            content: None,
            reasoning_content: Some(content),
            tool_calls: None,
        };
        proof {
            lemma_member_names();
            reveal_with_fuel(json::is_plain, 2);
            reveal_with_fuel(json::nests_within, 2);
            reveal_with_fuel(json::keys_among, 2);
            assert(d.json() == text_delta("reasoning_content"@, t));
        }
        self.emit(seq, d)
    }

    /// The end of a response.
    fn handle_completed(&mut self, seq: Option<u64>, usage: Option<UpstreamUsage>) -> (r:
        TransformResult)
        ensures
            final(self)@ == old(self)@,
            r matches TransformResult::Emitted(frames) && good_frames(
                frames@,
                event_chunks(old(self)@, seq, EventView::ResponseCompleted { usage }),
            ),
    {
        let finish: &'static str = if self.saw_tool_calls {
            "tool_calls"
        } else {
            "stop"
        };
        let counts: Usage = match &usage {
            Some(u) => u.to_usage(),
            None => Usage::new(0, 0),
        };
        let delta = ChunkDelta::default();
        proof {
            lemma_member_names();
            reveal_with_fuel(json::is_plain, 2);
            reveal_with_fuel(json::nests_within, 2);
            reveal_with_fuel(json::keys_among, 2);
            assert(delta.json() == JsonView::Object(Map::empty()));
        }
        let bytes = self.make_chunk(seq, delta, Some(finish), Some(counts));
        let mut frames: Vec<Vec<u8>> = Vec::new();
        frames.push(bytes);
        TransformResult::Emitted(frames)
    }

    /// The beginning of an output item.
    pub fn handle_output_item_added(&mut self, seq: Option<u64>, item: OutputItem) -> (r:
        TransformResult)
        ensures
            ({
                let i = ItemView {
                    item_type: item.item_type@,
                    id: item.id@,
                    call_id: item.call_id@,
                    name: item.name@,
                };
                if is_call(i) {
                    &&& final(self)@ == after_call(old(self)@, i)
                    &&& r matches TransformResult::Emitted(frames) && good_frames(
                        frames@,
                        with_role(
                            old(self)@,
                            seq,
                            call_delta(index_of(old(self)@, i.id), call_id_of(i), i.name),
                        ),
                    )
                } else {
                    &&& final(self)@ == old(self)@
                    &&& r is Swallowed
                }
            }),
    {
        let ghost start = self@;
        let ghost i = ItemView {
            item_type: item.item_type@,
            id: item.id@,
            call_id: item.call_id@,
            name: item.name@,
        };
        if !text::same(item.item_type.as_str(), "function_call") || item.id.as_str().is_empty()
            || item.name.as_str().is_empty() {
            return TransformResult::Swallowed;
        }
        let call_id: String = if item.call_id.as_str().is_empty() {
            let mut made: String = "call_".to_owned();
            made.append(item.id.as_str());
            made
        } else {
            item.call_id
        };
        let index: usize = match self.tool_index_by_item_id.get(item.id.as_str()) {
            Some(n) => *n,
            None => {
                let n: usize = self.next_tool_index;
                if n < usize::MAX {
                    self.next_tool_index = n + 1;
                }
                n
            },
        };
        self.tool_index_by_item_id.insert(item.id.clone(), index);
        self.tool_id_by_item_id.insert(item.id.clone(), call_id.clone());
        self.tool_name_by_item_id.insert(item.id, item.name.clone());
        self.saw_tool_calls = true;
        let mut calls: Vec<ToolCallDelta> = Vec::new();
        calls.push(
            ToolCallDelta {
                index,
                id: Some(call_id),
                call_type: Some("function"),
                function: Some(
                    FunctionDelta { name: Some(item.name), arguments: Some(String::new()) },
                ),
            },
        );
        let d = ChunkDelta {
            role: None,
            content: None,
            reasoning_content: None,
            tool_calls: Some(calls),
        };
        let ghost middle = self@;
        proof {
            let js = openai::tool_calls_json(calls@);
            assert(js =~= seq![calls@[0].json()]);
            assert(d.json() == call_delta(index, call_id_of(i), i.name));
            lemma_member_names();
            reveal_with_fuel(json::is_plain, 5);
            reveal_with_fuel(json::nests_within, 5);
            reveal_with_fuel(json::keys_among, 5);
            assert(middle.tool_index =~= start.tool_index.insert(i.id, index));
            assert(middle.tool_id =~= start.tool_id.insert(i.id, call_id_of(i)));
            assert(middle.tool_name =~= start.tool_name.insert(i.id, i.name));
            assert(after_role(middle) =~= after_call(start, i));
        }
        let r = self.emit(seq, d);
        proof {
            let delta = call_delta(index, call_id_of(i), i.name);
            assert(with_role(middle, seq, delta) =~= with_role(start, seq, delta));
        }
        r
    }

    /// A piece of the arguments of a tool call.
    fn handle_function_call_args_delta(&mut self, seq: Option<u64>, item_id: String, delta: String)
        -> (r: TransformResult)
        ensures
            if old(self)@.tool_index.dom().contains(item_id@) {
                &&& final(self)@ == after_role(old(self)@)
                &&& r matches TransformResult::Emitted(frames) && good_frames(
                    frames@,
                    with_role(
                        old(self)@,
                        seq,
                        arguments_delta(old(self)@.tool_index[item_id@], delta@),
                    ),
                )
            } else {
                &&& final(self)@ == old(self)@
                &&& r is Swallowed
            },
    {
        let index: usize = match self.tool_index_by_item_id.get(item_id.as_str()) {
            Some(n) => *n,
            None => {
                return TransformResult::Swallowed;
            },
        };
        let ghost t = delta@;
        let mut calls: Vec<ToolCallDelta> = Vec::new();
        calls.push(
            ToolCallDelta {
                index,
                id: None,
                call_type: None,
                function: Some(FunctionDelta { name: None, arguments: Some(delta) }),
            },
        );
        let d = ChunkDelta {
            role: None,
            content: None,
            reasoning_content: None,
            tool_calls: Some(calls),
        };
        proof {
            let js = openai::tool_calls_json(calls@);
            assert(js =~= seq![calls@[0].json()]);
            assert(d.json() == arguments_delta(index, t));
            lemma_member_names();
            reveal_with_fuel(json::is_plain, 5);
            reveal_with_fuel(json::nests_within, 5);
            reveal_with_fuel(json::keys_among, 5);
        }
        self.emit(seq, d)
    }

    /// Transforms an event that was read.
    fn transform_event(&mut self, event: UpstreamEvent) -> (r: TransformResult)
        ensures
            final(self)@ == after_event(old(self)@, event@),
            match r {
                TransformResult::Emitted(frames) => good_frames(
                    frames@,
                    event_chunks(old(self)@, event.sequence(), event@),
                ) && frames@.len() > 0,
                TransformResult::Swallowed => event_chunks(
                    old(self)@,
                    event.sequence(),
                    event@,
                ).len() == 0,
                TransformResult::Done => false,
            },
    {
        match event {
            UpstreamEvent::ResponseCreated { sequence_number, response } => self.handle_created(
                response.id,
            ),
            UpstreamEvent::OutputTextDelta { sequence_number, delta } => self.handle_text_delta(
                sequence_number,
                delta,
            ),
            UpstreamEvent::ResponseCompleted { sequence_number, response } => {
                self.handle_completed(sequence_number, response.usage)
            },
            UpstreamEvent::OutputItemAdded { sequence_number, item } => match item {
                Some(i) => self.handle_output_item_added(sequence_number, i),
                None => TransformResult::Swallowed,
            },
            UpstreamEvent::FunctionCallArgumentsDelta { sequence_number, item_id, delta } => {
                self.handle_function_call_args_delta(sequence_number, item_id, delta)
            },
            UpstreamEvent::Reasoning { sequence_number, content } => match content {
                Some(c) => self.handle_reasoning(sequence_number, c),
                None => TransformResult::Swallowed,
            },
            UpstreamEvent::Other => TransformResult::Swallowed,
        }
    }

    /// Transforms the payload of one event that was parsed, or was not.
    pub fn transform_parsed(&mut self, parsed: Result<Json, String>) -> (r: Result<
        TransformResult,
        TransformError,
    >)
        ensures
            final(self)@ == after_parsed(old(self)@, parsed_view(parsed)),
            match r {
                Ok(TransformResult::Emitted(frames)) => parsed_outcome(
                    old(self)@,
                    parsed_view(parsed),
                ) matches Outcome::Emitted(chunks) && good_frames(frames@, chunks),
                Ok(TransformResult::Swallowed) => parsed_outcome(
                    old(self)@,
                    parsed_view(parsed),
                ) is Swallowed,
                Ok(TransformResult::Done) => false,
                Err(TransformError::InvalidJson(m)) => parsed_outcome(
                    old(self)@,
                    parsed_view(parsed),
                ) == Outcome::Invalid(m@),
                Err(TransformError::MarshalError(m)) => false,
            },
    {
        match parsed {
            Err(m) => Err(TransformError::InvalidJson(m)),
            Ok(v) => match upstream::read_event(&v) {
                Err(m) => Err(TransformError::InvalidJson(m)),
                Ok(e) => Ok(self.transform_event(e)),
            },
        }
    }

    /// Transforms the payload of one event.
    ///
    /// Every chunk that is emitted is legible, so [`json::parse`] reads it back
    /// as the value that it was written from, and holds no control byte, so none
    /// breaks a frame.
    pub fn transform(&mut self, data: &[u8]) -> (r: Result<TransformResult, TransformError>)
        ensures
            final(self)@ == after_data(old(self)@, data@),
            match r {
                Ok(TransformResult::Emitted(frames)) => outcome(
                    old(self)@,
                    data@,
                ) matches Outcome::Emitted(chunks) && good_frames(frames@, chunks),
                Ok(TransformResult::Swallowed) => outcome(old(self)@, data@) is Swallowed,
                Ok(TransformResult::Done) => outcome(old(self)@, data@) is Done,
                Err(TransformError::InvalidJson(m)) => outcome(old(self)@, data@)
                    == Outcome::Invalid(m@),
                Err(TransformError::MarshalError(m)) => false,
            },
    {
        let trimmed: Vec<u8> = bytes::trim_ascii(data);
        if trimmed.len() == 0 {
            return Ok(TransformResult::Swallowed);
        }
        if is_done_marker(trimmed.as_slice()) {
            return Ok(TransformResult::Done);
        }
        self.transform_parsed(json::parse(trimmed.as_slice()))
    }
}

/// A frame holds the bytes of a chunk that is read back as it was, and no
/// control byte.
pub open spec fn good_frame(frame: Vec<u8>, v: JsonView) -> bool {
    &&& frame@ == chunk_bytes(v)
    &&& json::is_legible(v, openai::member_order())
    &&& forall|i: int| 0 <= i < frame@.len() ==> #[trigger] frame@[i] >= 0x20
    &&& frame@.len() > 0 && frame@[0] == 0x7b
}

/// Frames hold the bytes of chunks, one each.
pub open spec fn good_frames(frames: Seq<Vec<u8>>, chunks: Seq<JsonView>) -> bool {
    &&& frames.len() == chunks.len()
    &&& forall|i: int| 0 <= i < frames.len() ==> good_frame(#[trigger] frames[i], chunks[i])
}

/// Whether the bytes are the sentinel `[DONE]`.
pub fn is_done_marker(d: &[u8]) -> (r: bool)
    ensures
        r == (d@ == done_marker()),
{
    let r: bool = d.len() == 6 && d[0] == 91 && d[1] == 68 && d[2] == 79 && d[3] == 78 && d[4] == 69
        && d[5] == 93;
    proof {
        if r {
            assert(d@ =~= done_marker());
        }
    }
    r
}

/// No two items share an index, and every index in use is below the next free
/// one.
pub open spec fn indexes_distinct(t: TransformerView) -> bool {
    &&& forall|a: Seq<char>|
        #[trigger] t.tool_index.dom().contains(a) ==> t.tool_index[a] < t.next_tool_index
    &&& forall|a: Seq<char>, b: Seq<char>| #[trigger]
        t.tool_index.dom().contains(a) && #[trigger] t.tool_index.dom().contains(b) && a != b
            ==> t.tool_index[a] != t.tool_index[b]
}

/// A new transformer has no index in use.
pub proof fn law_fresh_indexes(model: Seq<char>)
    ensures
        indexes_distinct(fresh(model)),
{
}

/// Every event keeps the indexes of the tool calls distinct, and none but the
/// beginning of a new response changes an index that is given.
pub proof fn law_indexes_stay_distinct(t: TransformerView, e: EventView)
    requires
        indexes_distinct(t),
        t.next_tool_index < usize::MAX,
    ensures
        indexes_distinct(after_event(t, e)),
        !(e is ResponseCreated) ==> forall|a: Seq<char>| #[trigger]
            t.tool_index.dom().contains(a) ==> after_event(t, e).tool_index.dom().contains(a)
                && after_event(t, e).tool_index[a] == t.tool_index[a],
{
}

/// The role is announced by the first chunk after a response begins that is
/// not its end, and by no later chunk of the response.
pub proof fn law_role_comes_first_and_once(t: TransformerView, seq: Option<u64>, e: EventView)
    requires
        event_chunks(t, seq, e).len() > 0,
        !(e is ResponseCompleted),
    ensures
        after_event(t, e).role_sent,
        !t.role_sent ==> event_chunks(t, seq, e).len() == 2 && event_chunks(t, seq, e)[0] == chunk(
            t,
            seq,
            text_delta("role"@, "assistant"@),
            None,
            None,
        ),
        t.role_sent ==> event_chunks(t, seq, e).len() == 1,
{
}

/// A new response starts like a fresh stream of the same model, whatever came
/// before it.
pub proof fn law_new_response_starts_over(t: TransformerView, id: Seq<char>)
    requires
        id.len() > 0,
    ensures
        after_event(t, EventView::ResponseCreated { id }) == after_event(
            TransformerView { model: t.model, ..fresh(t.model) },
            EventView::ResponseCreated { id },
        ),
        event_chunks(t, None, EventView::ResponseCreated { id }).len() == 0,
{
}

/// The end of a response says whether tools are to be called, and always
/// reports a usage.
pub proof fn law_end_reports_the_reason_and_the_usage(
    t: TransformerView,
    seq: Option<u64>,
    usage: Option<upstream::UpstreamUsage>,
)
    ensures
        ({
            let chunks = event_chunks(t, seq, EventView::ResponseCompleted { usage });
            let choice = json::array_field(chunks[0], "choices"@)->0[0];
            &&& chunks.len() == 1
            &&& json::field(chunks[0], "usage"@) is Some
            &&& json::text_field(choice, "finish_reason"@) == Some(
                if t.saw_tool_calls {
                    "tool_calls"@
                } else {
                    "stop"@
                },
            )
        }),
{
    reveal_strlit("choices");
    reveal_strlit("usage");
    reveal_strlit("created");
    reveal_strlit("model");
    reveal_strlit("id");
    reveal_strlit("object");
    reveal_strlit("finish_reason");
    reveal_strlit("delta");
    reveal_strlit("index");
    assert("choices"@.len() == 7 && "choices"@[1] == 'h');
    assert("created"@.len() == 7 && "created"@[1] == 'r');
    assert("usage"@.len() == 5 && "usage"@[0] == 'u');
    assert("model"@.len() == 5 && "model"@[0] == 'm');
    assert("index"@.len() == 5 && "index"@[0] == 'i');
    assert("delta"@.len() == 5 && "delta"@[0] == 'd');
    assert("id"@.len() == 2);
    assert("object"@.len() == 6);
    assert("finish_reason"@.len() == 13);
}

} // verus!
