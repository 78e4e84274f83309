//! Chat-completion chunks as the OpenAI API streams them.
use crate::json;
use crate::json::Json;
use crate::json::JsonView;
use crate::text;
use vstd::prelude::*;

verus! {

/// One streamed chunk.
#[derive(Debug)]
pub struct ChatCompletionChunk {
    pub id: String,
    pub created: Option<u64>,
    pub model: String,
    pub choices: Vec<ChunkChoice>,
    pub usage: Option<Usage>,
}

#[derive(Debug)]
pub struct ChunkChoice {
    pub index: u32,
    pub delta: ChunkDelta,
    pub finish_reason: Option<&'static str>,
}

/// What a chunk adds to the message.
#[derive(Debug)]
pub struct ChunkDelta {
    pub role: Option<&'static str>,
    pub content: Option<String>,
    pub reasoning_content: Option<String>,
    pub tool_calls: Option<Vec<ToolCallDelta>>,
}

/// What a chunk adds to one tool call.
#[derive(Debug)]
pub struct ToolCallDelta {
    pub index: usize,
    pub id: Option<String>,
    pub call_type: Option<&'static str>,
    pub function: Option<FunctionDelta>,
}

#[derive(Debug)]
pub struct FunctionDelta {
    pub name: Option<String>,
    pub arguments: Option<String>,
}

/// Token counts of a finished response.
#[derive(Debug)]
pub struct Usage {
    pub prompt_tokens: i64,
    pub completion_tokens: i64,
    pub total_tokens: i64,
    /// Absent means unknown, not zero.
    pub prompt_tokens_details: Option<PromptTokensDetails>,
    /// Absent means unknown, not zero.
    pub completion_tokens_details: Option<CompletionTokensDetails>,
}

#[derive(Debug)]
pub struct PromptTokensDetails {
    pub cached_tokens: i64,
}

#[derive(Debug)]
pub struct CompletionTokensDetails {
    pub reasoning_tokens: i64,
}

/// The members of a chunk and of what it holds, in the order in which they are
/// written: that of the fields of each type.
pub open spec fn member_order() -> Seq<Seq<char>> {
    seq![
        "index"@,
        "id"@,
        "object"@,
        "created"@,
        "model"@,
        "choices"@,
        "delta"@,
        "finish_reason"@,
        "usage"@,
        "role"@,
        "content"@,
        "reasoning_content"@,
        "tool_calls"@,
        "type"@,
        "function"@,
        "name"@,
        "arguments"@,
        "prompt_tokens"@,
        "completion_tokens"@,
        "total_tokens"@,
        "prompt_tokens_details"@,
        "completion_tokens_details"@,
        "cached_tokens"@,
        "reasoning_tokens"@,
    ]
}

/// The members of a chunk and of what it holds, in the order in which they are
/// written.
pub fn members_in_order() -> (r: Vec<&'static str>)
    ensures
        text::slices(r@) == member_order(),
{
    let mut r: Vec<&'static str> = Vec::new();
    r.push("index");
    r.push("id");
    r.push("object");
    r.push("created");
    r.push("model");
    r.push("choices");
    r.push("delta");
    r.push("finish_reason");
    r.push("usage");
    r.push("role");
    r.push("content");
    r.push("reasoning_content");
    r.push("tool_calls");
    r.push("type");
    r.push("function");
    r.push("name");
    r.push("arguments");
    r.push("prompt_tokens");
    r.push("completion_tokens");
    r.push("total_tokens");
    r.push("prompt_tokens_details");
    r.push("completion_tokens_details");
    r.push("cached_tokens");
    r.push("reasoning_tokens");
    proof {
        assert(text::slices(r@) =~= member_order());
    }
    r
}

/// The sum of two counts, which wraps around where it does not fit.
pub open spec fn wrapped_sum(a: i64, b: i64) -> i64 {
    if a + b > i64::MAX {
        (a + b - 0x1_0000_0000_0000_0000) as i64
    } else if a + b < i64::MIN {
        (a + b + 0x1_0000_0000_0000_0000) as i64
    } else {
        (a + b) as i64
    }
}

/// An integer as a JSON value.
pub open spec fn int_json(n: int) -> JsonView {
    JsonView::Num(json::NumView::Int(n))
}

/// An optional text as a JSON value.
pub open spec fn text_or_null(t: Option<Seq<char>>) -> JsonView {
    match t {
        Some(s) => JsonView::Text(s),
        None => JsonView::Null,
    }
}

/// `m` with a member where there is a value for it.
pub open spec fn with_some(
    m: Map<Seq<char>, JsonView>,
    key: Seq<char>,
    x: Option<JsonView>,
) -> Map<Seq<char>, JsonView> {
    match x {
        Some(v) => m.insert(key, v),
        None => m,
    }
}

/// The text behind an optional string.
pub open spec fn text_of(t: Option<String>) -> Option<JsonView> {
    match t {
        Some(s) => Some(JsonView::Text(s@)),
        None => None,
    }
}

/// The text behind an optional string slice.
pub open spec fn slice_text_of(t: Option<&'static str>) -> Option<JsonView> {
    match t {
        Some(s) => Some(JsonView::Text(s@)),
        None => None,
    }
}

/// A JSON object with a member where there is a value for it.
pub fn add_some(j: Json, key: &str, x: Option<Json>) -> (r: Json)
    requires
        j@ is Object,
    ensures
        r@ == JsonView::Object(
            with_some(
                j@->Object_0,
                key@,
                match x {
                    Some(v) => Some(v@),
                    None => None,
                },
            ),
        ),
{
    match x {
        Some(v) => j.with(key, v),
        None => j,
    }
}

/// An optional string as an optional JSON value.
pub fn text_json(t: &Option<String>) -> (r: Option<Json>)
    ensures
        match r {
            Some(j) => text_of(*t) == Some(j@),
            None => text_of(*t) is None,
        },
{
    match t {
        Some(s) => Some(Json::text(s.as_str())),
        None => None,
    }
}

/// An optional string slice as an optional JSON value.
pub fn slice_json(t: &Option<&'static str>) -> (r: Option<Json>)
    ensures
        match r {
            Some(j) => slice_text_of(*t) == Some(j@),
            None => slice_text_of(*t) is None,
        },
{
    match t {
        Some(s) => Some(Json::text(s)),
        None => None,
    }
}

impl FunctionDelta {
    /// The JSON object of the delta.
    pub open spec fn json(&self) -> JsonView {
        JsonView::Object(
            with_some(
                with_some(Map::empty(), "name"@, text_of(self.name)),
                "arguments"@,
                text_of(self.arguments),
            ),
        )
    }

    /// The JSON object of the delta.
    pub fn to_json(&self) -> (r: Json)
        ensures
            r@ == self.json(),
    {
        add_some(
            add_some(Json::object(), "name", text_json(&self.name)),
            "arguments",
            text_json(&self.arguments),
        )
    }
}

impl ToolCallDelta {
    /// The JSON object of the delta.
    pub open spec fn json(&self) -> JsonView {
        JsonView::Object(
            with_some(
                with_some(
                    with_some(
                        map!["index"@ => int_json(self.index as int)],
                        "id"@,
                        text_of(self.id),
                    ),
                    "type"@,
                    slice_text_of(self.call_type),
                ),
                "function"@,
                match self.function {
                    Some(f) => Some(f.json()),
                    None => None,
                },
            ),
        )
    }

    /// The JSON object of the delta.
    pub fn to_json(&self) -> (r: Json)
        ensures
            r@ == self.json(),
    {
        let function: Option<Json> = match &self.function {
            Some(f) => Some(f.to_json()),
            None => None,
        };
        add_some(
            add_some(
                add_some(
                    Json::object().with("index", Json::unsigned(self.index as u64)),
                    "id",
                    text_json(&self.id),
                ),
                "type",
                slice_json(&self.call_type),
            ),
            "function",
            function,
        )
    }
}

/// The JSON objects of tool-call deltas.
pub open spec fn tool_calls_json(calls: Seq<ToolCallDelta>) -> Seq<JsonView> {
    calls.map_values(|c: ToolCallDelta| c.json())
}

impl ChunkDelta {
    /// A delta that adds nothing.
    pub open spec fn none() -> ChunkDelta {
        ChunkDelta { role: None, content: None, reasoning_content: None, tool_calls: None }
    }

    /// The JSON object of the delta.
    pub open spec fn json(&self) -> JsonView {
        JsonView::Object(
            with_some(
                with_some(
                    with_some(
                        with_some(Map::empty(), "role"@, slice_text_of(self.role)),
                        "content"@,
                        text_of(self.content),
                    ),
                    "reasoning_content"@,
                    text_of(self.reasoning_content),
                ),
                "tool_calls"@,
                match self.tool_calls {
                    Some(calls) => Some(JsonView::Array(tool_calls_json(calls@))),
                    None => None,
                },
            ),
        )
    }

    /// The JSON object of the delta.
    pub fn to_json(&self) -> (r: Json)
        ensures
            r@ == self.json(),
    {
        let calls: Option<Json> = match &self.tool_calls {
            Some(calls) => {
                let mut out: Vec<Json> = Vec::new();
                let mut i: usize = 0;
                while i < calls.len()
                    invariant
                        i <= calls@.len(),
                        json::items(out@) == tool_calls_json(calls@).take(i as int),
                    decreases calls@.len() - i,
                {
                    let ghost before = json::items(out@);
                    let j = calls[i].to_json();
                    out.push(j);
                    proof {
                        let whole = tool_calls_json(calls@);
                        assert(whole[i as int] == j@);
                        assert(json::items(out@) =~= before.push(j@));
                        assert(whole.take(i + 1) =~= whole.take(i as int).push(whole[i as int]));
                    }
                    i += 1;
                }
                proof {
                    let whole = tool_calls_json(calls@);
                    assert(whole.take(whole.len() as int) =~= whole);
                }
                Some(Json::Array(out))
            },
            None => None,
        };
        add_some(
            add_some(
                add_some(
                    add_some(Json::object(), "role", slice_json(&self.role)),
                    "content",
                    text_json(&self.content),
                ),
                "reasoning_content",
                text_json(&self.reasoning_content),
            ),
            "tool_calls",
            calls,
        )
    }
}

impl Default for ChunkDelta {
    /// A delta that adds nothing.
    fn default() -> (r: Self)
        ensures
            r == ChunkDelta::none(),
    {
        ChunkDelta { role: None, content: None, reasoning_content: None, tool_calls: None }
    }
}

impl ChunkChoice {
    /// The JSON object of the choice.
    pub open spec fn json(&self) -> JsonView {
        JsonView::Object(
            map![
                "index"@ => int_json(self.index as int),
                "delta"@ => self.delta.json(),
                "finish_reason"@ => match self.finish_reason {
                    Some(f) => JsonView::Text(f@),
                    None => JsonView::Null,
                },
            ],
        )
    }

    /// The JSON object of the choice.
    pub fn to_json(&self) -> (r: Json)
        ensures
            r@ == self.json(),
    {
        let finish: Json = match self.finish_reason {
            Some(f) => Json::text(f),
            None => Json::Null,
        };
        Json::object().with("index", Json::unsigned(self.index as u64)).with(
            "delta",
            self.delta.to_json(),
        ).with("finish_reason", finish)
    }
}

impl Usage {
    /// Counts without details; the total is the sum.
    pub fn new(prompt_tokens: i64, completion_tokens: i64) -> (r: Self)
        ensures
            r == Usage::counts(
                prompt_tokens,
                completion_tokens,
                wrapped_sum(prompt_tokens, completion_tokens),
            ),
    {
        Self::with_total(prompt_tokens, completion_tokens, None)
    }

    /// Counts without details.
    pub open spec fn counts(prompt: i64, completion: i64, total: i64) -> Usage {
        Usage {
            prompt_tokens: prompt,
            completion_tokens: completion,
            total_tokens: total,
            prompt_tokens_details: None,
            completion_tokens_details: None,
        }
    }

    /// Counts without details, with the total where it is known, else the sum.
    pub fn with_total(prompt_tokens: i64, completion_tokens: i64, total: Option<i64>) -> (r: Self)
        ensures
            r == Usage::counts(
                prompt_tokens,
                completion_tokens,
                match total {
                    Some(t) => t,
                    None => wrapped_sum(prompt_tokens, completion_tokens),
                },
            ),
    {
        let total_tokens: i64 = match total {
            Some(t) => t,
            None => prompt_tokens.wrapping_add(completion_tokens),
        };
        Usage {
            prompt_tokens,
            completion_tokens,
            total_tokens,
            prompt_tokens_details: None,
            completion_tokens_details: None,
        }
    }

    /// The JSON object of the counts.
    pub open spec fn json(&self) -> JsonView {
        JsonView::Object(
            with_some(
                with_some(
                    map![
                        "prompt_tokens"@ => int_json(self.prompt_tokens as int),
                        "completion_tokens"@ => int_json(self.completion_tokens as int),
                        "total_tokens"@ => int_json(self.total_tokens as int),
                    ],
                    "prompt_tokens_details"@,
                    match self.prompt_tokens_details {
                        Some(d) => Some(
                            JsonView::Object(
                                map!["cached_tokens"@ => int_json(d.cached_tokens as int)],
                            ),
                        ),
                        None => None,
                    },
                ),
                "completion_tokens_details"@,
                match self.completion_tokens_details {
                    Some(d) => Some(
                        JsonView::Object(
                            map!["reasoning_tokens"@ => int_json(d.reasoning_tokens as int)],
                        ),
                    ),
                    None => None,
                },
            ),
        )
    }

    /// The JSON object of the counts.
    pub fn to_json(&self) -> (r: Json)
        ensures
            r@ == self.json(),
    {
        let prompt: Option<Json> = match &self.prompt_tokens_details {
            Some(d) => Some(Json::object().with("cached_tokens", Json::integer(d.cached_tokens))),
            None => None,
        };
        let completion: Option<Json> = match &self.completion_tokens_details {
            Some(d) => Some(
                Json::object().with("reasoning_tokens", Json::integer(d.reasoning_tokens)),
            ),
            None => None,
        };
        let counts = Json::object().with("prompt_tokens", Json::integer(self.prompt_tokens)).with(
            "completion_tokens",
            Json::integer(self.completion_tokens),
        ).with("total_tokens", Json::integer(self.total_tokens));
        add_some(
            add_some(counts, "prompt_tokens_details", prompt),
            "completion_tokens_details",
            completion,
        )
    }
}

/// The JSON objects of choices.
pub open spec fn choices_json(choices: Seq<ChunkChoice>) -> Seq<JsonView> {
    choices.map_values(|c: ChunkChoice| c.json())
}

/// A chunk as a JSON value.
pub open spec fn chunk_json(
    id: Seq<char>,
    model: Seq<char>,
    created: Option<u64>,
    choices: Seq<JsonView>,
    usage: Option<JsonView>,
) -> JsonView {
    JsonView::Object(
        with_some(
            map![
                "id"@ => JsonView::Text(id),
                "object"@ => JsonView::Text("chat.completion.chunk"@),
                "created"@ => match created {
                    Some(n) => int_json(n as int),
                    None => JsonView::Null,
                },
                "model"@ => JsonView::Text(model),
                "choices"@ => JsonView::Array(choices),
            ],
            "usage"@,
            usage,
        ),
    )
}

impl ChatCompletionChunk {
    /// The JSON object of the chunk.
    pub open spec fn json(&self) -> JsonView {
        chunk_json(
            self.id@,
            self.model@,
            self.created,
            choices_json(self.choices@),
            match self.usage {
                Some(u) => Some(u.json()),
                None => None,
            },
        )
    }

    /// The JSON object of the chunk.
    pub fn to_json(&self) -> (r: Json)
        ensures
            r@ == self.json(),
    {
        let mut choices: Vec<Json> = Vec::new();
        let mut i: usize = 0;
        while i < self.choices.len()
            invariant
                i <= self.choices@.len(),
                json::items(choices@) == choices_json(self.choices@).take(i as int),
            decreases self.choices@.len() - i,
        {
            let ghost before = json::items(choices@);
            let j = self.choices[i].to_json();
            choices.push(j);
            proof {
                let whole = choices_json(self.choices@);
                assert(whole[i as int] == j@);
                assert(json::items(choices@) =~= before.push(j@));
                assert(whole.take(i + 1) =~= whole.take(i as int).push(whole[i as int]));
            }
            i += 1;
        }
        proof {
            let whole = choices_json(self.choices@);
            assert(whole.take(whole.len() as int) =~= whole);
        }
        let created: Json = match self.created {
            Some(n) => Json::unsigned(n),
            None => Json::Null,
        };
        let usage: Option<Json> = match &self.usage {
            Some(u) => Some(u.to_json()),
            None => None,
        };
        let chunk = Json::object().with("id", Json::text(self.id.as_str())).with(
            "object",
            Json::text("chat.completion.chunk"),
        ).with("created", created).with("model", Json::text(self.model.as_str())).with(
            "choices",
            Json::Array(choices),
        );
        add_some(chunk, "usage", usage)
    }
}

} // verus!
