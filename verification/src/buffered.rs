//! Responses to clients that do not stream.
//!
//! [`buffer_chat_completion`] gathers the chunks of a backend stream into one
//! `chat.completion` object; [`buffer_responses_response`] finds the response
//! object that ends a Responses stream.
use crate::bytes;
use crate::clock;
use crate::json;
use crate::json::Json;
use crate::json::JsonView;
use crate::sse;
use crate::sse::ReaderView;
use crate::sse::SseEventReader;
use crate::text;
use crate::transform;
use crate::transform::openai;
use crate::transform::Outcome;
use crate::transform::SSETransformer;
use crate::transform::TransformError;
use crate::transform::TransformResult;
use crate::transform::TransformerView;
use std::time::SystemTime;
use vstd::prelude::*;

pub mod laws;

verus! {

/// Why a stream could not be gathered.
#[derive(Debug)]
pub enum BufferError {
    /// The upstream could not be read.
    Read(String),
    /// An event could not be transformed.
    Transform(TransformError),
    /// A Responses stream ended without its final event; with the last `error`
    /// event, if there was one.
    MissingTerminalEvent { upstream_error: Option<Json> },
}

impl BufferError {
    /// The message of the error.
    pub open spec fn text(&self) -> Seq<char> {
        match self {
            BufferError::Read(m) => "error scanning SSE stream: "@ + m@,
            BufferError::Transform(e) => "failed to transform SSE event: "@ + e.text(),
            BufferError::MissingTerminalEvent { upstream_error } => {
                "responses stream ended without a terminal response event"@ + (
                match upstream_error {
                    Some(j) => " (last upstream error: "@ + json::json_text(j@) + ")"@,
                    None => Seq::empty(),
                })
            },
        }
    }

    /// The message of the error. It shows the upstream's own error, the only
    /// trace that a truncated stream leaves.
    pub fn message(&self) -> (r: String)
        ensures
            r@ == self.text(),
    {
        match self {
            BufferError::Read(m) => {
                let mut out: String = "error scanning SSE stream: ".to_owned();
                out.append(m.as_str());
                out
            },
            BufferError::Transform(e) => {
                let mut out: String = "failed to transform SSE event: ".to_owned();
                out.append(e.message().as_str());
                out
            },
            BufferError::MissingTerminalEvent { upstream_error } => {
                let mut out: String =
                    "responses stream ended without a terminal response event".to_owned();
                let ghost start = out@;
                match upstream_error {
                    Some(j) => {
                        out.append(" (last upstream error: ");
                        out.append(j.to_text().as_str());
                        out.append(")");
                        proof {
                            assert(out@ =~= start + (" (last upstream error: "@ + json::json_text(
                                j@,
                            ) + ")"@));
                        }
                    },
                    None => {
                        proof {
                            assert(out@ + Seq::<char>::empty() =~= out@);
                        }
                    },
                }
                out
            },
        }
    }
}

/// A text that may be absent or `null`; `None` on the outside where it is
/// anything else.
pub open spec fn optional_text(v: JsonView, key: Seq<char>) -> Option<Option<Seq<char>>> {
    match json::field(v, key) {
        None => Some(None),
        Some(JsonView::Null) => Some(None),
        Some(JsonView::Text(t)) => Some(Some(t)),
        Some(_) => None,
    }
}

/// A text that may be absent.
fn read_optional_text(v: &Json, key: &str) -> (r: Option<Option<String>>)
    ensures
        match r {
            Some(Some(t)) => optional_text(v@, key@) == Some(Some(t@)),
            Some(None) => optional_text(v@, key@) == Some(None::<Seq<char>>),
            None => optional_text(v@, key@) is None,
        },
{
    match v.get(key) {
        None => Some(None),
        Some(Json::Null) => Some(None),
        Some(Json::Text(t)) => Some(Some(t.clone())),
        Some(_) => None,
    }
}

/// A text that is empty where it is absent; `None` where it is no text.
pub open spec fn plain_text(v: JsonView, key: Seq<char>) -> Option<Seq<char>> {
    match json::field(v, key) {
        None => Some(Seq::empty()),
        Some(JsonView::Text(t)) => Some(t),
        Some(_) => None,
    }
}

/// A text that is empty where it is absent.
fn read_plain_text(v: &Json, key: &str) -> (r: Option<String>)
    ensures
        match r {
            Some(t) => plain_text(v@, key@) == Some(t@),
            None => plain_text(v@, key@) is None,
        },
{
    match v.get(key) {
        None => Some(String::new()),
        Some(Json::Text(t)) => Some(t.clone()),
        Some(_) => None,
    }
}

/// What a chunk adds to one tool call.
pub struct CallDelta {
    pub index: usize,
    pub id: Option<Seq<char>>,
    pub name: Option<Seq<char>>,
    pub arguments: Option<Seq<char>>,
}

/// What a chunk adds to a choice.
pub struct ChoiceDelta {
    pub role: Option<Seq<char>>,
    pub content: Option<Seq<char>>,
    pub reasoning_content: Option<Seq<char>>,
    pub finish_reason: Option<Seq<char>>,
    pub tool_calls: Seq<CallDelta>,
}

/// The name and arguments of a `function` object; `None` where it has the
/// wrong form.
pub open spec fn function_of(v: Option<JsonView>) -> Option<(Option<Seq<char>>, Option<Seq<char>>)> {
    match v {
        None => Some((None, None)),
        Some(JsonView::Null) => Some((None, None)),
        Some(JsonView::Object(m)) => match optional_text(JsonView::Object(m), "name"@) {
            None => None,
            Some(name) => match optional_text(JsonView::Object(m), "arguments"@) {
                None => None,
                Some(arguments) => Some((name, arguments)),
            },
        },
        Some(_) => None,
    }
}

/// A tool-call delta; `None` where it has the wrong form.
pub open spec fn call_of(v: JsonView) -> Option<CallDelta> {
    match json::field(v, "index"@) {
        Some(JsonView::Num(n)) => match json::num_u64(n) {
            Some(k) => if k <= usize::MAX {
                match optional_text(v, "id"@) {
                    None => None,
                    Some(id) => match optional_text(v, "type"@) {
                        None => None,
                        Some(_) => match function_of(json::field(v, "function"@)) {
                            None => None,
                            Some(f) => Some(
                                CallDelta { index: k as usize, id, name: f.0, arguments: f.1 },
                            ),
                        },
                    },
                }
            } else {
                None
            },
            None => None,
        },
        _ => None,
    }
}

/// Tool-call deltas; `None` where one has the wrong form.
pub open spec fn calls_of(s: Seq<JsonView>) -> Option<Seq<CallDelta>>
    decreases s.len(),
{
    if s.len() == 0 {
        Some(Seq::empty())
    } else {
        match calls_of(s.drop_last()) {
            None => None,
            Some(before) => match call_of(s.last()) {
                None => None,
                Some(c) => Some(before.push(c)),
            },
        }
    }
}

/// The tool-call deltas of a delta.
pub open spec fn delta_calls(delta: JsonView) -> Option<Seq<CallDelta>> {
    match json::field(delta, "tool_calls"@) {
        None => Some(Seq::empty()),
        Some(JsonView::Null) => Some(Seq::empty()),
        Some(JsonView::Array(a)) => calls_of(a),
        Some(_) => None,
    }
}

/// A choice of a chunk; `None` where it has the wrong form.
pub open spec fn choice_of(v: JsonView) -> Option<ChoiceDelta> {
    let delta = match json::field(v, "delta"@) {
        None => JsonView::Object(Map::empty()),
        Some(d) => d,
    };
    if !(v is Object) || !(delta is Object) {
        None
    } else {
        match optional_text(delta, "role"@) {
            None => None,
            Some(role) => match optional_text(delta, "content"@) {
                None => None,
                Some(content) => match optional_text(delta, "reasoning_content"@) {
                    None => None,
                    Some(reasoning_content) => match delta_calls(delta) {
                        None => None,
                        Some(tool_calls) => match optional_text(v, "finish_reason"@) {
                            None => None,
                            Some(finish_reason) => Some(
                                ChoiceDelta {
                                    role,
                                    content,
                                    reasoning_content,
                                    finish_reason,
                                    tool_calls,
                                },
                            ),
                        },
                    },
                },
            },
        }
    }
}

/// The choices of a chunk; `None` where one has the wrong form.
pub open spec fn choices_of(s: Seq<JsonView>) -> Option<Seq<ChoiceDelta>>
    decreases s.len(),
{
    if s.len() == 0 {
        Some(Seq::empty())
    } else {
        match choices_of(s.drop_last()) {
            None => None,
            Some(before) => match choice_of(s.last()) {
                None => None,
                Some(c) => Some(before.push(c)),
            },
        }
    }
}

/// A chunk as the gatherer reads it.
pub struct ChunkRead {
    pub id: Seq<char>,
    pub created: i64,
    pub model: Seq<char>,
    pub choices: Seq<ChoiceDelta>,
    pub usage: Option<JsonView>,
}

/// The time of a chunk: zero where it is absent; `None` where it is no integer
/// that fits `i64`.
pub open spec fn created_of(v: JsonView) -> Option<i64> {
    match json::field(v, "created"@) {
        None => Some(0i64),
        Some(JsonView::Num(n)) => json::num_i64(n),
        Some(_) => None,
    }
}

/// The choices of a chunk; `None` where they have the wrong form.
pub open spec fn chunk_choices(v: JsonView) -> Option<Seq<ChoiceDelta>> {
    match json::field(v, "choices"@) {
        None => Some(Seq::empty()),
        Some(JsonView::Array(a)) => choices_of(a),
        Some(_) => None,
    }
}

/// The counts of a chunk.
pub open spec fn chunk_usage(v: JsonView) -> Option<JsonView> {
    match json::field(v, "usage"@) {
        None => None,
        Some(JsonView::Null) => None,
        Some(u) => Some(u),
    }
}

/// A chunk; `None` where it has the wrong form.
pub open spec fn chunk_of(v: JsonView) -> Option<ChunkRead> {
    if !(v is Object) {
        None
    } else {
        match plain_text(v, "id"@) {
            None => None,
            Some(id) => match created_of(v) {
                None => None,
                Some(created) => match plain_text(v, "model"@) {
                    None => None,
                    Some(model) => match chunk_choices(v) {
                        None => None,
                        Some(choices) => Some(
                            ChunkRead { id, created, model, choices, usage: chunk_usage(v) },
                        ),
                    },
                },
            },
        }
    }
}

/// A tool call as far as it is gathered.
pub struct CallView {
    pub index: usize,
    pub id: Seq<char>,
    pub name: Seq<char>,
    pub arguments: Seq<char>,
}

/// What was gathered so far.
pub struct GatheredView {
    pub id: Seq<char>,
    pub model: Seq<char>,
    pub created: i64,
    pub role: Seq<char>,
    pub content: Seq<char>,
    pub reasoning_content: Seq<char>,
    pub finish_reason: Seq<char>,
    pub tool_calls: Seq<CallView>,
    pub usage: Option<JsonView>,
}

/// A text that is kept once it is not empty.
pub open spec fn first_filled(now: Seq<char>, next: Option<Seq<char>>) -> Seq<char> {
    match next {
        Some(t) => if now.len() == 0 {
            t
        } else {
            now
        },
        None => now,
    }
}

/// A text that a later one replaces unless that is empty.
pub open spec fn last_filled(now: Seq<char>, next: Option<Seq<char>>) -> Seq<char> {
    match next {
        Some(t) => if t.len() > 0 {
            t
        } else {
            now
        },
        None => now,
    }
}

/// A text with another appended.
pub open spec fn appended(now: Seq<char>, next: Option<Seq<char>>) -> Seq<char> {
    match next {
        Some(t) => now + t,
        None => now,
    }
}

/// A tool call with a delta added.
pub open spec fn with_delta(c: CallView, d: CallDelta) -> CallView {
    CallView {
        index: c.index,
        id: last_filled(c.id, d.id),
        name: last_filled(c.name, d.name),
        arguments: appended(c.arguments, d.arguments),
    }
}

/// A tool call of which nothing is known.
pub open spec fn empty_call(index: usize) -> CallView {
    CallView { index, id: Seq::empty(), name: Seq::empty(), arguments: Seq::empty() }
}

/// The calls, in the order of their indexes, with a delta added to the one
/// with its index.
pub open spec fn with_call(calls: Seq<CallView>, d: CallDelta) -> Seq<CallView>
    decreases calls.len(),
{
    if calls.len() == 0 || calls[0].index > d.index {
        seq![with_delta(empty_call(d.index), d)] + calls
    } else if calls[0].index == d.index {
        seq![with_delta(calls[0], d)] + calls.skip(1)
    } else {
        seq![calls[0]] + with_call(calls.skip(1), d)
    }
}

/// The calls with several deltas added.
pub open spec fn with_calls(calls: Seq<CallView>, deltas: Seq<CallDelta>) -> Seq<CallView>
    decreases deltas.len(),
{
    if deltas.len() == 0 {
        calls
    } else {
        with_call(with_calls(calls, deltas.drop_last()), deltas.last())
    }
}

/// What is gathered with a choice added.
pub open spec fn with_choice(g: GatheredView, c: ChoiceDelta) -> GatheredView {
    GatheredView {
        role: first_filled(g.role, c.role),
        content: appended(g.content, c.content),
        reasoning_content: appended(g.reasoning_content, c.reasoning_content),
        finish_reason: last_filled(g.finish_reason, c.finish_reason),
        tool_calls: with_calls(g.tool_calls, c.tool_calls),
        ..g
    }
}

/// What is gathered with several choices added.
pub open spec fn with_choices(g: GatheredView, cs: Seq<ChoiceDelta>) -> GatheredView
    decreases cs.len(),
{
    if cs.len() == 0 {
        g
    } else {
        with_choice(with_choices(g, cs.drop_last()), cs.last())
    }
}

/// What is gathered with a chunk added: the first id, model and time that are
/// not empty stay, the last counts count.
pub open spec fn with_chunk(g: GatheredView, v: JsonView) -> GatheredView {
    match chunk_of(v) {
        None => g,
        Some(c) => with_choices(
            GatheredView {
                id: first_filled(g.id, Some(c.id)),
                model: first_filled(g.model, Some(c.model)),
                created: if g.created == 0 {
                    c.created
                } else {
                    g.created
                },
                usage: match c.usage {
                    Some(u) => Some(u),
                    None => g.usage,
                },
                ..g
            },
            c.choices,
        ),
    }
}

/// What is gathered with several chunks added.
pub open spec fn with_chunks(g: GatheredView, vs: Seq<JsonView>) -> GatheredView
    decreases vs.len(),
{
    if vs.len() == 0 {
        g
    } else {
        with_chunk(with_chunks(g, vs.drop_last()), vs.last())
    }
}

/// Nothing gathered.
pub open spec fn nothing() -> GatheredView {
    GatheredView {
        id: Seq::empty(),
        model: Seq::empty(),
        created: 0,
        role: Seq::empty(),
        content: Seq::empty(),
        reasoning_content: Seq::empty(),
        finish_reason: Seq::empty(),
        tool_calls: Seq::empty(),
        usage: None,
    }
}

/// The text behind an optional string.
pub open spec fn opt_text(o: Option<String>) -> Option<Seq<char>> {
    match o {
        Some(t) => Some(t@),
        None => None,
    }
}

/// What a chunk adds to one tool call.
#[derive(Debug)]
struct StreamingToolCall {
    index: usize,
    id: Option<String>,
    name: Option<String>,
    arguments: Option<String>,
}

/// What a chunk adds to a choice.
#[derive(Debug)]
struct StreamingChoice {
    role: Option<String>,
    content: Option<String>,
    reasoning_content: Option<String>,
    finish_reason: Option<String>,
    tool_calls: Vec<StreamingToolCall>,
}

/// A chunk as the gatherer reads it.
#[derive(Debug)]
struct StreamingChunk {
    id: String,
    created: i64,
    model: String,
    choices: Vec<StreamingChoice>,
    usage: Option<Json>,
}

impl StreamingToolCall {
    spec fn view(&self) -> CallDelta {
        CallDelta {
            index: self.index,
            id: opt_text(self.id),
            name: opt_text(self.name),
            arguments: opt_text(self.arguments),
        }
    }
}

spec fn call_views(v: Seq<StreamingToolCall>) -> Seq<CallDelta> {
    v.map_values(|c: StreamingToolCall| c@)
}

impl StreamingChoice {
    spec fn view(&self) -> ChoiceDelta {
        ChoiceDelta {
            role: opt_text(self.role),
            content: opt_text(self.content),
            reasoning_content: opt_text(self.reasoning_content),
            finish_reason: opt_text(self.finish_reason),
            tool_calls: call_views(self.tool_calls@),
        }
    }
}

spec fn choice_views(v: Seq<StreamingChoice>) -> Seq<ChoiceDelta> {
    v.map_values(|c: StreamingChoice| c@)
}

impl StreamingChunk {
    spec fn view(&self) -> ChunkRead {
        ChunkRead {
            id: self.id@,
            created: self.created,
            model: self.model@,
            choices: choice_views(self.choices@),
            usage: match self.usage {
                Some(u) => Some(u@),
                None => None,
            },
        }
    }
}

/// The name and arguments of a `function` object.
fn read_function(v: Option<&Json>) -> (r: Option<(Option<String>, Option<String>)>)
    ensures
        match r {
            Some((n, a)) => function_of(crate::request::seen(v)) == Some((opt_text(n), opt_text(a))),
            None => function_of(crate::request::seen(v)) is None,
        },
{
    match v {
        None => Some((None, None)),
        Some(Json::Null) => Some((None, None)),
        Some(f) => if f.is_object() {
            match read_optional_text(f, "name") {
                None => None,
                Some(name) => match read_optional_text(f, "arguments") {
                    None => None,
                    Some(arguments) => Some((name, arguments)),
                },
            }
        } else {
            None
        },
    }
}

/// A tool-call delta.
fn read_call(v: &Json) -> (r: Option<StreamingToolCall>)
    ensures
        match r {
            Some(c) => call_of(v@) == Some(c@),
            None => call_of(v@) is None,
        },
{
    let index: usize = match v.get("index") {
        Some(Json::Num(n)) => match n.as_u64() {
            Some(k) => if k <= usize::MAX as u64 {
                k as usize
            } else {
                return None;
            },
            None => {
                return None;
            },
        },
        _ => {
            return None;
        },
    };
    let id: Option<String> = match read_optional_text(v, "id") {
        Some(t) => t,
        None => {
            return None;
        },
    };
    match read_optional_text(v, "type") {
        Some(_) => {},
        None => {
            return None;
        },
    }
    match read_function(v.get("function")) {
        Some((name, arguments)) => Some(StreamingToolCall { index, id, name, arguments }),
        None => None,
    }
}

/// A form that fails on a part fails on the whole.
proof fn lemma_calls_fail(s: Seq<JsonView>, i: int)
    requires
        0 <= i <= s.len(),
        calls_of(s.take(i)) is None,
    ensures
        calls_of(s) is None,
    decreases s.len() - i,
{
    if i < s.len() {
        assert(s.take(i + 1).drop_last() =~= s.take(i));
        lemma_calls_fail(s, i + 1);
    } else {
        assert(s.take(i) =~= s);
    }
}

proof fn lemma_choices_fail(s: Seq<JsonView>, i: int)
    requires
        0 <= i <= s.len(),
        choices_of(s.take(i)) is None,
    ensures
        choices_of(s) is None,
    decreases s.len() - i,
{
    if i < s.len() {
        assert(s.take(i + 1).drop_last() =~= s.take(i));
        lemma_choices_fail(s, i + 1);
    } else {
        assert(s.take(i) =~= s);
    }
}

/// Tool-call deltas.
fn read_calls(a: &Vec<Json>) -> (r: Option<Vec<StreamingToolCall>>)
    ensures
        match r {
            Some(v) => calls_of(json::items(a@)) == Some(call_views(v@)),
            None => calls_of(json::items(a@)) is None,
        },
{
    let ghost all = json::items(a@);
    let mut out: Vec<StreamingToolCall> = Vec::new();
    let mut i: usize = 0;
    proof {
        assert(call_views(out@) =~= Seq::<CallDelta>::empty());
    }
    while i < a.len()
        invariant
            i <= a@.len(),
            all == json::items(a@),
            calls_of(all.take(i as int)) == Some(call_views(out@)),
        decreases a@.len() - i,
    {
        let ghost before = call_views(out@);
        proof {
            assert(all.take(i + 1).drop_last() =~= all.take(i as int));
            assert(all.take(i + 1).last() == a@[i as int]@);
        }
        match read_call(&a[i]) {
            Some(c) => {
                out.push(c);
                proof {
                    assert(call_views(out@) =~= before.push(c@));
                }
            },
            None => {
                proof {
                    lemma_calls_fail(all, i + 1);
                }
                return None;
            },
        }
        i += 1;
    }
    proof {
        assert(all.take(i as int) =~= all);
    }
    Some(out)
}

/// The tool-call deltas of a delta.
fn read_delta_calls(delta: &Json) -> (r: Option<Vec<StreamingToolCall>>)
    ensures
        match r {
            Some(v) => delta_calls(delta@) == Some(call_views(v@)),
            None => delta_calls(delta@) is None,
        },
{
    match delta.get("tool_calls") {
        Some(Json::Array(a)) => read_calls(a),
        Some(Json::Null) | None => {
            let v: Vec<StreamingToolCall> = Vec::new();
            proof {
                assert(call_views(v@) =~= Seq::<CallDelta>::empty());
            }
            Some(v)
        },
        Some(_) => None,
    }
}

/// A choice of a chunk.
fn read_choice(v: &Json) -> (r: Option<StreamingChoice>)
    ensures
        match r {
            Some(c) => choice_of(v@) == Some(c@),
            None => choice_of(v@) is None,
        },
{
    let empty: Json = Json::object();
    let delta: &Json = match v.get("delta") {
        Some(d) => d,
        None => &empty,
    };
    if !v.is_object() || !delta.is_object() {
        return None;
    }
    let role: Option<String> = match read_optional_text(delta, "role") {
        Some(t) => t,
        None => {
            return None;
        },
    };
    let content: Option<String> = match read_optional_text(delta, "content") {
        Some(t) => t,
        None => {
            return None;
        },
    };
    let reasoning_content: Option<String> = match read_optional_text(delta, "reasoning_content") {
        Some(t) => t,
        None => {
            return None;
        },
    };
    let tool_calls: Vec<StreamingToolCall> = match read_delta_calls(delta) {
        Some(c) => c,
        None => {
            return None;
        },
    };
    match read_optional_text(v, "finish_reason") {
        Some(finish_reason) => Some(
            StreamingChoice { role, content, reasoning_content, finish_reason, tool_calls },
        ),
        None => None,
    }
}

/// The choices of a chunk.
fn read_choices(a: &Vec<Json>) -> (r: Option<Vec<StreamingChoice>>)
    ensures
        match r {
            Some(v) => choices_of(json::items(a@)) == Some(choice_views(v@)),
            None => choices_of(json::items(a@)) is None,
        },
{
    let ghost all = json::items(a@);
    let mut out: Vec<StreamingChoice> = Vec::new();
    let mut i: usize = 0;
    proof {
        assert(choice_views(out@) =~= Seq::<ChoiceDelta>::empty());
    }
    while i < a.len()
        invariant
            i <= a@.len(),
            all == json::items(a@),
            choices_of(all.take(i as int)) == Some(choice_views(out@)),
        decreases a@.len() - i,
    {
        let ghost before = choice_views(out@);
        proof {
            assert(all.take(i + 1).drop_last() =~= all.take(i as int));
            assert(all.take(i + 1).last() == a@[i as int]@);
        }
        match read_choice(&a[i]) {
            Some(c) => {
                out.push(c);
                proof {
                    assert(choice_views(out@) =~= before.push(c@));
                }
            },
            None => {
                proof {
                    lemma_choices_fail(all, i + 1);
                }
                return None;
            },
        }
        i += 1;
    }
    proof {
        assert(all.take(i as int) =~= all);
    }
    Some(out)
}

/// A chunk.
fn read_chunk(v: &Json) -> (r: Option<StreamingChunk>)
    ensures
        match r {
            Some(c) => chunk_of(v@) == Some(c@),
            None => chunk_of(v@) is None,
        },
{
    if !v.is_object() {
        return None;
    }
    let id: String = match read_plain_text(v, "id") {
        Some(t) => t,
        None => {
            return None;
        },
    };
    let created: i64 = match v.get("created") {
        None => 0,
        Some(Json::Num(n)) => match n.as_i64() {
            Some(k) => k,
            None => {
                return None;
            },
        },
        Some(_) => {
            return None;
        },
    };
    let model: String = match read_plain_text(v, "model") {
        Some(t) => t,
        None => {
            return None;
        },
    };
    let choices: Vec<StreamingChoice> = match v.get("choices") {
        None => {
            let none: Vec<StreamingChoice> = Vec::new();
            proof {
                assert(choice_views(none@) =~= Seq::<ChoiceDelta>::empty());
            }
            none
        },
        Some(Json::Array(a)) => match read_choices(a) {
            Some(c) => c,
            None => {
                return None;
            },
        },
        Some(_) => {
            return None;
        },
    };
    let usage: Option<Json> = match v.get("usage") {
        None => None,
        Some(Json::Null) => None,
        Some(u) => Some(u.clone()),
    };
    Some(StreamingChunk { id, created, model, choices, usage })
}

/// A tool call as far as it is gathered.
#[derive(Debug)]
pub struct ToolCallAccumulator {
    pub index: usize,
    pub id: String,
    pub name: String,
    pub arguments: String,
}

impl ToolCallAccumulator {
    /// The call in mathematical form.
    pub open spec fn view(&self) -> CallView {
        CallView {
            index: self.index,
            id: self.id@,
            name: self.name@,
            arguments: self.arguments@,
        }
    }
}

/// Calls in mathematical form.
pub open spec fn acc_views(v: Seq<ToolCallAccumulator>) -> Seq<CallView> {
    v.map_values(|c: ToolCallAccumulator| c@)
}

/// What was gathered so far.
#[derive(Debug)]
pub struct Gathered {
    pub id: String,
    pub model: String,
    pub created: i64,
    pub role: String,
    pub content: String,
    pub reasoning_content: String,
    pub finish_reason: String,
    pub tool_calls: Vec<ToolCallAccumulator>,
    pub usage: Option<Json>,
}

impl Gathered {
    /// What was gathered, in mathematical form.
    pub open spec fn view(&self) -> GatheredView {
        GatheredView {
            id: self.id@,
            model: self.model@,
            created: self.created,
            role: self.role@,
            content: self.content@,
            reasoning_content: self.reasoning_content@,
            finish_reason: self.finish_reason@,
            tool_calls: acc_views(self.tool_calls@),
            usage: match self.usage {
                Some(u) => Some(u@),
                None => None,
            },
        }
    }

    /// Nothing yet.
    pub fn new() -> (r: Self)
        ensures
            r@ == nothing(),
    {
        let r = Gathered {
            id: String::new(),
            model: String::new(),
            created: 0,
            role: String::new(),
            content: String::new(),
            reasoning_content: String::new(),
            finish_reason: String::new(),
            tool_calls: Vec::new(),
            usage: None,
        };
        proof {
            assert(acc_views(r.tool_calls@) =~= Seq::<CallView>::empty());
        }
        r
    }
}

/// Adds a delta to a tool call.
fn merge_call(acc: &mut ToolCallAccumulator, d: StreamingToolCall)
    ensures
        final(acc)@ == with_delta(old(acc)@, d@),
{
    match d.id {
        Some(t) => if !t.as_str().is_empty() {
            acc.id = t;
        },
        None => {},
    }
    match d.name {
        Some(t) => if !t.as_str().is_empty() {
            acc.name = t;
        },
        None => {},
    }
    match d.arguments {
        Some(t) => acc.arguments.append(t.as_str()),
        None => {},
    }
}

/// Where the calls before position `i` have smaller indexes, a delta goes to
/// what follows.
proof fn lemma_with_call_at(calls: Seq<CallView>, d: CallDelta, i: int)
    requires
        0 <= i <= calls.len(),
        forall|j: int| 0 <= j < i ==> (#[trigger] calls[j]).index < d.index,
    ensures
        with_call(calls, d) == calls.take(i) + with_call(calls.skip(i), d),
    decreases i,
{
    if i == 0 {
        assert(calls.skip(0) =~= calls);
        assert(calls.take(0) + with_call(calls, d) =~= with_call(calls, d));
    } else {
        let rest = calls.skip(1);
        assert(calls[0].index < d.index);
        assert forall|j: int| 0 <= j < i - 1 implies (#[trigger] rest[j]).index < d.index by {
            assert(rest[j] == calls[j + 1]);
        }
        lemma_with_call_at(rest, d, i - 1);
        assert(rest.skip(i - 1) =~= calls.skip(i));
        assert(seq![calls[0]] + (rest.take(i - 1) + with_call(calls.skip(i), d)) =~= calls.take(i)
            + with_call(calls.skip(i), d));
    }
}

/// Adds a delta to the call with its index.
fn merge_delta(calls: &mut Vec<ToolCallAccumulator>, d: StreamingToolCall)
    ensures
        acc_views(final(calls)@) == with_call(acc_views(old(calls)@), d@),
{
    let ghost before = acc_views(calls@);
    let ghost dv = d@;
    let mut i: usize = 0;
    while i < calls.len() && calls[i].index < d.index
        invariant
            i <= calls@.len(),
            before == acc_views(calls@),
            dv == d@,
            forall|j: int| 0 <= j < i ==> (#[trigger] before[j]).index < dv.index,
        decreases calls@.len() - i,
    {
        proof {
            assert(before[i as int] == calls@[i as int]@);
        }
        i += 1;
    }
    proof {
        lemma_with_call_at(before, dv, i as int);
    }
    if i < calls.len() && calls[i].index == d.index {
        proof {
            assert(before.skip(i as int)[0] == calls@[i as int]@);
            assert(before.skip(i as int).skip(1) =~= before.skip(i + 1));
        }
        let mut acc: ToolCallAccumulator = calls.remove(i);
        merge_call(&mut acc, d);
        calls.insert(i, acc);
        proof {
            assert(acc_views(calls@) =~= before.take(i as int) + (seq![acc@] + before.skip(i + 1)));
        }
    } else {
        proof {
            if i < calls@.len() {
                assert(before.skip(i as int)[0] == calls@[i as int]@);
            }
        }
        let mut acc = ToolCallAccumulator {
            index: d.index,
            id: String::new(),
            name: String::new(),
            arguments: String::new(),
        };
        merge_call(&mut acc, d);
        calls.insert(i, acc);
        proof {
            assert(acc_views(calls@) =~= before.take(i as int) + (seq![acc@] + before.skip(
                i as int,
            )));
        }
    }
}

/// Adds deltas to the calls.
fn merge_deltas(calls: &mut Vec<ToolCallAccumulator>, deltas: Vec<StreamingToolCall>)
    ensures
        acc_views(final(calls)@) == with_calls(acc_views(old(calls)@), call_views(deltas@)),
{
    let ghost start = acc_views(calls@);
    let ghost all = call_views(deltas@);
    let ghost list = deltas@;
    proof {
        assert(start == with_calls(start, all.take(0)));
    }
    for d in it: deltas
        invariant
            it.seq() == list,
            all == call_views(list),
            acc_views(calls@) == with_calls(start, all.take(it.index())),
    {
        proof {
            assert(all.take(it.index() + 1).drop_last() =~= all.take(it.index()));
            assert(all.take(it.index() + 1).last() == d@);
        }
        merge_delta(calls, d);
    }
    proof {
        assert(all.take(all.len() as int) =~= all);
    }
}

/// Adds a choice to what is gathered.
fn merge_choice(g: &mut Gathered, c: StreamingChoice)
    ensures
        final(g)@ == with_choice(old(g)@, c@),
{
    match c.role {
        Some(t) => if g.role.as_str().is_empty() {
            g.role = t;
        },
        None => {},
    }
    match c.content {
        Some(t) => g.content.append(t.as_str()),
        None => {},
    }
    match c.reasoning_content {
        Some(t) => g.reasoning_content.append(t.as_str()),
        None => {},
    }
    match c.finish_reason {
        Some(t) => if !t.as_str().is_empty() {
            g.finish_reason = t;
        },
        None => {},
    }
    merge_deltas(&mut g.tool_calls, c.tool_calls);
}

/// Adds choices to what is gathered.
fn merge_choices(g: &mut Gathered, choices: Vec<StreamingChoice>)
    ensures
        final(g)@ == with_choices(old(g)@, choice_views(choices@)),
{
    let ghost start = g@;
    let ghost all = choice_views(choices@);
    let ghost list = choices@;
    proof {
        assert(start == with_choices(start, all.take(0)));
    }
    for c in it: choices
        invariant
            it.seq() == list,
            all == choice_views(list),
            g@ == with_choices(start, all.take(it.index())),
    {
        proof {
            assert(all.take(it.index() + 1).drop_last() =~= all.take(it.index()));
            assert(all.take(it.index() + 1).last() == c@);
        }
        merge_choice(g, c);
    }
    proof {
        assert(all.take(all.len() as int) =~= all);
    }
}

/// Adds a chunk to what is gathered; one of the wrong form is skipped.
pub fn merge_chunk(g: &mut Gathered, v: &Json)
    ensures
        final(g)@ == with_chunk(old(g)@, v@),
{
    match read_chunk(v) {
        None => {},
        Some(c) => {
            if g.id.as_str().is_empty() {
                g.id = c.id;
            }
            if g.model.as_str().is_empty() {
                g.model = c.model;
            }
            if g.created == 0 {
                g.created = c.created;
            }
            match c.usage {
                Some(u) => {
                    g.usage = Some(u);
                },
                None => {},
            }
            merge_choices(g, c.choices);
        },
    }
}

/// Adds the chunks of one event to what is gathered.
fn merge_frames(g: &mut Gathered, frames: &Vec<Vec<u8>>, chunks: Ghost<Seq<JsonView>>)
    requires
        transform::good_frames(frames@, chunks@),
    ensures
        final(g)@ == with_chunks(old(g)@, chunks@),
{
    let ghost start = g@;
    let ghost all = chunks@;
    let mut i: usize = 0;
    proof {
        assert(start == with_chunks(start, all.take(0)));
    }
    while i < frames.len()
        invariant
            i <= frames@.len(),
            all == chunks@,
            transform::good_frames(frames@, chunks@),
            g@ == with_chunks(start, all.take(i as int)),
        decreases frames@.len() - i,
    {
        proof {
            assert(transform::good_frame(frames@[i as int], chunks@[i as int]));
            assert(all.take(i + 1).drop_last() =~= all.take(i as int));
            assert(all.take(i + 1).last() == chunks@[i as int]);
        }
        match json::parse(frames[i].as_slice()) {
            Ok(v) => merge_chunk(g, &v),
            Err(_) => {},
        }
        i += 1;
    }
    proof {
        assert(all.take(i as int) =~= all);
    }
}

/// What events add to what is gathered, or the message of the first that is
/// invalid. The sentinel does not end the stream.
pub open spec fn gather(t: TransformerView, g: GatheredView, events: Seq<Seq<u8>>) -> Result<
    GatheredView,
    Seq<char>,
>
    decreases events.len(),
{
    if events.len() == 0 {
        Ok(g)
    } else {
        match transform::outcome(t, events[0]) {
            Outcome::Invalid(m) => Err(m),
            Outcome::Emitted(chunks) => gather(
                transform::after_data(t, events[0]),
                with_chunks(g, chunks),
                events.skip(1),
            ),
            _ => gather(transform::after_data(t, events[0]), g, events.skip(1)),
        }
    }
}

/// `now` where it is not empty, else the default.
pub open spec fn or_default(now: Seq<char>, default: Seq<char>) -> Seq<char> {
    if now.len() == 0 {
        default
    } else {
        now
    }
}

/// The tool calls of a message.
pub open spec fn calls_json(calls: Seq<CallView>) -> Seq<JsonView> {
    calls.map_values(|c: CallView| call_json(c))
}

/// A tool call of a message.
pub open spec fn call_json(c: CallView) -> JsonView {
    JsonView::Object(
        map![
            "id"@ => JsonView::Text(c.id),
            "type"@ => JsonView::Text("function"@),
            "function"@ => JsonView::Object(
                map![
                    "name"@ => JsonView::Text(c.name),
                    "arguments"@ => JsonView::Text(c.arguments),
                ],
            ),
        ],
    )
}

/// The message of a completion.
pub open spec fn message_json(g: GatheredView) -> JsonView {
    let base = map![
        "role"@ => JsonView::Text(or_default(g.role, "assistant"@)),
        "content"@ => JsonView::Text(g.content),
    ];
    let with_calls = if g.tool_calls.len() > 0 {
        base.insert("tool_calls"@, JsonView::Array(calls_json(g.tool_calls)))
    } else {
        base
    };
    JsonView::Object(
        if g.reasoning_content.len() > 0 {
            with_calls.insert("reasoning_content"@, JsonView::Text(g.reasoning_content))
        } else {
            with_calls
        },
    )
}

/// The completion that was gathered, with defaults for what no chunk brought.
pub open spec fn completion(g: GatheredView, model: Seq<char>, now: i64) -> JsonView {
    let base = map![
        "id"@ => JsonView::Text(or_default(g.id, "chatcmpl-buffered"@)),
        "object"@ => JsonView::Text("chat.completion"@),
        "created"@ => openai::int_json(
            if g.created == 0 {
                now as int
            } else {
                g.created as int
            },
        ),
        "model"@ => JsonView::Text(or_default(g.model, model)),
        "choices"@ => JsonView::Array(
            seq![
                JsonView::Object(
                    map![
                        "index"@ => openai::int_json(0),
                        "message"@ => message_json(g),
                        "finish_reason"@ => JsonView::Text(or_default(g.finish_reason, "stop"@)),
                    ],
                ),
            ],
        ),
    ];
    JsonView::Object(openai::with_some(base, "usage"@, g.usage))
}

/// A text, or the default where it is empty.
fn text_or_default(t: &String, default: &str) -> (r: Json)
    ensures
        r@ == JsonView::Text(or_default(t@, default@)),
{
    if t.as_str().is_empty() {
        Json::text(default)
    } else {
        Json::text(t.as_str())
    }
}

/// The tool calls of a message.
fn make_calls(calls: &Vec<ToolCallAccumulator>) -> (r: Json)
    ensures
        r@ == JsonView::Array(calls_json(acc_views(calls@))),
{
    let ghost whole = calls_json(acc_views(calls@));
    let mut out: Vec<Json> = Vec::new();
    let mut i: usize = 0;
    while i < calls.len()
        invariant
            i <= calls@.len(),
            whole == calls_json(acc_views(calls@)),
            json::items(out@) == whole.take(i as int),
        decreases calls@.len() - i,
    {
        let ghost before = json::items(out@);
        let function = Json::object().with("name", Json::text(calls[i].name.as_str())).with(
            "arguments",
            Json::text(calls[i].arguments.as_str()),
        );
        let j = Json::object().with("id", Json::text(calls[i].id.as_str())).with(
            "type",
            Json::text("function"),
        ).with("function", function);
        out.push(j);
        proof {
            assert(whole[i as int] == call_json(calls@[i as int]@));
            assert(json::items(out@) =~= before.push(j@));
            assert(whole.take(i + 1) =~= whole.take(i as int).push(whole[i as int]));
        }
        i += 1;
    }
    proof {
        assert(whole.take(whole.len() as int) =~= whole);
    }
    Json::Array(out)
}

/// The completion that was gathered.
pub fn make_completion(g: Gathered, model: &str, now: i64) -> (r: Json)
    ensures
        r@ == completion(g@, model@, now),
{
    let mut message = Json::object().with("role", text_or_default(&g.role, "assistant")).with(
        "content",
        Json::text(g.content.as_str()),
    );
    proof {
        assert(acc_views(g.tool_calls@).len() == g.tool_calls@.len());
    }
    if g.tool_calls.len() > 0 {
        message = message.with("tool_calls", make_calls(&g.tool_calls));
    }
    if !g.reasoning_content.as_str().is_empty() {
        message = message.with("reasoning_content", Json::text(g.reasoning_content.as_str()));
    }
    let choice = Json::object().with("index", Json::integer(0)).with("message", message).with(
        "finish_reason",
        text_or_default(&g.finish_reason, "stop"),
    );
    let created: i64 = if g.created == 0 {
        now
    } else {
        g.created
    };
    let response = Json::object().with("id", text_or_default(&g.id, "chatcmpl-buffered")).with(
        "object",
        Json::text("chat.completion"),
    ).with("created", Json::integer(created)).with("model", text_or_default(&g.model, model)).with(
        "choices",
        Json::single(choice),
    );
    openai::add_some(response, "usage", g.usage)
}

/// The completion of a whole upstream: where no chunk brings a time, it is
/// `now`, seconds since the Unix epoch.
pub fn buffer_chat_completion_at(upstream: &[u8], model: &str, now: i64) -> (r: Result<
    Json,
    BufferError,
>)
    ensures
        match gather(transform::fresh(model@), nothing(), sse::stream_events(upstream@)) {
            Ok(g) => r matches Ok(j) && j@ == completion(g, model@, now),
            Err(m) => r matches Err(BufferError::Transform(TransformError::InvalidJson(t))) && t@
                == m,
        },
{
    let mut reader = SseEventReader::new();
    let mut events: Vec<Vec<u8>> = reader.feed(upstream);
    let ghost fed = bytes::views(events@);
    match reader.finish() {
        Some(e) => {
            events.push(e);
            proof {
                assert(bytes::views(events@) =~= fed.push(e@));
                assert(fed.push(e@) =~= fed + seq![e@]);
            }
        },
        None => {
            proof {
                assert(fed + Seq::<Seq<u8>>::empty() =~= fed);
            }
        },
    }
    let ghost all = sse::stream_events(upstream@);
    proof {
        assert(bytes::views(events@) =~= all);
    }
    let mut transformer = SSETransformer::new(model);
    let mut g = Gathered::new();
    let ghost whole = gather(transform::fresh(model@), nothing(), all);
    let mut i: usize = 0;
    proof {
        assert(all.skip(0) =~= all);
    }
    while i < events.len()
        invariant
            i <= events@.len(),
            all == bytes::views(events@),
            whole == gather(transform::fresh(model@), nothing(), sse::stream_events(upstream@)),
            whole == gather(transformer@, g@, all.skip(i as int)),
        decreases events@.len() - i,
    {
        let ghost t = transformer@;
        proof {
            assert(all.skip(i as int)[0] == events@[i as int]@);
            assert(all.skip(i as int).skip(1) =~= all.skip(i + 1));
        }
        match transformer.transform(events[i].as_slice()) {
            Ok(TransformResult::Emitted(frames)) => {
                let ghost chunks = transform::outcome(t, events@[i as int]@)->Emitted_0;
                merge_frames(&mut g, &frames, Ghost(chunks));
            },
            Ok(TransformResult::Done) => {},
            Ok(TransformResult::Swallowed) => {},
            Err(e) => {
                return Err(BufferError::Transform(e));
            },
        }
        i += 1;
    }
    Ok(make_completion(g, model, now))
}

/// The completion of a whole upstream. Where no chunk brings a time, the
/// present is taken from the system clock.
pub fn buffer_chat_completion(upstream: &[u8], model: &str) -> (r: Result<Json, BufferError>)
    ensures
        match gather(transform::fresh(model@), nothing(), sse::stream_events(upstream@)) {
            Ok(g) => r matches Ok(j) && exists|t: SystemTime|
                j@ == completion(g, model@, #[trigger] clock::seconds(t)),
            Err(m) => r matches Err(BufferError::Transform(TransformError::InvalidJson(t))) && t@
                == m,
        },
{
    let now: i64 = clock::now_secs();
    buffer_chat_completion_at(upstream, model, now)
}

/// The event types that carry the final response.
pub const RESPONSES_TERMINAL_EVENTS: [&'static str; 3] = [
    "response.completed",
    "response.failed",
    "response.incomplete",
];

/// The type of an event, empty where it has none.
pub open spec fn event_type(v: JsonView) -> Seq<char> {
    match json::text_field(v, "type"@) {
        Some(t) => t,
        None => Seq::empty(),
    }
}

/// The response that an event carries, where it is a final one.
pub open spec fn final_response(v: JsonView) -> Option<JsonView> {
    let t = event_type(v);
    if t == "response.completed"@ || t == "response.failed"@ || t == "response.incomplete"@ {
        json::object_field(v, "response"@)
    } else {
        None
    }
}

/// The response of the first final event among events, or the last `error`
/// event where there is no final one. What is no JSON is skipped.
pub open spec fn find_response(events: Seq<Seq<u8>>, last_error: Option<JsonView>) -> Result<
    JsonView,
    Option<JsonView>,
>
    decreases events.len(),
{
    if events.len() == 0 {
        Err(last_error)
    } else {
        match json::json_parse(events[0]) {
            Err(m) => find_response(events.skip(1), last_error),
            Ok(v) => if event_type(v) == "error"@ {
                find_response(events.skip(1), Some(v))
            } else {
                match final_response(v) {
                    Some(response) => Ok(response),
                    None => find_response(events.skip(1), last_error),
                }
            },
        }
    }
}

/// The response that an event carries, where it is a final one.
pub fn read_final_response(v: &Json) -> (r: Option<Json>)
    ensures
        match r {
            Some(j) => final_response(v@) == Some(j@),
            None => final_response(v@) is None,
        },
{
    let t: &str = match v.get_str("type") {
        Some(t) => t,
        None => "",
    };
    proof {
        reveal_strlit("");
        assert(""@ =~= Seq::<char>::empty());
    }
    if text::same(t, RESPONSES_TERMINAL_EVENTS[0]) || text::same(t, RESPONSES_TERMINAL_EVENTS[1])
        || text::same(t, RESPONSES_TERMINAL_EVENTS[2]) {
        match v.get_object("response") {
            Some(j) => Some(j.clone()),
            None => None,
        }
    } else {
        None
    }
}

/// Searching two runs of events is searching the second where the first holds
/// no final event.
proof fn lemma_search_in_two(a: Seq<Seq<u8>>, b: Seq<Seq<u8>>, last_error: Option<JsonView>)
    ensures
        find_response(a + b, last_error) == match find_response(a, last_error) {
            Ok(response) => Ok(response),
            Err(e) => find_response(b, e),
        },
    decreases a.len(),
{
    if a.len() == 0 {
        assert(a + b =~= b);
    } else {
        assert((a + b).skip(1) =~= a.skip(1) + b);
        match json::json_parse(a[0]) {
            Err(m) => lemma_search_in_two(a.skip(1), b, last_error),
            Ok(v) => if event_type(v) == "error"@ {
                lemma_search_in_two(a.skip(1), b, Some(v));
            } else {
                lemma_search_in_two(a.skip(1), b, last_error);
            },
        }
    }
}

/// Looks for the final response in a stream that arrives in pieces.
pub struct ResponseFinder {
    pub reader: SseEventReader,
    /// The last `error` event so far.
    pub upstream_error: Option<Json>,
}

/// What a search has come to.
pub enum Search {
    /// The final response is there: the rest of the stream is not needed.
    Found(Json),
    Open(ResponseFinder),
}

/// Where a search stands after `events`, with a reader that is then at `reader`.
pub open spec fn search_result(
    events: Seq<Seq<u8>>,
    last_error: Option<JsonView>,
    reader: ReaderView,
    r: Search,
) -> bool {
    match find_response(events, last_error) {
        Ok(response) => r matches Search::Found(j) && j@ == response,
        Err(e) => r matches Search::Open(f) && f.reader@ == reader && f.last_error() == e,
    }
}

impl ResponseFinder {
    /// The last `error` event so far, in mathematical form.
    pub open spec fn last_error(&self) -> Option<JsonView> {
        match self.upstream_error {
            Some(j) => Some(j@),
            None => None,
        }
    }

    /// A search that has seen nothing.
    pub fn new() -> (r: Self)
        ensures
            r.reader@ == sse::fresh(),
            r.last_error() is None,
    {
        ResponseFinder { reader: SseEventReader::new(), upstream_error: None }
    }

    /// Searches events.
    fn look(self, events: Vec<Vec<u8>>) -> (r: Search)
        ensures
            search_result(bytes::views(events@), self.last_error(), self.reader@, r),
    {
        let ghost all = bytes::views(events@);
        let ghost found = find_response(all, self.last_error());
        let ghost at = self.reader@;
        let mut finder = self;
        let mut i: usize = 0;
        proof {
            assert(all.skip(0) =~= all);
            reveal_strlit("error");
        }
        while i < events.len()
            invariant
                i <= events@.len(),
                all == bytes::views(events@),
                "error"@.len() == 5,
                finder.reader@ == at,
                found == find_response(all, self.last_error()),
                at == self.reader@,
                found == find_response(all.skip(i as int), finder.last_error()),
            decreases events@.len() - i,
        {
            proof {
                assert(all.skip(i as int)[0] == events@[i as int]@);
                assert(all.skip(i as int).skip(1) =~= all.skip(i + 1));
            }
            match json::parse(events[i].as_slice()) {
                Err(_) => {},
                Ok(v) => {
                    let is_error: bool = match v.get_str("type") {
                        Some(t) => text::same(t, "error"),
                        None => false,
                    };
                    if is_error {
                        finder.upstream_error = Some(v);
                    } else {
                        match read_final_response(&v) {
                            Some(response) => {
                                return Search::Found(response);
                            },
                            None => {},
                        }
                    }
                },
            }
            i += 1;
        }
        Search::Open(finder)
    }

    /// Searches the next piece of the stream.
    pub fn feed(self, input: &[u8]) -> (r: Search)
        ensures
            search_result(
                sse::read_events(self.reader@, input@),
                self.last_error(),
                sse::read_all(self.reader@, input@),
                r,
            ),
    {
        let mut finder = self;
        let events: Vec<Vec<u8>> = finder.reader.feed(input);
        finder.look(events)
    }

    /// Ends the stream.
    pub fn finish(self) -> (r: Result<Json, BufferError>)
        ensures
            response_result(
                find_response(sse::last_event(self.reader@), self.last_error()),
                r,
            ),
    {
        let mut finder = self;
        let mut events: Vec<Vec<u8>> = Vec::new();
        match finder.reader.finish() {
            Some(e) => {
                events.push(e);
                proof {
                    assert(bytes::views(events@) =~= seq![e@]);
                }
            },
            None => {
                proof {
                    assert(bytes::views(events@) =~= Seq::<Seq<u8>>::empty());
                }
            },
        }
        match finder.look(events) {
            Search::Found(response) => Ok(response),
            Search::Open(f) => Err(
                BufferError::MissingTerminalEvent { upstream_error: f.upstream_error },
            ),
        }
    }
}

/// What a whole stream gives: the final response, or an error that carries the
/// last `error` event.
pub open spec fn response_result(
    found: Result<JsonView, Option<JsonView>>,
    r: Result<Json, BufferError>,
) -> bool {
    match found {
        Ok(response) => r matches Ok(j) && j@ == response,
        Err(None) => r matches Err(BufferError::MissingTerminalEvent { upstream_error: None }),
        Err(Some(e)) => r matches Err(
            BufferError::MissingTerminalEvent { upstream_error: Some(j) },
        ) && j@ == e,
    }
}

/// The response object of a whole Responses stream. `response.failed` and
/// `response.incomplete` are responses too: their body tells of the failure.
pub fn buffer_responses_response(upstream: &[u8]) -> (r: Result<Json, BufferError>)
    ensures
        response_result(find_response(sse::stream_events(upstream@), None), r),
{
    proof {
        lemma_search_in_two(
            sse::read_events(sse::fresh(), upstream@),
            sse::last_event(sse::read_all(sse::fresh(), upstream@)),
            None,
        );
    }
    match ResponseFinder::new().feed(upstream) {
        Search::Found(response) => Ok(response),
        Search::Open(finder) => finder.finish(),
    }
}

/// Searching two pieces of a stream one after the other finds what searching
/// them as one finds, and once the response is found nothing that follows
/// changes it.
pub proof fn law_searching_in_pieces(
    r: ReaderView,
    last_error: Option<JsonView>,
    a: Seq<u8>,
    b: Seq<u8>,
)
    ensures
        find_response(sse::read_events(r, a + b), last_error) == match find_response(
            sse::read_events(r, a),
            last_error,
        ) {
            Ok(response) => Ok(response),
            Err(e) => find_response(sse::read_events(sse::read_all(r, a), b), e),
        },
{
    sse::law_reading_in_pieces(r, a, b);
    lemma_search_in_two(
        sse::read_events(r, a),
        sse::read_events(sse::read_all(r, a), b),
        last_error,
    );
}

/// The member names of a chunk, told apart by length and first letters.
proof fn reveal_chunk_names()
    ensures
        "id"@.len() == 2 && "id"@[0] == 'i' && "id"@[1] == 'd',
        "object"@.len() == 6 && "object"@[0] == 'o' && "object"@[1] == 'b',
        "created"@.len() == 7 && "created"@[0] == 'c' && "created"@[1] == 'r',
        "model"@.len() == 5 && "model"@[0] == 'm' && "model"@[1] == 'o',
        "choices"@.len() == 7 && "choices"@[0] == 'c' && "choices"@[1] == 'h',
        "usage"@.len() == 5 && "usage"@[0] == 'u' && "usage"@[1] == 's',
        "index"@.len() == 5 && "index"@[0] == 'i' && "index"@[1] == 'n',
        "delta"@.len() == 5 && "delta"@[0] == 'd' && "delta"@[1] == 'e',
        "finish_reason"@.len() == 13 && "finish_reason"@[0] == 'f' && "finish_reason"@[1] == 'i',
        "role"@.len() == 4 && "role"@[0] == 'r' && "role"@[1] == 'o',
        "content"@.len() == 7 && "content"@[0] == 'c' && "content"@[1] == 'o',
        "reasoning_content"@.len() == 17 && "reasoning_content"@[0] == 'r' && "reasoning_content"@[1] == 'e',
        "tool_calls"@.len() == 10 && "tool_calls"@[0] == 't' && "tool_calls"@[1] == 'o',
        "type"@.len() == 4 && "type"@[0] == 't' && "type"@[1] == 'y',
        "function"@.len() == 8 && "function"@[0] == 'f' && "function"@[1] == 'u',
        "name"@.len() == 4 && "name"@[0] == 'n' && "name"@[1] == 'a',
        "arguments"@.len() == 9 && "arguments"@[0] == 'a' && "arguments"@[1] == 'r',
{
    reveal_strlit("id");
    reveal_strlit("object");
    reveal_strlit("created");
    reveal_strlit("model");
    reveal_strlit("choices");
    reveal_strlit("usage");
    reveal_strlit("index");
    reveal_strlit("delta");
    reveal_strlit("finish_reason");
    reveal_strlit("role");
    reveal_strlit("content");
    reveal_strlit("reasoning_content");
    reveal_strlit("tool_calls");
    reveal_strlit("type");
    reveal_strlit("function");
    reveal_strlit("name");
    reveal_strlit("arguments");
}

/// How the gatherer reads a chunk of the transformer that has a time.
proof fn lemma_chunk_read(
    t: TransformerView,
    n: u64,
    delta: JsonView,
    finish: Option<Seq<char>>,
    usage: Option<JsonView>,
)
    requires
        n <= i64::MAX,
        delta is Object,
        choice_of(
            JsonView::Object(
                map![
                    "index"@ => openai::int_json(0),
                    "delta"@ => delta,
                    "finish_reason"@ => openai::text_or_null(finish),
                ],
            ),
        ) is Some,
    ensures
        chunk_of(transform::chunk(t, Some(n), delta, finish, usage)) == Some(
            ChunkRead {
                id: t.response_id,
                created: n as i64,
                model: t.model,
                choices: seq![
                    choice_of(
                        JsonView::Object(
                            map![
                                "index"@ => openai::int_json(0),
                                "delta"@ => delta,
                                "finish_reason"@ => openai::text_or_null(finish),
                            ],
                        ),
                    )->0,
                ],
                usage: match usage {
                    Some(u) => if u is Null {
                        None
                    } else {
                        Some(u)
                    },
                    None => None,
                },
            },
        ),
{
    reveal_chunk_names();
    let choice = JsonView::Object(
        map![
            "index"@ => openai::int_json(0),
            "delta"@ => delta,
            "finish_reason"@ => openai::text_or_null(finish),
        ],
    );
    let one = seq![choice];
    assert(one.drop_last() =~= Seq::<JsonView>::empty());
    reveal_with_fuel(choices_of, 2);
    assert(choices_of(one) == Some(Seq::<ChoiceDelta>::empty().push(choice_of(choice)->0)));
    assert(Seq::<ChoiceDelta>::empty().push(choice_of(choice)->0) =~= seq![choice_of(choice)->0]);
}

/// What is gathered apart from the id, the model, the time and the role, which
/// every chunk may bring.
pub open spec fn same_body(a: GatheredView, b: GatheredView) -> bool {
    &&& a.content == b.content
    &&& a.reasoning_content == b.reasoning_content
    &&& a.finish_reason == b.finish_reason
    &&& a.tool_calls == b.tool_calls
    &&& a.usage == b.usage
}

/// A chunk with one text in its delta adds that text where it belongs.
proof fn lemma_text_chunk(t: TransformerView, g: GatheredView, n: u64, key: Seq<char>, x: Seq<char>)
    requires
        n <= i64::MAX,
        key == "role"@ || key == "content"@ || key == "reasoning_content"@,
    ensures
        ({
            let after = with_chunk(
                g,
                transform::chunk(t, Some(n), transform::text_delta(key, x), None, None),
            );
            &&& after.content == (if key == "content"@ {
                g.content + x
            } else {
                g.content
            })
            &&& after.reasoning_content == (if key == "reasoning_content"@ {
                g.reasoning_content + x
            } else {
                g.reasoning_content
            })
            &&& after.finish_reason == g.finish_reason
            &&& after.tool_calls == g.tool_calls
            &&& after.usage == g.usage
        }),
{
    reveal_chunk_names();
    let delta = transform::text_delta(key, x);
    let choice = JsonView::Object(
        map![
            "index"@ => openai::int_json(0),
            "delta"@ => delta,
            "finish_reason"@ => openai::text_or_null(None),
        ],
    );
    assert(json::field(delta, key) == Some(JsonView::Text(x)));
    let c = choice_of(choice);
    assert(c is Some);
    lemma_chunk_read(t, n, delta, None, None);
    let one = seq![c->0];
    assert(one.drop_last() =~= Seq::<ChoiceDelta>::empty());
    reveal_with_fuel(with_choices, 2);
}

/// Chunks in two groups are gathered as chunks in one.
proof fn lemma_chunks_two(g: GatheredView, a: JsonView, b: JsonView)
    ensures
        with_chunks(g, seq![a] + seq![b]) == with_chunk(with_chunk(g, a), b),
        with_chunks(g, seq![a]) == with_chunk(g, a),
{
    reveal_with_fuel(with_chunks, 3);
    assert((seq![a] + seq![b]).drop_last() =~= seq![a]);
    assert(seq![a].drop_last() =~= Seq::<JsonView>::empty());
}

/// A piece of the answer is appended to the content, and nothing else of the
/// message changes.
pub proof fn law_answer_is_appended(t: TransformerView, g: GatheredView, n: u64, delta: Seq<char>)
    requires
        n <= i64::MAX,
    ensures
        ({
            let e = transform::upstream::EventView::OutputTextDelta { delta };
            same_body(
                with_chunks(g, transform::event_chunks(t, Some(n), e)),
                GatheredView { content: g.content + delta, ..g },
            )
        }),
{
    reveal_chunk_names();
    let role = transform::chunk(
        t,
        Some(n),
        transform::text_delta("role"@, "assistant"@),
        None,
        None,
    );
    let last = transform::chunk(t, Some(n), transform::text_delta("content"@, delta), None, None);
    lemma_text_chunk(t, g, n, "role"@, "assistant"@);
    lemma_text_chunk(t, with_chunk(g, role), n, "content"@, delta);
    lemma_text_chunk(t, g, n, "content"@, delta);
    lemma_chunks_two(g, role, last);
    lemma_chunks_two(g, last, last);
}

/// A piece of reasoning is appended to the reasoning, and nothing else of the
/// message changes.
pub proof fn law_reasoning_is_appended(
    t: TransformerView,
    g: GatheredView,
    n: u64,
    content: Seq<char>,
)
    requires
        n <= i64::MAX,
    ensures
        ({
            let e = transform::upstream::EventView::Reasoning { content: Some(content) };
            same_body(
                with_chunks(g, transform::event_chunks(t, Some(n), e)),
                GatheredView { reasoning_content: g.reasoning_content + content, ..g },
            )
        }),
{
    reveal_chunk_names();
    let role = transform::chunk(
        t,
        Some(n),
        transform::text_delta("role"@, "assistant"@),
        None,
        None,
    );
    let last = transform::chunk(
        t,
        Some(n),
        transform::text_delta("reasoning_content"@, content),
        None,
        None,
    );
    lemma_text_chunk(t, g, n, "role"@, "assistant"@);
    lemma_text_chunk(t, with_chunk(g, role), n, "reasoning_content"@, content);
    lemma_text_chunk(t, g, n, "reasoning_content"@, content);
    lemma_chunks_two(g, role, last);
    lemma_chunks_two(g, last, last);
}

/// A chunk with one tool call in its delta adds to that call.
proof fn lemma_call_chunk(
    t: TransformerView,
    g: GatheredView,
    n: u64,
    call: JsonView,
    delta: JsonView,
)
    requires
        n <= i64::MAX,
        delta == JsonView::Object(map!["tool_calls"@ => JsonView::Array(seq![call])]),
        call_of(call) is Some,
    ensures
        same_body(
            with_chunk(g, transform::chunk(t, Some(n), delta, None, None)),
            GatheredView { tool_calls: with_call(g.tool_calls, call_of(call)->0), ..g },
        ),
{
    reveal_chunk_names();
    let d = call_of(call)->0;
    let one = seq![call];
    assert(one.drop_last() =~= Seq::<JsonView>::empty());
    reveal_with_fuel(calls_of, 2);
    assert(calls_of(one) == Some(Seq::<CallDelta>::empty().push(d)));
    let ds = Seq::<CallDelta>::empty().push(d);
    assert(ds.drop_last() =~= Seq::<CallDelta>::empty());
    reveal_with_fuel(with_calls, 2);
    assert(with_calls(g.tool_calls, ds) == with_call(g.tool_calls, d));
    let choice = JsonView::Object(
        map![
            "index"@ => openai::int_json(0),
            "delta"@ => delta,
            "finish_reason"@ => openai::text_or_null(None),
        ],
    );
    assert(json::field(delta, "tool_calls"@) == Some(JsonView::Array(one)));
    let c = choice_of(choice);
    assert(c is Some);
    lemma_chunk_read(t, n, delta, None, None);
    let cs = seq![c->0];
    assert(cs.drop_last() =~= Seq::<ChoiceDelta>::empty());
    reveal_with_fuel(with_choices, 2);
}

/// A piece of the arguments of a tool call is appended to the arguments of the
/// call with its index, and nothing else of the message changes.
pub proof fn law_arguments_are_appended(
    t: TransformerView,
    g: GatheredView,
    n: u64,
    item_id: Seq<char>,
    delta: Seq<char>,
)
    requires
        n <= i64::MAX,
        t.role_sent,
        t.tool_index.dom().contains(item_id),
    ensures
        ({
            let e = transform::upstream::EventView::FunctionCallArgumentsDelta { item_id, delta };
            let d = CallDelta {
                index: t.tool_index[item_id],
                id: None,
                name: None,
                arguments: Some(delta),
            };
            same_body(
                with_chunks(g, transform::event_chunks(t, Some(n), e)),
                GatheredView { tool_calls: with_call(g.tool_calls, d), ..g },
            )
        }),
{
    reveal_chunk_names();
    let index = t.tool_index[item_id];
    let call = JsonView::Object(
        map![
            "index"@ => openai::int_json(index as int),
            "function"@ => JsonView::Object(map!["arguments"@ => JsonView::Text(delta)]),
        ],
    );
    let whole = transform::arguments_delta(index, delta);
    let last = transform::chunk(t, Some(n), whole, None, None);
    assert(call_of(call) is Some);
    lemma_call_chunk(t, g, n, call, whole);
    lemma_chunks_two(g, last, last);
}

/// A tool call that begins is gathered with its id and name, and nothing else
/// of the message changes.
pub proof fn law_call_is_gathered(
    t: TransformerView,
    g: GatheredView,
    n: u64,
    item: transform::upstream::ItemView,
)
    requires
        n <= i64::MAX,
        t.role_sent,
        transform::is_call(item),
    ensures
        ({
            let e = transform::upstream::EventView::OutputItemAdded { item: Some(item) };
            let d = CallDelta {
                index: transform::index_of(t, item.id),
                id: Some(transform::call_id_of(item)),
                name: Some(item.name),
                arguments: Some(Seq::empty()),
            };
            same_body(
                with_chunks(g, transform::event_chunks(t, Some(n), e)),
                GatheredView { tool_calls: with_call(g.tool_calls, d), ..g },
            )
        }),
{
    reveal_chunk_names();
    let index = transform::index_of(t, item.id);
    let call = JsonView::Object(
        map![
            "index"@ => openai::int_json(index as int),
            "id"@ => JsonView::Text(transform::call_id_of(item)),
            "type"@ => JsonView::Text("function"@),
            "function"@ => JsonView::Object(
                map![
                    "name"@ => JsonView::Text(item.name),
                    "arguments"@ => JsonView::Text(Seq::empty()),
                ],
            ),
        ],
    );
    let whole = transform::call_delta(index, transform::call_id_of(item), item.name);
    let last = transform::chunk(t, Some(n), whole, None, None);
    assert(call_of(call) is Some);
    lemma_call_chunk(t, g, n, call, whole);
    lemma_chunks_two(g, last, last);
}

/// The calls stand in the order of their indexes, each index once.
pub open spec fn in_order(calls: Seq<CallView>) -> bool {
    forall|i: int, j: int|
        0 <= i < j < calls.len() ==> (#[trigger] calls[i]).index < (#[trigger] calls[j]).index
}

/// Adding to the calls keeps their order, and all that comes first is the
/// least of what was there and what was added.
pub proof fn law_calls_stay_in_order(calls: Seq<CallView>, d: CallDelta)
    requires
        in_order(calls),
    ensures
        in_order(with_call(calls, d)),
        with_call(calls, d).len() > 0,
        with_call(calls, d)[0].index == (if calls.len() > 0 && calls[0].index < d.index {
            calls[0].index
        } else {
            d.index
        }),
    decreases calls.len(),
{
    if calls.len() == 0 || calls[0].index >= d.index {
        let out = with_call(calls, d);
        assert forall|i: int, j: int| 0 <= i < j < out.len() implies (#[trigger] out[i]).index < (
        #[trigger] out[j]).index by {
            if calls.len() > 0 && calls[0].index == d.index {
                assert(out[j] == calls[j]);
                if i > 0 {
                    assert(out[i] == calls[i]);
                } else {
                    assert(calls[0].index < calls[j].index);
                }
            } else {
                assert(out[j] == calls[j - 1]);
                if i > 0 {
                    assert(out[i] == calls[i - 1]);
                } else if j > 1 {
                    assert(calls[0].index < calls[j - 1].index);
                }
            }
        }
    } else {
        let rest = calls.skip(1);
        assert forall|i: int, j: int| 0 <= i < j < rest.len() implies (#[trigger] rest[i]).index < (
        #[trigger] rest[j]).index by {
            assert(calls[i + 1].index < calls[j + 1].index);
        }
        law_calls_stay_in_order(rest, d);
        let tail = with_call(rest, d);
        let out = with_call(calls, d);
        if rest.len() > 0 {
            assert(calls[0].index < calls[1].index);
        }
        assert forall|i: int, j: int| 0 <= i < j < out.len() implies (#[trigger] out[i]).index < (
        #[trigger] out[j]).index by {
            assert(out[j] == tail[j - 1]);
            if i > 0 {
                assert(out[i] == tail[i - 1]);
            } else if j > 1 {
                assert(tail[0].index < tail[j - 1].index);
            }
        }
    }
}

/// A chunk without a time is not gathered.
pub proof fn law_chunk_without_time_is_skipped(
    t: TransformerView,
    g: GatheredView,
    delta: JsonView,
    finish: Option<Seq<char>>,
    usage: Option<JsonView>,
)
    ensures
        with_chunk(g, transform::chunk(t, None, delta, finish, usage)) == g,
{
    reveal_chunk_names();
}

} // verus!
