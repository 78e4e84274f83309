//! Events of the backend.
//!
//! An event is a JSON object with a `type`. The event families that the
//! transformer handles are read into [`UpstreamEvent`]; a member of the wrong
//! type in one of them makes the event invalid.
use super::openai;
use super::openai::CompletionTokensDetails;
use super::openai::PromptTokensDetails;
use super::openai::Usage;
use crate::json;
use crate::json::Json;
use crate::json::JsonView;
use crate::text;
use vstd::prelude::*;

verus! {

/// An event, as far as the transformer reads it.
#[derive(Debug)]
#[allow(inconsistent_fields)]
pub enum UpstreamEvent {
    /// A new response begins.
    ResponseCreated { sequence_number: Option<u64>, response: CreatedResponse },
    /// A piece of the visible answer.
    OutputTextDelta { sequence_number: Option<u64>, delta: String },
    /// The response is complete.
    ResponseCompleted { sequence_number: Option<u64>, response: CompletedResponse },
    /// An output item begins; `None` where the event carries no item.
    OutputItemAdded { sequence_number: Option<u64>, item: Option<OutputItem> },
    /// A piece of the arguments of a tool call.
    FunctionCallArgumentsDelta { sequence_number: Option<u64>, item_id: String, delta: String },
    /// A reasoning event; `None` where it has no text to show.
    Reasoning { sequence_number: Option<u64>, content: Option<String> },
    /// Any other event.
    Other,
}

#[derive(Debug)]
pub struct CreatedResponse {
    pub id: String,
}

#[derive(Debug)]
pub struct CompletedResponse {
    pub usage: Option<UpstreamUsage>,
}

#[derive(Debug)]
pub struct OutputItem {
    pub item_type: String,
    pub id: String,
    pub call_id: String,
    pub name: String,
}

/// Token counts as the backend reports them: `input_tokens`/`output_tokens` or
/// `prompt_tokens`/`completion_tokens`.
#[derive(Debug)]
pub struct UpstreamUsage {
    pub prompt_tokens: Option<i64>,
    pub completion_tokens: Option<i64>,
    pub input_tokens: Option<i64>,
    pub output_tokens: Option<i64>,
    pub total_tokens: Option<i64>,
    pub cached_tokens: Option<i64>,
    pub reasoning_tokens: Option<i64>,
}

/// The first of two counts that is there, else zero.
pub open spec fn first_count(a: Option<i64>, b: Option<i64>) -> i64 {
    match a {
        Some(n) => n,
        None => match b {
            Some(n) => n,
            None => 0,
        },
    }
}

/// The first of two counts that is there, else zero.
fn pick_count(a: Option<i64>, b: Option<i64>) -> (r: i64)
    ensures
        r == first_count(a, b),
{
    match a {
        Some(n) => n,
        None => match b {
            Some(n) => n,
            None => 0,
        },
    }
}

impl UpstreamUsage {
    /// The prompt and completion counts; a count under its OpenAI name comes
    /// before the one under the backend's name, and an absent count is zero.
    pub fn to_openai(&self) -> (r: (i64, i64))
        ensures
            r.0 == first_count(self.prompt_tokens, self.input_tokens),
            r.1 == first_count(self.completion_tokens, self.output_tokens),
    {
        (
            pick_count(self.prompt_tokens, self.input_tokens),
            pick_count(self.completion_tokens, self.output_tokens),
        )
    }

    /// The counts as the OpenAI API reports them. The backend's total comes
    /// before the sum, and details are there only where they were reported.
    pub open spec fn usage(&self) -> Usage {
        let prompt = first_count(self.prompt_tokens, self.input_tokens);
        let completion = first_count(self.completion_tokens, self.output_tokens);
        Usage {
            prompt_tokens: prompt,
            completion_tokens: completion,
            total_tokens: match self.total_tokens {
                Some(t) => t,
                None => openai::wrapped_sum(prompt, completion),
            },
            prompt_tokens_details: match self.cached_tokens {
                Some(n) => Some(PromptTokensDetails { cached_tokens: n }),
                None => None,
            },
            completion_tokens_details: match self.reasoning_tokens {
                Some(n) => Some(CompletionTokensDetails { reasoning_tokens: n }),
                None => None,
            },
        }
    }

    /// The counts as the OpenAI API reports them.
    pub fn to_usage(&self) -> (r: Usage)
        ensures
            r == self.usage(),
    {
        let (prompt, completion): (i64, i64) = self.to_openai();
        let mut usage = Usage::with_total(prompt, completion, self.total_tokens);
        usage.prompt_tokens_details = match self.cached_tokens {
            Some(n) => Some(PromptTokensDetails { cached_tokens: n }),
            None => None,
        };
        usage.completion_tokens_details = match self.reasoning_tokens {
            Some(n) => Some(CompletionTokensDetails { reasoning_tokens: n }),
            None => None,
        };
        usage
    }
}

/// The message for an event without a member that it has to have.
pub open spec fn missing(name: Seq<char>) -> Seq<char> {
    "missing field `"@ + name + "`"@
}

/// The message for an event with a member that is no object.
pub open spec fn bad_field(name: Seq<char>) -> Seq<char> {
    "invalid field `"@ + name + "`"@
}

/// The message for an event without a member that it has to have.
fn missing_message(name: &str) -> (r: String)
    ensures
        r@ == missing(name@),
{
    let mut out: String = "missing field `".to_owned();
    out.append(name);
    out.append("`");
    out
}

/// The message for an event with a member that is no object.
fn bad_field_message(name: &str) -> (r: String)
    ensures
        r@ == bad_field(name@),
{
    let mut out: String = "invalid field `".to_owned();
    out.append(name);
    out.append("`");
    out
}

/// A text member, empty where it is absent; an error where it is no text.
pub open spec fn default_text(v: JsonView, key: Seq<char>) -> Result<Seq<char>, Seq<char>> {
    match json::field(v, key) {
        None => Ok(Seq::empty()),
        Some(x) => json::as_text(x),
    }
}

/// A count that may be absent or `null`; an error where it is no integer that
/// fits `u64`.
pub open spec fn optional_u64(v: JsonView, key: Seq<char>) -> Result<Option<u64>, Seq<char>> {
    match json::field(v, key) {
        None => Ok(None),
        Some(x) => json::as_unsigned(x),
    }
}

/// A count that may be absent or `null`; an error where it is no integer that
/// fits `i64`.
pub open spec fn optional_i64(v: JsonView, key: Seq<char>) -> Result<Option<i64>, Seq<char>> {
    match json::field(v, key) {
        None => Ok(None),
        Some(x) => json::as_signed(x),
    }
}

/// An object that has to be there.
pub open spec fn required_object(v: JsonView, key: Seq<char>) -> Result<JsonView, Seq<char>> {
    match json::field(v, key) {
        None => Err(missing(key)),
        Some(JsonView::Object(m)) => Ok(JsonView::Object(m)),
        Some(_) => Err(bad_field(key)),
    }
}

/// An object that may be absent or `null`; an error where it is anything else.
pub open spec fn optional_object(v: JsonView, key: Seq<char>) -> Result<
    Option<JsonView>,
    Seq<char>,
> {
    match json::field(v, key) {
        None => Ok(None),
        Some(JsonView::Null) => Ok(None),
        Some(JsonView::Object(m)) => Ok(Some(JsonView::Object(m))),
        Some(_) => Err(bad_field(key)),
    }
}

/// A count inside an object that may be absent.
pub open spec fn nested_i64(v: JsonView, outer: Seq<char>, inner: Seq<char>) -> Result<
    Option<i64>,
    Seq<char>,
> {
    match optional_object(v, outer) {
        Err(m) => Err(m),
        Ok(None) => Ok(None),
        Ok(Some(o)) => optional_i64(o, inner),
    }
}

/// A text member, empty where it is absent.
fn read_default_text(v: &Json, key: &str) -> (r: Result<String, String>)
    ensures
        match r {
            Ok(t) => default_text(v@, key@) == Ok::<Seq<char>, Seq<char>>(t@),
            Err(m) => default_text(v@, key@) == Err::<Seq<char>, Seq<char>>(m@),
        },
{
    match v.get(key) {
        None => Ok(String::new()),
        Some(j) => j.read_text(),
    }
}

/// A count that may be absent.
fn read_optional_u64(v: &Json, key: &str) -> (r: Result<Option<u64>, String>)
    ensures
        match r {
            Ok(n) => optional_u64(v@, key@) == Ok::<Option<u64>, Seq<char>>(n),
            Err(m) => optional_u64(v@, key@) == Err::<Option<u64>, Seq<char>>(m@),
        },
{
    match v.get(key) {
        None => Ok(None),
        Some(j) => j.read_unsigned(),
    }
}

/// A count that may be absent.
fn read_optional_i64(v: &Json, key: &str) -> (r: Result<Option<i64>, String>)
    ensures
        match r {
            Ok(n) => optional_i64(v@, key@) == Ok::<Option<i64>, Seq<char>>(n),
            Err(m) => optional_i64(v@, key@) == Err::<Option<i64>, Seq<char>>(m@),
        },
{
    match v.get(key) {
        None => Ok(None),
        Some(j) => j.read_signed(),
    }
}

/// An object that has to be there.
fn read_required_object<'a>(v: &'a Json, key: &str) -> (r: Result<&'a Json, String>)
    ensures
        match r {
            Ok(j) => required_object(v@, key@) == Ok::<JsonView, Seq<char>>(j@),
            Err(m) => required_object(v@, key@) == Err::<JsonView, Seq<char>>(m@),
        },
{
    match v.get(key) {
        None => Err(missing_message(key)),
        Some(j) => if j.is_object() {
            Ok(j)
        } else {
            Err(bad_field_message(key))
        },
    }
}

/// An object that may be absent.
fn read_optional_object<'a>(v: &'a Json, key: &str) -> (r: Result<Option<&'a Json>, String>)
    ensures
        match r {
            Ok(Some(j)) => optional_object(v@, key@) == Ok::<Option<JsonView>, Seq<char>>(Some(j@)),
            Ok(None) => optional_object(v@, key@) == Ok::<Option<JsonView>, Seq<char>>(None),
            Err(m) => optional_object(v@, key@) == Err::<Option<JsonView>, Seq<char>>(m@),
        },
{
    match v.get(key) {
        None => Ok(None),
        Some(Json::Null) => Ok(None),
        Some(j) => if j.is_object() {
            Ok(Some(j))
        } else {
            Err(bad_field_message(key))
        },
    }
}

/// A count inside an object that may be absent.
fn read_nested_i64(v: &Json, outer: &str, inner: &str) -> (r: Result<Option<i64>, String>)
    ensures
        match r {
            Ok(n) => nested_i64(v@, outer@, inner@) == Ok::<Option<i64>, Seq<char>>(n),
            Err(m) => nested_i64(v@, outer@, inner@) == Err::<Option<i64>, Seq<char>>(m@),
        },
{
    match read_optional_object(v, outer) {
        Err(m) => Err(m),
        Ok(None) => Ok(None),
        Ok(Some(o)) => read_optional_i64(o, inner),
    }
}

/// The token counts of a `usage` object. Of several members that are not as
/// they should be, the first by its key is reported.
pub open spec fn usage_of(v: JsonView) -> Result<UpstreamUsage, Seq<char>> {
    match optional_i64(v, "completion_tokens"@) {
        Err(m) => Err(m),
        Ok(completion_tokens) => match optional_i64(v, "input_tokens"@) {
            Err(m) => Err(m),
            Ok(input_tokens) => match nested_i64(v, "input_tokens_details"@, "cached_tokens"@) {
                Err(m) => Err(m),
                Ok(cached_tokens) => match optional_i64(v, "output_tokens"@) {
                    Err(m) => Err(m),
                    Ok(output_tokens) => match nested_i64(v, "output_tokens_details"@, "reasoning_tokens"@) {
                        Err(m) => Err(m),
                        Ok(reasoning_tokens) => match optional_i64(v, "prompt_tokens"@) {
                            Err(m) => Err(m),
                            Ok(prompt_tokens) => match optional_i64(v, "total_tokens"@) {
                                Err(m) => Err(m),
                                Ok(total_tokens) => Ok(
                                    UpstreamUsage {
                                        prompt_tokens,
                                        completion_tokens,
                                        input_tokens,
                                        output_tokens,
                                        total_tokens,
                                        cached_tokens,
                                        reasoning_tokens,
                                    },
                                ),
                            },
                        },
                    },
                },
            },
        },
    }
}

/// The token counts of a `usage` object.
fn read_usage(v: &Json) -> (r: Result<UpstreamUsage, String>)
    ensures
        match r {
            Ok(u) => usage_of(v@) == Ok::<UpstreamUsage, Seq<char>>(u),
            Err(m) => usage_of(v@) == Err::<UpstreamUsage, Seq<char>>(m@),
        },
{
    let completion_tokens: Option<i64> = match read_optional_i64(v, "completion_tokens") {
        Ok(n) => n,
        Err(m) => {
            return Err(m);
        },
    };
    let input_tokens: Option<i64> = match read_optional_i64(v, "input_tokens") {
        Ok(n) => n,
        Err(m) => {
            return Err(m);
        },
    };
    let cached_tokens: Option<i64> = match read_nested_i64(v, "input_tokens_details", "cached_tokens") {
        Ok(n) => n,
        Err(m) => {
            return Err(m);
        },
    };
    let output_tokens: Option<i64> = match read_optional_i64(v, "output_tokens") {
        Ok(n) => n,
        Err(m) => {
            return Err(m);
        },
    };
    let reasoning_tokens: Option<i64> = match read_nested_i64(v, "output_tokens_details", "reasoning_tokens") {
        Ok(n) => n,
        Err(m) => {
            return Err(m);
        },
    };
    let prompt_tokens: Option<i64> = match read_optional_i64(v, "prompt_tokens") {
        Ok(n) => n,
        Err(m) => {
            return Err(m);
        },
    };
    match read_optional_i64(v, "total_tokens") {
        Ok(total_tokens) => Ok(
            UpstreamUsage {
                prompt_tokens,
                completion_tokens,
                input_tokens,
                output_tokens,
                total_tokens,
                cached_tokens,
                reasoning_tokens,
            },
        ),
        Err(m) => Err(m),
    }
}

/// An event in mathematical form.
pub enum EventView {
    ResponseCreated { id: Seq<char> },
    OutputTextDelta { delta: Seq<char> },
    ResponseCompleted { usage: Option<UpstreamUsage> },
    OutputItemAdded { item: Option<ItemView> },
    FunctionCallArgumentsDelta { item_id: Seq<char>, delta: Seq<char> },
    Reasoning { content: Option<Seq<char>> },
    Other,
}

/// An output item in mathematical form.
pub struct ItemView {
    pub item_type: Seq<char>,
    pub id: Seq<char>,
    pub call_id: Seq<char>,
    pub name: Seq<char>,
}

impl UpstreamEvent {
    /// The event in mathematical form.
    pub open spec fn view(&self) -> EventView {
        match self {
            UpstreamEvent::ResponseCreated { response, .. } => EventView::ResponseCreated {
                id: response.id@,
            },
            UpstreamEvent::OutputTextDelta { delta, .. } => EventView::OutputTextDelta {
                delta: delta@,
            },
            UpstreamEvent::ResponseCompleted { response, .. } => EventView::ResponseCompleted {
                usage: response.usage,
            },
            UpstreamEvent::OutputItemAdded { item, .. } => EventView::OutputItemAdded {
                item: match item {
                    Some(i) => Some(
                        ItemView {
                            item_type: i.item_type@,
                            id: i.id@,
                            call_id: i.call_id@,
                            name: i.name@,
                        },
                    ),
                    None => None,
                },
            },
            UpstreamEvent::FunctionCallArgumentsDelta { item_id, delta, .. } => {
                EventView::FunctionCallArgumentsDelta { item_id: item_id@, delta: delta@ }
            },
            UpstreamEvent::Reasoning { content, .. } => EventView::Reasoning {
                content: match content {
                    Some(t) => Some(t@),
                    None => None,
                },
            },
            UpstreamEvent::Other => EventView::Other,
        }
    }

    /// The sequence number of an event that has one.
    pub open spec fn sequence(&self) -> Option<u64> {
        match self {
            UpstreamEvent::ResponseCreated { sequence_number, .. } => *sequence_number,
            UpstreamEvent::OutputTextDelta { sequence_number, .. } => *sequence_number,
            UpstreamEvent::ResponseCompleted { sequence_number, .. } => *sequence_number,
            UpstreamEvent::OutputItemAdded { sequence_number, .. } => *sequence_number,
            UpstreamEvent::FunctionCallArgumentsDelta { sequence_number, .. } => *sequence_number,
            UpstreamEvent::Reasoning { sequence_number, .. } => *sequence_number,
            UpstreamEvent::Other => None,
        }
    }
}

/// The first text among summary parts.
pub open spec fn summary_text(parts: Seq<JsonView>) -> Option<Seq<char>>
    decreases parts.len(),
{
    if parts.len() == 0 {
        None
    } else {
        match json::text_field(parts[0], "text"@) {
            Some(t) => if t.len() > 0 {
                Some(t)
            } else {
                summary_text(parts.skip(1))
            },
            None => summary_text(parts.skip(1)),
        }
    }
}

/// The text that a reasoning event shows: its `delta`, else the first text of
/// its `summary`. Only deltas of the first output item show any.
pub open spec fn reasoning_content(v: JsonView, event_type: Seq<char>) -> Option<Seq<char>> {
    let later_item = match json::field(v, "output_index"@) {
        Some(JsonView::Num(n)) => match json::num_u64(n) {
            Some(k) => k > 0,
            None => false,
        },
        _ => false,
    };
    if later_item || !text::has(event_type, ".delta"@) {
        None
    } else {
        match json::text_field(v, "delta"@) {
            Some(t) => if t.len() > 0 {
                Some(t)
            } else {
                summary_of(v)
            },
            None => summary_of(v),
        }
    }
}

/// The first text of the `summary` of a reasoning event.
pub open spec fn summary_of(v: JsonView) -> Option<Seq<char>> {
    match json::array_field(v, "summary"@) {
        Some(parts) => summary_text(parts),
        None => None,
    }
}

/// The first text of the `summary` of a reasoning event.
fn find_summary_text(v: &Json) -> (r: Option<String>)
    ensures
        match r {
            Some(t) => summary_of(v@) == Some(t@),
            None => summary_of(v@) is None,
        },
{
    let parts: &Vec<Json> = match v.get_array("summary") {
        Some(a) => a,
        None => {
            return None;
        },
    };
    let ghost all = json::items(parts@);
    let mut i: usize = 0;
    proof {
        assert(all.skip(0) =~= all);
    }
    while i < parts.len()
        invariant
            i <= parts@.len(),
            all == json::items(parts@),
            summary_of(v@) == summary_text(all.skip(i as int)),
        decreases parts@.len() - i,
    {
        proof {
            assert(all.skip(i as int)[0] == parts@[i as int]@);
            assert(all.skip(i as int).skip(1) =~= all.skip(i + 1));
        }
        match parts[i].get_str("text") {
            Some(t) => if !t.is_empty() {
                return Some(t.to_owned());
            },
            None => {},
        }
        i += 1;
    }
    None
}

/// The text that a reasoning event shows.
fn extract_reasoning_content(v: &Json, event_type: &str) -> (r: Option<String>)
    ensures
        match r {
            Some(t) => reasoning_content(v@, event_type@) == Some(t@),
            None => reasoning_content(v@, event_type@) is None,
        },
{
    match v.get("output_index") {
        Some(Json::Num(n)) => match n.as_u64() {
            Some(k) => if k > 0 {
                return None;
            },
            None => {},
        },
        _ => {},
    }
    if !text::contains(event_type, ".delta") {
        return None;
    }
    match v.get_str("delta") {
        Some(t) => if !t.is_empty() {
            return Some(t.to_owned());
        },
        None => {},
    }
    find_summary_text(v)
}

/// The output item of an `item` object. Of several members that are not as
/// they should be, the first by its key is reported.
pub open spec fn item_of(v: JsonView) -> Result<ItemView, Seq<char>> {
    match default_text(v, "call_id"@) {
        Err(m) => Err(m),
        Ok(call_id) => match default_text(v, "id"@) {
            Err(m) => Err(m),
            Ok(id) => match default_text(v, "name"@) {
                Err(m) => Err(m),
                Ok(name) => match default_text(v, "type"@) {
                    Err(m) => Err(m),
                    Ok(item_type) => Ok(ItemView { item_type, id, call_id, name }),
                },
            },
        },
    }
}

/// The output item of an `item` object.
fn read_item(v: &Json) -> (r: Result<OutputItem, String>)
    ensures
        match r {
            Ok(i) => item_of(v@) == Ok::<ItemView, Seq<char>>(
                ItemView {
                    item_type: i.item_type@,
                    id: i.id@,
                    call_id: i.call_id@,
                    name: i.name@,
                },
            ),
            Err(m) => item_of(v@) == Err::<ItemView, Seq<char>>(m@),
        },
{
    let call_id: String = match read_default_text(v, "call_id") {
        Ok(t) => t,
        Err(m) => {
            return Err(m);
        },
    };
    let id: String = match read_default_text(v, "id") {
        Ok(t) => t,
        Err(m) => {
            return Err(m);
        },
    };
    let name: String = match read_default_text(v, "name") {
        Ok(t) => t,
        Err(m) => {
            return Err(m);
        },
    };
    match read_default_text(v, "type") {
        Ok(item_type) => Ok(OutputItem { item_type, id, call_id, name }),
        Err(m) => Err(m),
    }
}

/// What an event of this type holds.
pub open spec fn payload_of(v: JsonView, event_type: Seq<char>) -> Result<EventView, Seq<char>> {
    if text::begins(event_type, "response.reasoning"@) {
        Ok(EventView::Reasoning { content: reasoning_content(v, event_type) })
    } else if event_type == "response.created"@ {
        match required_object(v, "response"@) {
            Err(m) => Err(m),
            Ok(response) => match default_text(response, "id"@) {
                Err(m) => Err(m),
                Ok(id) => Ok(EventView::ResponseCreated { id }),
            },
        }
    } else if event_type == "response.output_text.delta"@ {
        match default_text(v, "delta"@) {
            Err(m) => Err(m),
            Ok(delta) => Ok(EventView::OutputTextDelta { delta }),
        }
    } else if event_type == "response.completed"@ {
        match required_object(v, "response"@) {
            Err(m) => Err(m),
            Ok(response) => match optional_object(response, "usage"@) {
                Err(m) => Err(m),
                Ok(None) => Ok(EventView::ResponseCompleted { usage: None }),
                Ok(Some(u)) => match usage_of(u) {
                    Err(m) => Err(m),
                    Ok(usage) => Ok(EventView::ResponseCompleted { usage: Some(usage) }),
                },
            },
        }
    } else if event_type == "response.output_item.added"@ {
        match optional_object(v, "item"@) {
            Err(m) => Err(m),
            Ok(None) => Ok(EventView::OutputItemAdded { item: None }),
            Ok(Some(i)) => match item_of(i) {
                Err(m) => Err(m),
                Ok(item) => Ok(EventView::OutputItemAdded { item: Some(item) }),
            },
        }
    } else if event_type == "response.function_call_arguments.delta"@ {
        match default_text(v, "delta"@) {
            Err(m) => Err(m),
            Ok(delta) => match default_text(v, "item_id"@) {
                Err(m) => Err(m),
                Ok(item_id) => Ok(EventView::FunctionCallArgumentsDelta { item_id, delta }),
            },
        }
    } else {
        Ok(EventView::Other)
    }
}

/// The `type` of an event, which it has to have.
pub open spec fn type_of(v: JsonView) -> Result<Seq<char>, Seq<char>> {
    match json::field(v, "type"@) {
        None => Err(missing("type"@)),
        Some(x) => json::as_text(x),
    }
}

/// The `type` of an event.
fn read_type(v: &Json) -> (r: Result<String, String>)
    ensures
        match r {
            Ok(t) => type_of(v@) == Ok::<Seq<char>, Seq<char>>(t@),
            Err(m) => type_of(v@) == Err::<Seq<char>, Seq<char>>(m@),
        },
{
    match v.get("type") {
        None => Err(missing_message("type")),
        Some(j) => j.read_text(),
    }
}

/// An event: its sequence number and what it holds, or why it is invalid. It
/// has a text `type`, and a sequence number only where it is an integer.
pub open spec fn event_of(v: JsonView) -> Result<(Option<u64>, EventView), Seq<char>> {
    match type_of(v) {
        Err(m) => Err(m),
        Ok(event_type) => match optional_u64(v, "sequence_number"@) {
            Err(m) => Err(m),
            Ok(seq) => match payload_of(v, event_type) {
                Err(m) => Err(m),
                Ok(e) => Ok((seq, e)),
            },
        },
    }
}

/// What an event of this type holds.
fn read_payload(v: &Json, event_type: &str, seq: Option<u64>) -> (r: Result<UpstreamEvent, String>)
    ensures
        match r {
            Ok(e) => payload_of(v@, event_type@) == Ok::<EventView, Seq<char>>(e@) && (
            !(e is Other) ==> e.sequence() == seq),
            Err(m) => payload_of(v@, event_type@) == Err::<EventView, Seq<char>>(m@),
        },
{
    if text::starts_with(event_type, "response.reasoning") {
        let content = extract_reasoning_content(v, event_type);
        return Ok(UpstreamEvent::Reasoning { sequence_number: seq, content });
    }
    if text::same(event_type, "response.created") {
        return match read_required_object(v, "response") {
            Err(m) => Err(m),
            Ok(response) => match read_default_text(response, "id") {
                Err(m) => Err(m),
                Ok(id) => Ok(
                    UpstreamEvent::ResponseCreated {
                        sequence_number: seq,
                        response: CreatedResponse { id },
                    },
                ),
            },
        };
    }
    if text::same(event_type, "response.output_text.delta") {
        return match read_default_text(v, "delta") {
            Err(m) => Err(m),
            Ok(delta) => Ok(UpstreamEvent::OutputTextDelta { sequence_number: seq, delta }),
        };
    }
    if text::same(event_type, "response.completed") {
        let response: &Json = match read_required_object(v, "response") {
            Err(m) => {
                return Err(m);
            },
            Ok(j) => j,
        };
        return match read_optional_object(response, "usage") {
            Err(m) => Err(m),
            Ok(None) => Ok(
                UpstreamEvent::ResponseCompleted {
                    sequence_number: seq,
                    response: CompletedResponse { usage: None },
                },
            ),
            Ok(Some(u)) => match read_usage(u) {
                Err(m) => Err(m),
                Ok(usage) => Ok(
                    UpstreamEvent::ResponseCompleted {
                        sequence_number: seq,
                        response: CompletedResponse { usage: Some(usage) },
                    },
                ),
            },
        };
    }
    if text::same(event_type, "response.output_item.added") {
        return match read_optional_object(v, "item") {
            Err(m) => Err(m),
            Ok(None) => Ok(UpstreamEvent::OutputItemAdded { sequence_number: seq, item: None }),
            Ok(Some(i)) => match read_item(i) {
                Err(m) => Err(m),
                Ok(item) => Ok(
                    UpstreamEvent::OutputItemAdded { sequence_number: seq, item: Some(item) },
                ),
            },
        };
    }
    if text::same(event_type, "response.function_call_arguments.delta") {
        return match read_default_text(v, "delta") {
            Err(m) => Err(m),
            Ok(delta) => match read_default_text(v, "item_id") {
                Err(m) => Err(m),
                Ok(item_id) => Ok(
                    UpstreamEvent::FunctionCallArgumentsDelta {
                        sequence_number: seq,
                        item_id,
                        delta,
                    },
                ),
            },
        };
    }
    Ok(UpstreamEvent::Other)
}

/// Reads an event.
pub fn read_event(v: &Json) -> (r: Result<UpstreamEvent, String>)
    ensures
        match r {
            Ok(e) => event_of(v@) is Ok && event_of(v@)->Ok_0.1 == e@ && (!(e is Other)
                ==> event_of(v@)->Ok_0.0 == e.sequence()),
            Err(m) => event_of(v@) == Err::<(Option<u64>, EventView), Seq<char>>(m@),
        },
{
    let event_type: String = match read_type(v) {
        Ok(t) => t,
        Err(m) => {
            return Err(m);
        },
    };
    match read_optional_u64(v, "sequence_number") {
        Err(m) => Err(m),
        Ok(seq) => read_payload(v, event_type.as_str(), seq),
    }
}

} // verus!
