//! What the events of the backend become, member by member.
//!
//! The laws speak of the JSON of an event and of the JSON of the chunks that are
//! made of it.
use super::Outcome;
use super::TransformerView;
use crate::bytes;
use crate::json;
use crate::json::JsonView;
use crate::json::NumView;
use crate::text;
use crate::transform;
use vstd::prelude::*;

verus! {

/// The member names of events and chunks, told apart by length and letters.
proof fn reveal_names()
    ensures
        "id"@.len() == 2,
        "type"@.len() == 4 && "type"@[0] == 't' && "type"@[1] == 'y',
        "role"@.len() == 4 && "role"@[0] == 'r',
        "name"@.len() == 4 && "name"@[0] == 'n',
        "item"@.len() == 4 && "item"@[0] == 'i',
        "text"@.len() == 4 && "text"@[0] == 't' && "text"@[1] == 'e',
        "index"@.len() == 5 && "index"@[0] == 'i',
        "model"@.len() == 5 && "model"@[0] == 'm',
        "delta"@.len() == 5 && "delta"@[0] == 'd',
        "usage"@.len() == 5 && "usage"@[0] == 'u',
        "object"@.len() == 6,
        "created"@.len() == 7 && "created"@[0] == 'c' && "created"@[1] == 'r',
        "choices"@.len() == 7 && "choices"@[0] == 'c' && "choices"@[1] == 'h',
        "content"@.len() == 7 && "content"@[0] == 'c' && "content"@[1] == 'o',
        "call_id"@.len() == 7 && "call_id"@[0] == 'c' && "call_id"@[1] == 'a',
        "item_id"@.len() == 7 && "item_id"@[0] == 'i',
        "summary"@.len() == 7 && "summary"@[0] == 's',
        "response"@.len() == 8 && "response"@[0] == 'r',
        "function"@.len() == 8 && "function"@[0] == 'f',
        "arguments"@.len() == 9,
        "tool_calls"@.len() == 10,
        "output_index"@.len() == 12 && "output_index"@[0] == 'o',
        "input_tokens"@.len() == 12 && "input_tokens"@[0] == 'i',
        "total_tokens"@.len() == 12 && "total_tokens"@[0] == 't',
        "finish_reason"@.len() == 13 && "finish_reason"@[0] == 'f',
        "prompt_tokens"@.len() == 13 && "prompt_tokens"@[0] == 'p',
        "output_tokens"@.len() == 13 && "output_tokens"@[0] == 'o',
        "cached_tokens"@.len() == 13 && "cached_tokens"@[0] == 'c',
        "sequence_number"@.len() == 15,
        "reasoning_tokens"@.len() == 16,
        "reasoning_content"@.len() == 17 && "reasoning_content"@[0] == 'r',
        "completion_tokens"@.len() == 17 && "completion_tokens"@[0] == 'c',
        "input_tokens_details"@.len() == 20,
        "prompt_tokens_details"@.len() == 21 && "prompt_tokens_details"@[0] == 'p',
        "output_tokens_details"@.len() == 21 && "output_tokens_details"@[0] == 'o',
        "completion_tokens_details"@.len() == 25,
{
    reveal_strlit("id");
    reveal_strlit("type");
    reveal_strlit("role");
    reveal_strlit("name");
    reveal_strlit("item");
    reveal_strlit("text");
    reveal_strlit("index");
    reveal_strlit("model");
    reveal_strlit("delta");
    reveal_strlit("usage");
    reveal_strlit("object");
    reveal_strlit("created");
    reveal_strlit("choices");
    reveal_strlit("content");
    reveal_strlit("call_id");
    reveal_strlit("item_id");
    reveal_strlit("summary");
    reveal_strlit("response");
    reveal_strlit("function");
    reveal_strlit("arguments");
    reveal_strlit("tool_calls");
    reveal_strlit("output_index");
    reveal_strlit("input_tokens");
    reveal_strlit("total_tokens");
    reveal_strlit("finish_reason");
    reveal_strlit("prompt_tokens");
    reveal_strlit("output_tokens");
    reveal_strlit("cached_tokens");
    reveal_strlit("sequence_number");
    reveal_strlit("reasoning_tokens");
    reveal_strlit("reasoning_content");
    reveal_strlit("completion_tokens");
    reveal_strlit("input_tokens_details");
    reveal_strlit("prompt_tokens_details");
    reveal_strlit("output_tokens_details");
    reveal_strlit("completion_tokens_details");
}

/// The event types, told apart from one another and from the reasoning events.
proof fn reveal_types()
    ensures
        "response.created"@.len() == 16,
        "response.completed"@.len() == 18,
        "response.output_text.delta"@.len() == 26 && "response.output_text.delta"@[16] == 't',
        "response.output_item.added"@.len() == 26 && "response.output_item.added"@[16] == 'i',
        "response.function_call_arguments.delta"@.len() == 38,
        !text::begins("response.created"@, "response.reasoning"@),
        !text::begins("response.completed"@, "response.reasoning"@),
        !text::begins("response.output_text.delta"@, "response.reasoning"@),
        !text::begins("response.output_item.added"@, "response.reasoning"@),
        !text::begins("response.function_call_arguments.delta"@, "response.reasoning"@),
{
    reveal_strlit("response.created");
    reveal_strlit("response.completed");
    reveal_strlit("response.output_text.delta");
    reveal_strlit("response.output_item.added");
    reveal_strlit("response.function_call_arguments.delta");
    reveal_strlit("response.reasoning");
    let r = "response.reasoning"@;
    assert(r.len() == 18 && r[9] == 'r');
    assert("response.completed"@.subrange(0, 18)[9] == 'c');
    assert("response.output_text.delta"@.subrange(0, 18)[9] == 'o');
    assert("response.output_item.added"@.subrange(0, 18)[9] == 'o');
    assert("response.function_call_arguments.delta"@.subrange(0, 18)[9] == 'f');
}

/// An event of this type.
pub open spec fn is_event(v: JsonView, event_type: Seq<char>) -> bool {
    json::text_field(v, "type"@) == Some(event_type)
}

/// An event whose sequence number is absent, `null` or an integer of 64 bits.
pub open spec fn is_numbered(v: JsonView) -> bool {
    match json::field(v, "sequence_number"@) {
        None => true,
        Some(JsonView::Null) => true,
        Some(JsonView::Num(NumView::Int(n))) => 0 <= n <= u64::MAX,
        Some(_) => false,
    }
}

/// The time of the chunks of an event: its sequence number, or `null`.
pub open spec fn time_of(v: JsonView) -> JsonView {
    match json::field(v, "sequence_number"@) {
        Some(n) => n,
        None => JsonView::Null,
    }
}

/// A chunk of a response says this: the response, the time, the model, what it
/// adds to the one choice, why the choice ends, and the counts.
pub open spec fn says(
    c: JsonView,
    t: TransformerView,
    time: JsonView,
    delta: JsonView,
    finish: JsonView,
    usage: Option<JsonView>,
) -> bool {
    &&& json::text_field(c, "id"@) == Some(t.response_id)
    &&& json::text_field(c, "object"@) == Some("chat.completion.chunk"@)
    &&& json::field(c, "created"@) == Some(time)
    &&& json::text_field(c, "model"@) == Some(t.model)
    &&& json::array_field(c, "choices"@) matches Some(choices) && {
        &&& choices.len() == 1
        &&& json::field(choices[0], "index"@) == Some(JsonView::Num(NumView::Int(0)))
        &&& json::field(choices[0], "delta"@) == Some(delta)
        &&& json::field(choices[0], "finish_reason"@) == Some(finish)
    }
    &&& json::field(c, "usage"@) == usage
}

/// What a transformer makes of an event that was parsed is one chunk with this
/// delta, after the one that announces the role where that was not sent.
pub open spec fn adds(t: TransformerView, v: JsonView, delta: JsonView) -> bool {
    transform::parsed_outcome(t, Ok(v)) matches Outcome::Emitted(chunks) && {
        &&& chunks.len() == (if t.role_sent {
            1nat
        } else {
            2nat
        })
        &&& says(chunks.last(), t, time_of(v), delta, JsonView::Null, None)
        &&& !t.role_sent ==> says(
            chunks[0],
            t,
            time_of(v),
            JsonView::Object(map!["role"@ => JsonView::Text("assistant"@)]),
            JsonView::Null,
            None,
        )
    }
}

/// An event leaves no trace: nothing is sent, and the transformer stays as it
/// is.
pub open spec fn is_ignored(t: TransformerView, v: JsonView) -> bool {
    transform::parsed_outcome(t, Ok(v)) is Swallowed && transform::after_parsed(t, Ok(v)) == t
}

/// The sequence number of an event.
proof fn lemma_numbered(v: JsonView)
    requires
        is_numbered(v),
    ensures
        ({
            let n = transform::upstream::optional_u64(v, "sequence_number"@);
            n is Ok && time_of(v) == (match n->Ok_0 {
                Some(k) => transform::openai::int_json(k as int),
                None => JsonView::Null,
            })
        }),
{
}

/// A chunk says what it was made of.
proof fn lemma_says(
    t: TransformerView,
    seq: Option<u64>,
    delta: JsonView,
    finish: Option<Seq<char>>,
    usage: Option<JsonView>,
)
    ensures
        says(
            transform::chunk(t, seq, delta, finish, usage),
            t,
            match seq {
                Some(k) => transform::openai::int_json(k as int),
                None => JsonView::Null,
            },
            delta,
            match finish {
                Some(f) => JsonView::Text(f),
                None => JsonView::Null,
            },
            usage,
        ),
{
    reveal_names();
}

/// The chunks of a delta say it, after the role.
proof fn lemma_with_role(t: TransformerView, seq: Option<u64>, delta: JsonView)
    ensures
        ({
            let chunks = transform::with_role(t, seq, delta);
            let time = match seq {
                Some(k) => transform::openai::int_json(k as int),
                None => JsonView::Null,
            };
            &&& chunks.len() == (if t.role_sent {
                1nat
            } else {
                2nat
            })
            &&& says(chunks.last(), t, time, delta, JsonView::Null, None)
            &&& !t.role_sent ==> says(
                chunks[0],
                t,
                time,
                JsonView::Object(map!["role"@ => JsonView::Text("assistant"@)]),
                JsonView::Null,
                None,
            )
        }),
{
    lemma_says(t, seq, delta, None, None);
    lemma_says(t, seq, transform::text_delta("role"@, "assistant"@), None, None);
}

/// The payload of an event is parsed without the white space around it, unless
/// nothing is left of it or it is the sentinel.
pub proof fn law_payload_is_parsed(t: TransformerView, data: Seq<u8>)
    ensures
        ({
            let d = bytes::trimmed(data);
            if d.len() == 0 {
                &&& transform::outcome(t, data) is Swallowed
                &&& transform::after_data(t, data) == t
            } else if d == seq![91u8, 68u8, 79u8, 78u8, 69u8, 93u8] {
                &&& transform::outcome(t, data) is Done
                &&& transform::after_data(t, data) == t
            } else {
                &&& transform::outcome(t, data) == transform::parsed_outcome(
                    t,
                    json::json_parse(d),
                )
                &&& transform::after_data(t, data) == transform::after_parsed(
                    t,
                    json::json_parse(d),
                )
            }
        }),
{
}

/// What is no JSON is invalid, with the message of the parser, and an invalid
/// event changes nothing.
pub proof fn law_invalid_event_changes_nothing(
    t: TransformerView,
    parsed: Result<JsonView, Seq<char>>,
)
    ensures
        parsed matches Err(m) ==> transform::parsed_outcome(t, parsed) == Outcome::Invalid(m),
        transform::parsed_outcome(t, parsed) is Invalid ==> transform::after_parsed(t, parsed) == t,
        !(transform::parsed_outcome(t, parsed) is Done),
{
}

/// A piece of the answer reaches the client character by character: the chunk
/// adds exactly the `delta` of the event to the content.
pub proof fn law_answer_is_sent_as_it_is(t: TransformerView, v: JsonView, d: Seq<char>)
    requires
        is_event(v, "response.output_text.delta"@),
        is_numbered(v),
        json::text_field(v, "delta"@) == Some(d),
    ensures
        adds(t, v, JsonView::Object(map!["content"@ => JsonView::Text(d)])),
        transform::after_parsed(t, Ok(v)) == (TransformerView { role_sent: true, ..t }),
{
    reveal_names();
    reveal_types();
    lemma_numbered(v);
    let seq = transform::upstream::optional_u64(v, "sequence_number"@)->Ok_0;
    lemma_with_role(t, seq, transform::text_delta("content"@, d));
}

/// The first text of summary parts that is not empty.
pub open spec fn first_part(parts: Seq<JsonView>) -> Option<Seq<char>> {
    let filled = parts.filter(
        |p: JsonView| json::text_field(p, "text"@) matches Some(x) && x.len() > 0,
    );
    if filled.len() > 0 {
        json::text_field(filled[0], "text"@)
    } else {
        None
    }
}

/// The first text of summary parts.
proof fn lemma_first_part(parts: Seq<JsonView>)
    ensures
        transform::upstream::summary_text(parts) == first_part(parts),
    decreases parts.len(),
{
    let f = |p: JsonView| json::text_field(p, "text"@) matches Some(x) && x.len() > 0;
    if parts.len() > 0 {
        lemma_first_part(parts.skip(1));
        lemma_filter_head(parts, f);
    } else {
        reveal(Seq::filter);
    }
}

/// The first item is kept first, or not at all.
proof fn lemma_filter_head(s: Seq<JsonView>, f: spec_fn(JsonView) -> bool)
    requires
        s.len() > 0,
    ensures
        s.filter(f) == (if f(s[0]) {
            seq![s[0]] + s.skip(1).filter(f)
        } else {
            s.skip(1).filter(f)
        }),
    decreases s.len(),
{
    reveal(Seq::filter);
    if s.len() == 1 {
        assert(s.skip(1) =~= Seq::empty());
        assert(s.drop_last() =~= Seq::empty());
        assert(s.filter(f) =~= (if f(s[0]) {
            seq![s[0]] + s.skip(1).filter(f)
        } else {
            s.skip(1).filter(f)
        }));
    } else {
        lemma_filter_head(s.drop_last(), f);
        assert(s.drop_last().skip(1) =~= s.skip(1).drop_last());
        assert(s.skip(1).last() == s.last());
        assert(s.filter(f) =~= (if f(s[0]) {
            seq![s[0]] + s.skip(1).filter(f)
        } else {
            s.skip(1).filter(f)
        }));
    }
}

/// What a reasoning event shows: its `delta`, else the first text of its
/// `summary`.
pub open spec fn shown(v: JsonView) -> Option<Seq<char>> {
    match json::text_field(v, "delta"@) {
        Some(d) if d.len() > 0 => Some(d),
        _ => match json::array_field(v, "summary"@) {
            Some(parts) => first_part(parts),
            None => None,
        },
    }
}

/// A piece of reasoning of the first output item reaches the client as it is.
/// Reasoning of later items, events that are no pieces and empty ones are
/// ignored.
pub proof fn law_reasoning_is_sent_as_it_is(t: TransformerView, v: JsonView, event_type: Seq<char>)
    requires
        is_event(v, event_type),
        text::begins(event_type, "response.reasoning"@),
        is_numbered(v),
    ensures
        ({
            let later = json::field(v, "output_index"@) matches Some(
                JsonView::Num(NumView::Int(k)),
            ) && 0 < k <= u64::MAX;
            if later || !text::has(event_type, ".delta"@) || shown(v) is None {
                is_ignored(t, v)
            } else {
                &&& adds(
                    t,
                    v,
                    JsonView::Object(map!["reasoning_content"@ => JsonView::Text(shown(v)->0)]),
                )
                &&& transform::after_parsed(t, Ok(v)) == (TransformerView { role_sent: true, ..t })
            }
        }),
{
    reveal_names();
    lemma_numbered(v);
    match json::array_field(v, "summary"@) {
        Some(parts) => {
            lemma_first_part(parts);
        },
        None => {},
    }
    let seq = transform::upstream::optional_u64(v, "sequence_number"@)->Ok_0;
    if shown(v) is Some {
        lemma_with_role(t, seq, transform::text_delta("reasoning_content"@, shown(v)->0));
    }
}

/// A new response is remembered by its id, nothing is sent, and all that belongs
/// to the response before is forgotten. Without an id, the old one stays.
pub proof fn law_new_response_is_remembered(t: TransformerView, v: JsonView, response: JsonView)
    requires
        is_event(v, "response.created"@),
        is_numbered(v),
        json::object_field(v, "response"@) == Some(response),
        json::field(response, "id"@) matches Some(x) ==> x is Text,
    ensures
        transform::parsed_outcome(t, Ok(v)) is Swallowed,
        ({
            let after = transform::after_parsed(t, Ok(v));
            &&& after.model == t.model
            &&& after.response_id == (match json::text_field(response, "id"@) {
                Some(id) if id.len() > 0 => "chatcmpl-"@ + id,
                _ => t.response_id,
            })
            &&& !after.role_sent
            &&& !after.saw_tool_calls
            &&& after.next_tool_index == 0
            &&& after.tool_index == Map::<Seq<char>, usize>::empty()
            &&& after.tool_id == Map::<Seq<char>, Seq<char>>::empty()
            &&& after.tool_name == Map::<Seq<char>, Seq<char>>::empty()
        }),
{
    reveal_names();
    reveal_types();
    lemma_numbered(v);
}

/// A member of an output item is a text, or absent.
pub open spec fn is_text_or_absent(v: JsonView, key: Seq<char>) -> bool {
    json::field(v, key) matches Some(x) ==> x is Text
}

/// A text member, empty where it is absent.
pub open spec fn text_of(v: JsonView, key: Seq<char>) -> Seq<char> {
    match json::text_field(v, key) {
        Some(x) => x,
        None => Seq::empty(),
    }
}

/// A function call that begins is announced with its index, its id, its name
/// and no arguments yet: the index that its item has, or the next one. Any
/// other item, and one without an id or a name, is ignored.
pub proof fn law_call_is_announced(t: TransformerView, v: JsonView, item: JsonView)
    requires
        is_event(v, "response.output_item.added"@),
        is_numbered(v),
        json::object_field(v, "item"@) == Some(item),
        is_text_or_absent(item, "type"@),
        is_text_or_absent(item, "id"@),
        is_text_or_absent(item, "call_id"@),
        is_text_or_absent(item, "name"@),
    ensures
        ({
            let id = text_of(item, "id"@);
            let name = text_of(item, "name"@);
            let known = t.tool_index.dom().contains(id);
            let index = if known {
                t.tool_index[id]
            } else {
                t.next_tool_index
            };
            let call_id = if text_of(item, "call_id"@).len() > 0 {
                text_of(item, "call_id"@)
            } else {
                "call_"@ + id
            };
            let after = transform::after_parsed(t, Ok(v));
            if text_of(item, "type"@) != "function_call"@ || id.len() == 0 || name.len() == 0 {
                is_ignored(t, v)
            } else {
                &&& adds(
                    t,
                    v,
                    JsonView::Object(
                        map![
                            "tool_calls"@ => JsonView::Array(
                                seq![
                                    JsonView::Object(
                                        map![
                                            "index"@ => JsonView::Num(NumView::Int(index as int)),
                                            "id"@ => JsonView::Text(call_id),
                                            "type"@ => JsonView::Text("function"@),
                                            "function"@ => JsonView::Object(
                                                map![
                                                    "name"@ => JsonView::Text(name),
                                                    "arguments"@ => JsonView::Text(Seq::empty()),
                                                ],
                                            ),
                                        ],
                                    ),
                                ],
                            ),
                        ],
                    ),
                )
                &&& after.tool_index == t.tool_index.insert(id, index)
                &&& after.tool_id == t.tool_id.insert(id, call_id)
                &&& after.tool_name == t.tool_name.insert(id, name)
                &&& after.saw_tool_calls
                &&& after.role_sent
                &&& known ==> after.next_tool_index == t.next_tool_index
                &&& !known && t.next_tool_index < usize::MAX ==> after.next_tool_index
                    == t.next_tool_index + 1
                &&& after.model == t.model
                &&& after.response_id == t.response_id
            }
        }),
{
    reveal_names();
    reveal_types();
    lemma_numbered(v);
    let seq = transform::upstream::optional_u64(v, "sequence_number"@)->Ok_0;
    let i = transform::upstream::item_of(item)->Ok_0;
    assert(transform::upstream::item_of(item) is Ok);
    lemma_with_role(
        t,
        seq,
        transform::call_delta(transform::index_of(t, i.id), transform::call_id_of(i), i.name),
    );
}

/// An event without an item is ignored.
pub proof fn law_no_item_no_call(t: TransformerView, v: JsonView)
    requires
        is_event(v, "response.output_item.added"@),
        is_numbered(v),
        json::field(v, "item"@) matches Some(x) ==> x is Null,
    ensures
        is_ignored(t, v),
{
    reveal_names();
    reveal_types();
    lemma_numbered(v);
}

/// A piece of the arguments of a call that was announced reaches the client as
/// it is, under the index of the call. A piece for any other item is ignored.
pub proof fn law_arguments_are_sent_as_they_are(
    t: TransformerView,
    v: JsonView,
)
    requires
        is_event(v, "response.function_call_arguments.delta"@),
        is_numbered(v),
        is_text_or_absent(v, "item_id"@),
        is_text_or_absent(v, "delta"@),
    ensures
        ({
            let item_id = text_of(v, "item_id"@);
            if t.tool_index.dom().contains(item_id) {
                &&& adds(
                    t,
                    v,
                    JsonView::Object(
                        map![
                            "tool_calls"@ => JsonView::Array(
                                seq![
                                    JsonView::Object(
                                        map![
                                            "index"@ => JsonView::Num(
                                                NumView::Int(t.tool_index[item_id] as int),
                                            ),
                                            "function"@ => JsonView::Object(
                                                map![
                                                    "arguments"@ => JsonView::Text(
                                                        text_of(v, "delta"@),
                                                    ),
                                                ],
                                            ),
                                        ],
                                    ),
                                ],
                            ),
                        ],
                    ),
                )
                &&& transform::after_parsed(t, Ok(v)) == (TransformerView { role_sent: true, ..t })
            } else {
                is_ignored(t, v)
            }
        }),
{
    reveal_names();
    reveal_types();
    lemma_numbered(v);
    let seq = transform::upstream::optional_u64(v, "sequence_number"@)->Ok_0;
    let item_id = text_of(v, "item_id"@);
    if t.tool_index.dom().contains(item_id) {
        lemma_with_role(
            t,
            seq,
            transform::arguments_delta(t.tool_index[item_id], text_of(v, "delta"@)),
        );
    }
}

/// An event of any other type is ignored.
pub proof fn law_other_events_are_ignored(t: TransformerView, v: JsonView, event_type: Seq<char>)
    requires
        is_event(v, event_type),
        is_numbered(v),
        !text::begins(event_type, "response.reasoning"@),
        event_type != "response.created"@,
        event_type != "response.output_text.delta"@,
        event_type != "response.completed"@,
        event_type != "response.output_item.added"@,
        event_type != "response.function_call_arguments.delta"@,
    ensures
        is_ignored(t, v),
{
    lemma_numbered(v);
}

/// A count that is absent, `null` or an integer of 64 bits.
pub open spec fn is_count(v: JsonView, key: Seq<char>) -> bool {
    match json::field(v, key) {
        None => true,
        Some(JsonView::Null) => true,
        Some(JsonView::Num(NumView::Int(n))) => i64::MIN <= n <= i64::MAX,
        Some(_) => false,
    }
}

/// A count that is there.
pub open spec fn count_of(v: JsonView, key: Seq<char>) -> Option<int> {
    match json::field(v, key) {
        Some(JsonView::Num(NumView::Int(n))) => Some(n),
        _ => None,
    }
}

/// The first of two counts that is there, else zero.
pub open spec fn first_of(a: Option<int>, b: Option<int>) -> int {
    match a {
        Some(n) => n,
        None => match b {
            Some(n) => n,
            None => 0,
        },
    }
}

/// Counts of the backend that can be read.
pub open spec fn are_counts(u: JsonView) -> bool {
    &&& is_count(u, "prompt_tokens"@)
    &&& is_count(u, "completion_tokens"@)
    &&& is_count(u, "input_tokens"@)
    &&& is_count(u, "output_tokens"@)
    &&& is_count(u, "total_tokens"@)
    &&& json::field(u, "input_tokens_details"@) matches Some(d) ==> d is Object && is_count(
        d,
        "cached_tokens"@,
    )
    &&& json::field(u, "output_tokens_details"@) matches Some(d) ==> d is Object && is_count(
        d,
        "reasoning_tokens"@,
    )
}

/// A count inside another member.
pub open spec fn inner_count(u: JsonView, outer: Seq<char>, inner: Seq<char>) -> Option<int> {
    match json::object_field(u, outer) {
        Some(d) => count_of(d, inner),
        None => None,
    }
}

/// The counts that a client gets for those of the backend: its own names come
/// first, the backend's total before the sum, and details only where there are
/// any.
pub open spec fn counts_for(usage: JsonView, u: JsonView) -> bool {
    let prompt = first_of(count_of(u, "prompt_tokens"@), count_of(u, "input_tokens"@));
    let completion = first_of(count_of(u, "completion_tokens"@), count_of(u, "output_tokens"@));
    let cached = inner_count(u, "input_tokens_details"@, "cached_tokens"@);
    let reasoning = inner_count(u, "output_tokens_details"@, "reasoning_tokens"@);
    &&& count_of(usage, "prompt_tokens"@) == Some(prompt)
    &&& count_of(usage, "completion_tokens"@) == Some(completion)
    &&& match count_of(u, "total_tokens"@) {
        Some(n) => count_of(usage, "total_tokens"@) == Some(n),
        None => i64::MIN <= prompt + completion <= i64::MAX ==> count_of(usage, "total_tokens"@)
            == Some(prompt + completion),
    }
    &&& match cached {
        Some(n) => inner_count(usage, "prompt_tokens_details"@, "cached_tokens"@) == Some(n),
        None => json::field(usage, "prompt_tokens_details"@) is None,
    }
    &&& match reasoning {
        Some(n) => inner_count(usage, "completion_tokens_details"@, "reasoning_tokens"@) == Some(n),
        None => json::field(usage, "completion_tokens_details"@) is None,
    }
}

/// The counts of the backend can be read.
proof fn lemma_counts_are_read(u: JsonView)
    requires
        are_counts(u),
    ensures
        transform::upstream::usage_of(u) matches Ok(c) && {
            &&& c.prompt_tokens == as_i64(count_of(u, "prompt_tokens"@))
            &&& c.completion_tokens == as_i64(count_of(u, "completion_tokens"@))
            &&& c.input_tokens == as_i64(count_of(u, "input_tokens"@))
            &&& c.output_tokens == as_i64(count_of(u, "output_tokens"@))
            &&& c.total_tokens == as_i64(count_of(u, "total_tokens"@))
            &&& c.cached_tokens == as_i64(
                inner_count(u, "input_tokens_details"@, "cached_tokens"@),
            )
            &&& c.reasoning_tokens == as_i64(
                inner_count(u, "output_tokens_details"@, "reasoning_tokens"@),
            )
        },
{
}

/// A count as an integer of 64 bits.
spec fn as_i64(n: Option<int>) -> Option<i64> {
    match n {
        Some(k) => Some(k as i64),
        None => None,
    }
}

/// The counts that are written are those that are told.
proof fn lemma_counts_are_written(c: transform::openai::Usage)
    ensures
        c.json() is Object,
        count_of(c.json(), "prompt_tokens"@) == Some(c.prompt_tokens as int),
        count_of(c.json(), "completion_tokens"@) == Some(c.completion_tokens as int),
        count_of(c.json(), "total_tokens"@) == Some(c.total_tokens as int),
        match c.prompt_tokens_details {
            Some(d) => inner_count(c.json(), "prompt_tokens_details"@, "cached_tokens"@) == Some(
                d.cached_tokens as int,
            ),
            None => json::field(c.json(), "prompt_tokens_details"@) is None,
        },
        match c.completion_tokens_details {
            Some(d) => inner_count(c.json(), "completion_tokens_details"@, "reasoning_tokens"@)
                == Some(d.reasoning_tokens as int),
            None => json::field(c.json(), "completion_tokens_details"@) is None,
        },
{
    reveal_names();
}

/// The counts of a response are those of the backend.
proof fn lemma_counts(u: JsonView)
    requires
        are_counts(u),
    ensures
        transform::upstream::usage_of(u) matches Ok(c) && counts_for(c.usage().json(), u),
{
    lemma_counts_are_read(u);
    lemma_counts_are_written(transform::upstream::usage_of(u)->Ok_0.usage());
}

/// Without counts there are zeros.
proof fn lemma_zero_counts()
    ensures
        counts_for(transform::zero_usage().json(), JsonView::Object(Map::empty())),
{
    lemma_counts_are_written(transform::zero_usage());
}

/// The end of a response is one chunk that adds nothing, says whether tools are
/// to be called, and carries the counts of the response, zero where it has
/// none. The transformer stays as it is.
#[verifier::rlimit(30)]
pub proof fn law_end_is_sent(t: TransformerView, v: JsonView, response: JsonView)
    requires
        is_event(v, "response.completed"@),
        is_numbered(v),
        json::object_field(v, "response"@) == Some(response),
        json::field(response, "usage"@) matches Some(u) ==> u is Null || (u is Object && are_counts(
            u,
        )),
    ensures
        transform::after_parsed(t, Ok(v)) == t,
        transform::parsed_outcome(t, Ok(v)) matches Outcome::Emitted(chunks) && {
            &&& chunks.len() == 1
            &&& json::object_field(chunks[0], "usage"@) matches Some(usage) && {
                &&& says(
                    chunks[0],
                    t,
                    time_of(v),
                    JsonView::Object(Map::empty()),
                    JsonView::Text(
                        if t.saw_tool_calls {
                            "tool_calls"@
                        } else {
                            "stop"@
                        },
                    ),
                    Some(usage),
                )
                &&& counts_for(
                    usage,
                    match json::object_field(response, "usage"@) {
                        Some(u) => u,
                        None => JsonView::Object(Map::empty()),
                    },
                )
            }
        },
{
    reveal_names();
    reveal_types();
    lemma_numbered(v);
    let seq = transform::upstream::optional_u64(v, "sequence_number"@)->Ok_0;
    let finish = if t.saw_tool_calls {
        "tool_calls"@
    } else {
        "stop"@
    };
    let counts = match json::object_field(response, "usage"@) {
        Some(u) => transform::upstream::usage_of(u)->Ok_0.usage(),
        None => transform::zero_usage(),
    };
    match json::object_field(response, "usage"@) {
        Some(u) => {
            lemma_counts(u);
        },
        None => {
            lemma_zero_counts();
        },
    }
    lemma_counts_are_written(counts);
    lemma_says(t, seq, JsonView::Object(Map::empty()), Some(finish), Some(counts.json()));
}

/// Every member of a chunk, of its choice, of what the choice adds, of a call and
/// of the counts is written.
pub proof fn law_every_member_is_written(key: Seq<char>)
    requires
        seq![
            "id"@,
            "object"@,
            "created"@,
            "model"@,
            "choices"@,
            "usage"@,
            "index"@,
            "delta"@,
            "finish_reason"@,
            "role"@,
            "content"@,
            "reasoning_content"@,
            "tool_calls"@,
            "type"@,
            "function"@,
            "name"@,
            "arguments"@,
            "prompt_tokens"@,
            "completion_tokens"@,
            "total_tokens"@,
            "prompt_tokens_details"@,
            "completion_tokens_details"@,
            "cached_tokens"@,
            "reasoning_tokens"@,
        ].contains(key),
    ensures
        transform::openai::member_order().contains(key),
{
    let o = transform::openai::member_order();
    assert(o[0] == "index"@ && o[1] == "id"@ && o[2] == "object"@ && o[3] == "created"@ && o[4]
        == "model"@ && o[5] == "choices"@ && o[6] == "delta"@ && o[7] == "finish_reason"@ && o[8]
        == "usage"@ && o[9] == "role"@ && o[10] == "content"@ && o[11] == "reasoning_content"@
        && o[12] == "tool_calls"@ && o[13] == "type"@ && o[14] == "function"@ && o[15] == "name"@
        && o[16] == "arguments"@ && o[17] == "prompt_tokens"@ && o[18] == "completion_tokens"@
        && o[19] == "total_tokens"@ && o[20] == "prompt_tokens_details"@ && o[21]
        == "completion_tokens_details"@ && o[22] == "cached_tokens"@ && o[23]
        == "reasoning_tokens"@);
}

} // verus!
