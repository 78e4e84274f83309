//! What a client that does not stream gets of a stream.
//!
//! The laws speak of the chunks that are gathered, of the events that are
//! searched, and of the object that a client gets, member by member.
use super::CallDelta;
use super::CallView;
use super::GatheredView;
use crate::buffered;
use crate::json;
use crate::json::JsonView;
use crate::json::NumView;
use crate::transform;
use crate::transform::Outcome;
use crate::transform::TransformerView;
use vstd::prelude::*;

verus! {

/// A text, or the default where it is empty.
pub open spec fn or_else(t: Seq<char>, default: Seq<char>) -> Seq<char> {
    if t.len() > 0 {
        t
    } else {
        default
    }
}

/// An entry of `tool_calls` that is this call.
pub open spec fn is_call(entry: JsonView, c: CallView) -> bool {
    &&& json::text_field(entry, "id"@) == Some(c.id)
    &&& json::text_field(entry, "type"@) == Some("function"@)
    &&& json::object_field(entry, "function"@) matches Some(f) && {
        &&& json::text_field(f, "name"@) == Some(c.name)
        &&& json::text_field(f, "arguments"@) == Some(c.arguments)
    }
}

/// A message that says all that was gathered: its content, its reasoning where
/// there is any, and every tool call in its order, whatever else there is.
pub open spec fn tells(message: JsonView, g: GatheredView) -> bool {
    &&& json::text_field(message, "role"@) == Some(or_else(g.role, "assistant"@))
    &&& json::text_field(message, "content"@) == Some(g.content)
    &&& json::field(message, "reasoning_content"@) == (if g.reasoning_content.len() > 0 {
        Some(JsonView::Text(g.reasoning_content))
    } else {
        None
    })
    &&& g.tool_calls.len() == 0 ==> json::field(message, "tool_calls"@) is None
    &&& g.tool_calls.len() > 0 ==> (json::array_field(message, "tool_calls"@) matches Some(entries)
        && entries.len() == g.tool_calls.len() && forall|i: int|
        0 <= i < entries.len() ==> is_call(#[trigger] entries[i], g.tool_calls[i]))
}

/// The member names of a completion, told apart by length and letters.
proof fn reveal_names()
    ensures
        "message"@.len() == 7 && "message"@[0] == 'm',
{
    reveal_strlit("message");
}

/// A completion is one choice with the message that was gathered and the reason
/// why it ended, under the id, model and time that were gathered, with the
/// counts where there are any. What no chunk brought has its default.
pub proof fn law_completion_tells_all(g: GatheredView, model: Seq<char>, now: i64)
    ensures
        ({
            let c = buffered::completion(g, model, now);
            &&& json::text_field(c, "id"@) == Some(or_else(g.id, "chatcmpl-buffered"@))
            &&& json::text_field(c, "object"@) == Some("chat.completion"@)
            &&& json::field(c, "created"@) == Some(
                JsonView::Num(
                    NumView::Int(
                        if g.created != 0 {
                            g.created as int
                        } else {
                            now as int
                        },
                    ),
                ),
            )
            &&& json::text_field(c, "model"@) == Some(or_else(g.model, model))
            &&& json::field(c, "usage"@) == g.usage
            &&& json::array_field(c, "choices"@) matches Some(choices) && {
                &&& choices.len() == 1
                &&& json::field(choices[0], "index"@) == Some(JsonView::Num(NumView::Int(0)))
                &&& json::text_field(choices[0], "finish_reason"@) == Some(
                    or_else(g.finish_reason, "stop"@),
                )
                &&& json::object_field(choices[0], "message"@) matches Some(m) && tells(m, g)
            }
        }),
{
    buffered::reveal_chunk_names();
    reveal_names();
    let made = buffered::calls_json(g.tool_calls);
    assert forall|i: int| 0 <= i < made.len() implies is_call(
        #[trigger] made[i],
        g.tool_calls[i],
    ) by {
        assert(made[i] == buffered::call_json(g.tool_calls[i]));
    }
    assert(tells(buffered::message_json(g), g));
}

/// A member that is a text, `null` or absent.
pub open spec fn is_text_or_none(v: JsonView, key: Seq<char>) -> bool {
    json::field(v, key) matches Some(x) ==> x is Text || x is Null
}

/// The text of a member, empty where it has none.
pub open spec fn text_of(v: JsonView, key: Seq<char>) -> Seq<char> {
    match json::text_field(v, key) {
        Some(x) => x,
        None => Seq::empty(),
    }
}

/// A chunk that can be read, with one choice and this delta.
pub open spec fn is_readable(v: JsonView, choice: JsonView, delta: JsonView) -> bool {
    &&& v is Object
    &&& json::field(v, "id"@) matches Some(x) ==> x is Text
    &&& json::field(v, "model"@) matches Some(x) ==> x is Text
    &&& json::field(v, "created"@) matches Some(x) ==> (x matches JsonView::Num(NumView::Int(n))
        && i64::MIN <= n <= i64::MAX)
    &&& json::array_field(v, "choices"@) == Some(seq![choice])
    &&& choice is Object
    &&& json::field(choice, "delta"@) == Some(delta)
    &&& delta is Object
    &&& is_text_or_none(choice, "finish_reason"@)
    &&& is_text_or_none(delta, "role"@)
    &&& is_text_or_none(delta, "content"@)
    &&& is_text_or_none(delta, "reasoning_content"@)
}

/// The time of a chunk, zero where it has none.
pub open spec fn time_of(v: JsonView) -> int {
    match json::field(v, "created"@) {
        Some(JsonView::Num(NumView::Int(n))) => n,
        _ => 0,
    }
}

/// What a readable chunk adds, apart from its tool calls.
pub open spec fn is_added(
    after: GatheredView,
    g: GatheredView,
    v: JsonView,
    choice: JsonView,
    delta: JsonView,
) -> bool {
    &&& after.id == or_else(g.id, text_of(v, "id"@))
    &&& after.model == or_else(g.model, text_of(v, "model"@))
    &&& after.created == (if g.created != 0 {
        g.created as int
    } else {
        time_of(v)
    })
    &&& after.role == or_else(g.role, text_of(delta, "role"@))
    &&& after.content == g.content + text_of(delta, "content"@)
    &&& after.reasoning_content == g.reasoning_content + text_of(delta, "reasoning_content"@)
    &&& after.finish_reason == or_else(text_of(choice, "finish_reason"@), g.finish_reason)
    &&& after.usage == (match json::field(v, "usage"@) {
        Some(JsonView::Null) => g.usage,
        Some(u) => Some(u),
        None => g.usage,
    })
}

/// How a choice is read.
proof fn lemma_choice(choice: JsonView, delta: JsonView)
    requires
        choice is Object,
        json::field(choice, "delta"@) == Some(delta),
        delta is Object,
        is_text_or_none(choice, "finish_reason"@),
        is_text_or_none(delta, "role"@),
        is_text_or_none(delta, "content"@),
        is_text_or_none(delta, "reasoning_content"@),
    ensures
        match buffered::delta_calls(delta) {
            None => buffered::choice_of(choice) is None,
            Some(calls) => buffered::choice_of(choice) matches Some(c) && {
                &&& c.role == json::text_field(delta, "role"@)
                &&& c.content == json::text_field(delta, "content"@)
                &&& c.reasoning_content == json::text_field(delta, "reasoning_content"@)
                &&& c.finish_reason == json::text_field(choice, "finish_reason"@)
                &&& c.tool_calls == calls
            },
        },
{
}

/// A chunk with one choice adds that choice.
proof fn lemma_one_choice(g: GatheredView, v: JsonView, choice: JsonView, delta: JsonView)
    requires
        is_readable(v, choice, delta),
        buffered::delta_calls(delta) is Some,
    ensures
        is_added(buffered::with_chunk(g, v), g, v, choice, delta),
        buffered::with_chunk(g, v).tool_calls == buffered::with_calls(
            g.tool_calls,
            buffered::delta_calls(delta)->0,
        ),
{
    lemma_choice(choice, delta);
    let one = seq![choice];
    let c = buffered::choice_of(choice)->0;
    assert(one.drop_last() =~= Seq::<JsonView>::empty());
    reveal_with_fuel(buffered::choices_of, 2);
    let cs = Seq::<super::ChoiceDelta>::empty().push(c);
    assert(buffered::choices_of(one) == Some(cs));
    assert(cs.drop_last() =~= Seq::<super::ChoiceDelta>::empty());
    reveal_with_fuel(buffered::with_choices, 2);
    assert(g.role.len() == 0 ==> g.role =~= Seq::<char>::empty());
    assert(g.content + Seq::<char>::empty() =~= g.content);
    assert(g.reasoning_content + Seq::<char>::empty() =~= g.reasoning_content);
    let base = GatheredView {
        id: buffered::first_filled(g.id, Some(text_of(v, "id"@))),
        model: buffered::first_filled(g.model, Some(text_of(v, "model"@))),
        created: if g.created == 0 {
            time_of(v) as i64
        } else {
            g.created
        },
        usage: match buffered::chunk_usage(v) {
            Some(u) => Some(u),
            None => g.usage,
        },
        ..g
    };
    assert(buffered::with_chunk(g, v) == buffered::with_choice(base, c));
}

/// A chunk without tool calls appends its texts, keeps the calls, and gives the
/// reason of the end and the counts where it has them.
pub proof fn law_texts_are_appended(
    g: GatheredView,
    v: JsonView,
    choice: JsonView,
    delta: JsonView,
)
    requires
        is_readable(v, choice, delta),
        json::field(delta, "tool_calls"@) matches Some(x) ==> x is Null,
    ensures
        is_added(buffered::with_chunk(g, v), g, v, choice, delta),
        buffered::with_chunk(g, v).tool_calls == g.tool_calls,
{
    lemma_one_choice(g, v, choice, delta);
}

/// A piece of a tool call that can be read, and what it says.
pub open spec fn is_piece(call: JsonView, d: CallDelta) -> bool {
    let f = match json::field(call, "function"@) {
        Some(x) => x,
        None => JsonView::Null,
    };
    &&& json::field(call, "index"@) == Some(JsonView::Num(NumView::Int(d.index as int)))
    &&& is_text_or_none(call, "id"@)
    &&& is_text_or_none(call, "type"@)
    &&& f is Object || f is Null
    &&& is_text_or_none(f, "name"@)
    &&& is_text_or_none(f, "arguments"@)
    &&& d.id == json::text_field(call, "id"@)
    &&& d.name == json::text_field(f, "name"@)
    &&& d.arguments == json::text_field(f, "arguments"@)
}

/// A chunk with one piece of a tool call adds that piece to the calls.
pub proof fn law_piece_is_added(
    g: GatheredView,
    v: JsonView,
    choice: JsonView,
    delta: JsonView,
    call: JsonView,
    d: CallDelta,
)
    requires
        is_readable(v, choice, delta),
        json::array_field(delta, "tool_calls"@) == Some(seq![call]),
        is_piece(call, d),
    ensures
        is_added(buffered::with_chunk(g, v), g, v, choice, delta),
        buffered::with_chunk(g, v).tool_calls == buffered::with_call(g.tool_calls, d),
{
    assert(buffered::call_of(call) == Some(d));
    let one = seq![call];
    assert(one.drop_last() =~= Seq::<JsonView>::empty());
    reveal_with_fuel(buffered::calls_of, 2);
    let ds = Seq::<CallDelta>::empty().push(d);
    assert(buffered::calls_of(one) == Some(ds));
    assert(ds.drop_last() =~= Seq::<CallDelta>::empty());
    reveal_with_fuel(buffered::with_calls, 2);
    lemma_one_choice(g, v, choice, delta);
}

/// A call with this index is among the calls.
pub open spec fn has_index(calls: Seq<CallView>, index: usize) -> bool {
    exists|i: int| 0 <= i < calls.len() && (#[trigger] calls[i]).index == index
}

/// The call that a piece belongs to, as it was: the one with its index, or an
/// empty one.
pub open spec fn was(calls: Seq<CallView>, index: usize, c: CallView) -> bool {
    &&& c.index == index
    &&& if has_index(calls, index) {
        calls.contains(c)
    } else {
        c.id.len() == 0 && c.name.len() == 0 && c.arguments.len() == 0
    }
}

/// A piece goes to the call with its index, which takes over its id and name
/// where it brings them and appends its arguments. Every other call stays as it
/// is, and none is lost.
pub proof fn law_piece_goes_to_its_call(
    calls: Seq<CallView>,
    d: CallDelta,
    c: CallView,
    x: CallView,
)
    requires
        buffered::in_order(calls),
        was(calls, d.index, c),
    ensures
        ({
            let merged = CallView {
                index: d.index,
                id: match d.id {
                    Some(t) => or_else(t, c.id),
                    None => c.id,
                },
                name: match d.name {
                    Some(t) => or_else(t, c.name),
                    None => c.name,
                },
                arguments: match d.arguments {
                    Some(t) => c.arguments + t,
                    None => c.arguments,
                },
            };
            let after = buffered::with_call(calls, d);
            &&& after.contains(merged)
            &&& x.index != d.index ==> (after.contains(x) <==> calls.contains(x))
            &&& x.index == d.index ==> (after.contains(x) <==> x == merged)
            &&& after.len() == (if has_index(calls, d.index) {
                calls.len()
            } else {
                calls.len() + 1
            })
        }),
    decreases calls.len(),
{
    let after = buffered::with_call(calls, d);
    if calls.len() == 0 || calls[0].index > d.index {
        let first = buffered::with_delta(buffered::empty_call(d.index), d);
        assert(!has_index(calls, d.index)) by {
            if has_index(calls, d.index) {
                let i = choose|i: int| 0 <= i < calls.len() && (#[trigger] calls[i]).index
                    == d.index;
                if i > 0 {
                    assert(calls[0].index < calls[i].index);
                }
            }
        }
        assert(c.id =~= Seq::<char>::empty());
        assert(c.name =~= Seq::<char>::empty());
        assert(c.arguments =~= Seq::<char>::empty());
        assert(after[0] == first);
        lemma_contains_head(first, calls, x);
        lemma_contains_head(first, calls, first);
        assert(after == seq![first] + calls);
        if x.index == d.index && calls.contains(x) {
            let i = choose|i: int| 0 <= i < calls.len() && calls[i] == x;
            assert(calls[i].index == d.index);
        }
    } else if calls[0].index == d.index {
        let rest = calls.skip(1);
        let first = buffered::with_delta(calls[0], d);
        assert(calls =~= seq![calls[0]] + rest);
        lemma_contains_head(calls[0], rest, x);
        lemma_contains_head(calls[0], rest, c);
        lemma_contains_head(first, rest, x);
        lemma_contains_head(first, rest, first);
        assert(has_index(calls, d.index));
        if rest.contains(c) {
            let i = choose|i: int| 0 <= i < rest.len() && rest[i] == c;
            assert(calls[0].index < calls[i + 1].index);
        }
        if rest.contains(x) {
            let i = choose|i: int| 0 <= i < rest.len() && rest[i] == x;
            assert(calls[0].index < calls[i + 1].index);
        }
        assert(after == seq![first] + rest);
    } else {
        let rest = calls.skip(1);
        assert(calls =~= seq![calls[0]] + rest);
        assert forall|i: int, j: int| 0 <= i < j < rest.len() implies (#[trigger] rest[i]).index < (
        #[trigger] rest[j]).index by {
            assert(calls[i + 1].index < calls[j + 1].index);
        }
        assert(has_index(rest, d.index) == has_index(calls, d.index)) by {
            if has_index(calls, d.index) {
                let i = choose|i: int| 0 <= i < calls.len() && (#[trigger] calls[i]).index
                    == d.index;
                assert(rest[i - 1].index == d.index);
            }
            if has_index(rest, d.index) {
                let i = choose|i: int| 0 <= i < rest.len() && (#[trigger] rest[i]).index
                    == d.index;
                assert(calls[i + 1].index == d.index);
            }
        }
        lemma_contains_head(calls[0], rest, c);
        assert(was(rest, d.index, c));
        law_piece_goes_to_its_call(rest, d, c, x);
        let more = buffered::with_call(rest, d);
        assert(after == seq![calls[0]] + more);
        lemma_contains_head(calls[0], rest, x);
        lemma_contains_head(calls[0], more, x);
        lemma_contains_head(calls[0], more, buffered::with_delta(c, d));
    }
}

/// What is in a list is its first or in the rest.
proof fn lemma_contains_head(first: CallView, rest: Seq<CallView>, x: CallView)
    ensures
        (seq![first] + rest).contains(x) <==> x == first || rest.contains(x),
{
    let whole = seq![first] + rest;
    if rest.contains(x) {
        let i = choose|i: int| 0 <= i < rest.len() && rest[i] == x;
        assert(whole[i + 1] == x);
    }
    if whole.contains(x) {
        let i = choose|i: int| 0 <= i < whole.len() && whole[i] == x;
        if i > 0 {
            assert(rest[i - 1] == x);
        }
    }
    assert(whole[0] == first);
}

/// Chunks are added one after the other.
pub proof fn law_chunks_are_added_in_turn(g: GatheredView, chunks: Seq<JsonView>, last: JsonView)
    ensures
        buffered::with_chunks(g, Seq::empty()) == g,
        buffered::with_chunks(g, chunks.push(last)) == buffered::with_chunk(
            buffered::with_chunks(g, chunks),
            last,
        ),
{
    assert(chunks.push(last).drop_last() =~= chunks);
}

/// Events are gathered one after the other: the chunks that an event becomes are
/// added before the events that follow, and the first invalid event ends it with
/// its message. Neither the sentinel nor an event without chunks does.
pub proof fn law_events_are_gathered_in_turn(
    t: TransformerView,
    g: GatheredView,
    event: Seq<u8>,
    rest: Seq<Seq<u8>>,
)
    ensures
        buffered::gather(t, g, Seq::empty()) == Ok::<GatheredView, Seq<char>>(g),
        buffered::gather(t, g, seq![event] + rest) == (match transform::outcome(t, event) {
            Outcome::Invalid(m) => Err(m),
            Outcome::Emitted(chunks) => buffered::gather(
                transform::after_data(t, event),
                buffered::with_chunks(g, chunks),
                rest,
            ),
            Outcome::Swallowed => buffered::gather(transform::after_data(t, event), g, rest),
            Outcome::Done => buffered::gather(transform::after_data(t, event), g, rest),
        }),
{
    let all = seq![event] + rest;
    assert(all.skip(1) =~= rest);
    assert(all[0] == event);
}

/// The response of a Responses stream is that of its first final event; of an
/// `error` event only the last is kept, for a stream without a final one; what
/// is no JSON and what is no final event is passed over.
pub proof fn law_first_final_event_counts(
    event: Seq<u8>,
    rest: Seq<Seq<u8>>,
    last_error: Option<JsonView>,
)
    ensures
        buffered::find_response(Seq::empty(), last_error) == Err::<JsonView, Option<JsonView>>(
            last_error,
        ),
        buffered::find_response(seq![event] + rest, last_error) == (match json::json_parse(event) {
            Err(_) => buffered::find_response(rest, last_error),
            Ok(v) => {
                let kind = json::text_field(v, "type"@);
                let ends = kind == Some("response.completed"@) || kind == Some(
                    "response.failed"@,
                ) || kind == Some("response.incomplete"@);
                match json::object_field(v, "response"@) {
                    Some(response) if ends => Ok(response),
                    _ => buffered::find_response(
                        rest,
                        if kind == Some("error"@) {
                            Some(v)
                        } else {
                            last_error
                        },
                    ),
                }
            },
        }),
{
    reveal_strlit("error");
    reveal_strlit("response.completed");
    reveal_strlit("response.failed");
    reveal_strlit("response.incomplete");
    assert("error"@.len() == 5);
    assert("response.completed"@.len() == 18);
    assert("response.failed"@.len() == 15);
    assert("response.incomplete"@.len() == 19);
    let all = seq![event] + rest;
    assert(all.skip(1) =~= rest);
    assert(all[0] == event);
}

} // verus!
