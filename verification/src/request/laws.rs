//! What holds of a request on its way to the backend.
//!
//! The laws speak of the members of a request and of the members of the body
//! that is made of it, as a client and the backend see them.
use crate::digest;
use crate::json;
use crate::json::JsonView;
use crate::model;
use crate::names;
use crate::request;
use crate::text;
use vstd::prelude::*;

verus! {

/// The entries of `input` in the backend body of a chat request.
pub open spec fn sent(request: JsonView, prefix: Seq<char>, inverse: Seq<char>) -> Seq<JsonView> {
    json::array_field(request::codex_body(request, prefix, inverse), "input"@)->0
}

/// A request with these chat messages.
pub open spec fn with_messages(request: JsonView, msgs: Seq<JsonView>) -> JsonView {
    json::with_field(request, "messages"@, JsonView::Array(msgs))
}

/// A content item with a text that is not empty.
pub open spec fn has_text(item: JsonView) -> bool {
    json::text_field(item, "text"@) matches Some(t) && t.len() > 0
}

/// The text of a content item, with the listed names replaced.
pub open spec fn codex_text(item: JsonView) -> Seq<char> {
    names::codex_named(json::text_field(item, "text"@)->0)
}

/// What a chat message says: its text without white space around it, or the
/// texts of its items, with the listed names replaced.
pub open spec fn said(msg: JsonView) -> Seq<Seq<char>> {
    match json::field(msg, "content"@) {
        Some(JsonView::Text(t)) => if text::trimmed(t).len() > 0 {
            seq![names::codex_named(text::trimmed(t))]
        } else {
            Seq::empty()
        },
        Some(JsonView::Array(items)) => items.filter(|item: JsonView| has_text(item)).map_values(
            |item: JsonView| codex_text(item),
        ),
        _ => Seq::empty(),
    }
}

/// An entry that is a message of this role, with these texts in items of this
/// kind.
pub open spec fn is_message(
    entry: JsonView,
    role: Seq<char>,
    id: Option<JsonView>,
    kind: Seq<char>,
    texts: Seq<Seq<char>>,
) -> bool {
    &&& json::text_field(entry, "type"@) == Some("message"@)
    &&& json::text_field(entry, "role"@) == Some(role)
    &&& json::field(entry, "id"@) == Some(
        match id {
            Some(x) => x,
            None => JsonView::Null,
        },
    )
    &&& json::array_field(entry, "content"@) matches Some(items) && {
        &&& items.len() == texts.len()
        &&& forall|i: int|
            0 <= i < items.len() ==> json::text_field(#[trigger] items[i], "type"@) == Some(kind)
                && json::text_field(items[i], "text"@) == Some(texts[i])
    }
}

/// What a list gives item by item is what the items to keep give.
proof fn lemma_gathered_filter<T>(
    s: Seq<JsonView>,
    f: spec_fn(JsonView) -> Seq<T>,
    keep: spec_fn(JsonView) -> bool,
    g: spec_fn(JsonView) -> T,
)
    requires
        forall|x: JsonView| keep(x) ==> #[trigger] f(x) == seq![g(x)],
        forall|x: JsonView| !keep(x) ==> #[trigger] f(x) == Seq::<T>::empty(),
    ensures
        request::gathered(s, f) == s.filter(keep).map_values(g),
    decreases s.len(),
{
    reveal(Seq::filter);
    if s.len() > 0 {
        lemma_gathered_filter(s.drop_last(), f, keep, g);
        let x = s.last();
        let before = s.drop_last().filter(keep);
        if keep(x) {
            assert(f(x) == seq![g(x)]);
            assert(before.push(x).map_values(g) =~= before.map_values(g) + seq![g(x)]);
        } else {
            assert(f(x) == Seq::<T>::empty());
            assert(before.map_values(g) + Seq::<T>::empty() =~= before.map_values(g));
        }
    } else {
        assert(request::gathered(s, f) =~= s.filter(keep).map_values(g));
    }
}

/// The texts of content items are those of the items with a text.
proof fn lemma_content_texts(items: Seq<JsonView>)
    ensures
        request::content_texts(items, true) == items.filter(
            |item: JsonView| has_text(item),
        ).map_values(|item: JsonView| codex_text(item)),
{
    lemma_gathered_filter(
        items,
        |item: JsonView| request::item_texts(item, true),
        |item: JsonView| has_text(item),
        |item: JsonView| codex_text(item),
    );
}

/// The texts of a message are what it says.
proof fn lemma_said(msg: JsonView)
    ensures
        request::text_segments(json::field(msg, "content"@), true) == said(msg),
{
    match json::field(msg, "content"@) {
        Some(JsonView::Array(items)) => {
            lemma_content_texts(items);
        },
        _ => {},
    }
}

/// A backend message is a message of its role and texts.
proof fn lemma_is_message(
    role: Seq<char>,
    id: Option<JsonView>,
    kind: Seq<char>,
    texts: Seq<Seq<char>>,
)
    ensures
        is_message(
            request::codex_message(
                role,
                match id {
                    Some(x) => x,
                    None => JsonView::Null,
                },
                kind,
                texts,
            ),
            role,
            id,
            kind,
            texts,
        ),
{
    request::reveal_member_names();
    reveal_strlit("type");
    assert("type"@[1] == 'y');
    let made = request::text_items(kind, texts);
    assert forall|i: int| 0 <= i < made.len() implies json::text_field(
        #[trigger] made[i],
        "type"@,
    ) == Some(kind) && json::text_field(made[i], "text"@) == Some(texts[i]) by {
        assert(made[i] == request::text_item(kind, texts[i]));
    }
}

/// The `input` of a backend body: the greeting and what the request becomes.
proof fn lemma_sent(request: JsonView, prefix: Seq<char>, inverse: Seq<char>)
    ensures
        sent(request, prefix, inverse) == seq![request::developer_message(inverse)]
            + request::request_input(request),
        json::array_field(request::codex_body(request, prefix, inverse), "input"@) is Some,
{
    request::reveal_member_names();
}

/// One more message adds what it becomes.
proof fn lemma_sent_grows(
    request: JsonView,
    msgs: Seq<JsonView>,
    msg: JsonView,
    prefix: Seq<char>,
    inverse: Seq<char>,
)
    requires
        request is Object,
        json::text_field(msg, "role"@) != Some("system"@),
    ensures
        sent(with_messages(request, msgs.push(msg)), prefix, inverse) == sent(
            with_messages(request, msgs),
            prefix,
            inverse,
        ) + request::codex_input(msg),
{
    let a = with_messages(request, msgs);
    let b = with_messages(request, msgs.push(msg));
    lemma_sent(a, prefix, inverse);
    lemma_sent(b, prefix, inverse);
    assert(msgs.push(msg).drop_last() =~= msgs);
    assert(request::all_system_parts(msgs.push(msg)) =~= request::all_system_parts(msgs));
    assert(sent(b, prefix, inverse) =~= sent(a, prefix, inverse) + request::codex_input(msg));
}

/// Without messages, the backend is sent the two `developer` messages: the
/// greeting and an empty system text.
pub proof fn law_no_messages_no_entries(
    request: JsonView,
    prefix: Seq<char>,
    inverse: Seq<char>,
)
    requires
        json::array_field(request, "messages"@) matches Some(msgs) ==> msgs.len() == 0,
    ensures
        sent(request, prefix, inverse).len() == 2,
        is_message(
            sent(request, prefix, inverse)[0],
            "developer"@,
            None,
            "input_text"@,
            seq![inverse],
        ),
        is_message(
            sent(request, prefix, inverse)[1],
            "developer"@,
            None,
            "input_text"@,
            seq![Seq::empty()],
        ),
{
    lemma_sent(request, prefix, inverse);
    lemma_is_message("developer"@, None, "input_text"@, seq![inverse]);
    lemma_is_message("developer"@, None, "input_text"@, seq![Seq::empty()]);
    assert(request::request_instructions(request) =~= Seq::<char>::empty());
}

/// A message of the user that says something becomes one more entry of
/// `input`: a message of the user, with what it says as input text.
pub proof fn law_user_message_is_sent(
    request: JsonView,
    msgs: Seq<JsonView>,
    msg: JsonView,
    prefix: Seq<char>,
    inverse: Seq<char>,
)
    requires
        request is Object,
        json::text_field(msg, "role"@) == Some("user"@),
    ensures
        ({
            let before = sent(with_messages(request, msgs), prefix, inverse);
            let after = sent(with_messages(request, msgs.push(msg)), prefix, inverse);
            if said(msg).len() == 0 {
                after == before
            } else {
                &&& after.len() == before.len() + 1
                &&& after.drop_last() == before
                &&& is_message(
                    after.last(),
                    "user"@,
                    json::field(msg, "id"@),
                    "input_text"@,
                    said(msg),
                )
            }
        }),
{
    request::reveal_member_names();
    lemma_sent_grows(request, msgs, msg, prefix, inverse);
    lemma_said(msg);
    lemma_is_message("user"@, json::field(msg, "id"@), "input_text"@, said(msg));
    let before = sent(with_messages(request, msgs), prefix, inverse);
    let after = sent(with_messages(request, msgs.push(msg)), prefix, inverse);
    if said(msg).len() == 0 {
        assert(after =~= before);
    } else {
        assert(after.drop_last() =~= before);
    }
}

/// The `function` of a tool call.
pub open spec fn function_of(call: JsonView) -> JsonView {
    match json::object_field(call, "function"@) {
        Some(f) => f,
        None => JsonView::Null,
    }
}

/// A text, or the empty one.
pub open spec fn or_empty(t: Option<Seq<char>>) -> Seq<char> {
    match t {
        Some(x) => x,
        None => Seq::empty(),
    }
}

/// An entry that is this tool call.
pub open spec fn is_call_entry(entry: JsonView, call: JsonView) -> bool {
    &&& json::text_field(entry, "type"@) == Some("function_call"@)
    &&& json::text_field(entry, "call_id"@) == Some(or_empty(json::text_field(call, "id"@)))
    &&& json::text_field(entry, "name"@) == Some(
        or_empty(json::text_field(function_of(call), "name"@)),
    )
    &&& json::text_field(entry, "arguments"@) == Some(
        match json::field(function_of(call), "arguments"@) {
            Some(JsonView::Text(t)) => t,
            Some(JsonView::Null) => Seq::empty(),
            None => Seq::empty(),
            Some(other) => json::json_text(other),
        },
    )
}

/// The tool calls of a message.
pub open spec fn calls_of(msg: JsonView) -> Seq<JsonView> {
    match json::array_field(msg, "tool_calls"@) {
        Some(calls) => calls.filter(|call: JsonView| call is Object),
        None => Seq::empty(),
    }
}

/// The entry of a tool call.
spec fn call_entry(call: JsonView) -> JsonView {
    request::codex_calls(call)[0]
}

/// Tool calls become entries one by one.
proof fn lemma_calls(msg: JsonView, calls: Seq<JsonView>)
    requires
        json::array_field(msg, "tool_calls"@) == Some(calls),
    ensures
        request::all_codex_calls(calls).len() == calls_of(msg).len(),
        forall|i: int|
            0 <= i < calls_of(msg).len() ==> is_call_entry(
                #[trigger] request::all_codex_calls(calls)[i],
                calls_of(msg)[i],
            ),
{
    request::reveal_member_names();
    let keep = |call: JsonView| call is Object;
    lemma_gathered_filter(
        calls,
        |call: JsonView| request::codex_calls(call),
        keep,
        |call: JsonView| call_entry(call),
    );
    let made = request::all_codex_calls(calls);
    assert forall|i: int| 0 <= i < made.len() implies is_call_entry(
        #[trigger] made[i],
        calls_of(msg)[i],
    ) by {
        let call = calls_of(msg)[i];
        assert(keep(call)) by {
            broadcast use vstd::seq_lib::group_filter_ensures;

        }
        assert(made[i] == call_entry(call));
    }
}

/// A message of the assistant becomes more entries of `input`: one message of
/// the assistant with what it says as output text, where it says something,
/// and then its tool calls, in their order.
pub proof fn law_assistant_message_is_sent(
    request: JsonView,
    msgs: Seq<JsonView>,
    msg: JsonView,
    prefix: Seq<char>,
    inverse: Seq<char>,
)
    requires
        request is Object,
        json::text_field(msg, "role"@) == Some("assistant"@),
    ensures
        ({
            let before = sent(with_messages(request, msgs), prefix, inverse);
            let after = sent(with_messages(request, msgs.push(msg)), prefix, inverse);
            let n: int = if said(msg).len() > 0 {
                before.len() as int + 1
            } else {
                before.len() as int
            };
            &&& after.len() == n + calls_of(msg).len()
            &&& after.take(before.len() as int) == before
            &&& said(msg).len() > 0 ==> is_message(
                after[before.len() as int],
                "assistant"@,
                json::field(msg, "id"@),
                "output_text"@,
                said(msg),
            )
            &&& forall|i: int|
                0 <= i < calls_of(msg).len() ==> is_call_entry(
                    after[n + i],
                    #[trigger] calls_of(msg)[i],
                )
        }),
{
    request::reveal_member_names();
    lemma_sent_grows(request, msgs, msg, prefix, inverse);
    lemma_said(msg);
    lemma_is_message("assistant"@, json::field(msg, "id"@), "output_text"@, said(msg));
    let before = sent(with_messages(request, msgs), prefix, inverse);
    let after = sent(with_messages(request, msgs.push(msg)), prefix, inverse);
    assert(after.take(before.len() as int) =~= before);
    let more = request::codex_input(msg);
    let k: int = if said(msg).len() > 0 {
        1
    } else {
        0
    };
    match json::array_field(msg, "tool_calls"@) {
        Some(calls) => {
            lemma_calls(msg, calls);
            let made = request::all_codex_calls(calls);
            assert(more.len() == k + made.len());
            assert forall|i: int| 0 <= i < calls_of(msg).len() implies is_call_entry(
                after[before.len() + k + i],
                #[trigger] calls_of(msg)[i],
            ) by {
                assert(after[before.len() + k + i] == more[k + i]);
                assert(more[k + i] == made[i]);
            }
        },
        None => {},
    }
}

/// What a tool said: a text as it is, the texts of an array one to a line,
/// nothing for `null`, and any other value as JSON.
pub open spec fn tool_said(msg: JsonView) -> Seq<char> {
    match json::field(msg, "content"@) {
        Some(JsonView::Text(t)) => t,
        Some(JsonView::Array(items)) => text::joined(
            items.filter(|item: JsonView| has_text(item)).map_values(
                |item: JsonView| json::text_field(item, "text"@)->0,
            ),
            "\n"@,
        ),
        None => Seq::empty(),
        Some(JsonView::Null) => Seq::empty(),
        Some(other) => json::json_text(other),
    }
}

/// The answer of a tool that says which call it belongs to becomes one more
/// entry of `input`, with that call and what the tool said. Without a call it
/// is left out.
pub proof fn law_tool_answer_is_sent(
    request: JsonView,
    msgs: Seq<JsonView>,
    msg: JsonView,
    prefix: Seq<char>,
    inverse: Seq<char>,
)
    requires
        request is Object,
        json::text_field(msg, "role"@) == Some("tool"@),
    ensures
        ({
            let before = sent(with_messages(request, msgs), prefix, inverse);
            let after = sent(with_messages(request, msgs.push(msg)), prefix, inverse);
            let call_id = or_empty(json::text_field(msg, "tool_call_id"@));
            if call_id.len() == 0 {
                after == before
            } else {
                &&& after.len() == before.len() + 1
                &&& after.drop_last() == before
                &&& json::text_field(after.last(), "type"@) == Some("function_call_output"@)
                &&& json::text_field(after.last(), "call_id"@) == Some(call_id)
                &&& json::text_field(after.last(), "output"@) == Some(tool_said(msg))
            }
        }),
{
    request::reveal_member_names();
    reveal_strlit("tool");
    assert("tool"@[0] == 't' && "tool"@.len() == 4);
    reveal_strlit("user");
    assert("user"@[0] == 'u');
    lemma_sent_grows(request, msgs, msg, prefix, inverse);
    let before = sent(with_messages(request, msgs), prefix, inverse);
    let after = sent(with_messages(request, msgs.push(msg)), prefix, inverse);
    match json::field(msg, "content"@) {
        Some(JsonView::Array(items)) => {
            lemma_gathered_filter(
                items,
                |item: JsonView| request::item_texts(item, false),
                |item: JsonView| has_text(item),
                |item: JsonView| json::text_field(item, "text"@)->0,
            );
        },
        _ => {},
    }
    if or_empty(json::text_field(msg, "tool_call_id"@)).len() == 0 {
        assert(after =~= before);
    } else {
        assert(after.drop_last() =~= before);
    }
}

/// A message of any other role adds no entry. One from the system changes
/// nothing but the text of the second `developer` message.
pub proof fn law_other_messages_add_no_entry(
    request: JsonView,
    msgs: Seq<JsonView>,
    msg: JsonView,
    prefix: Seq<char>,
    inverse: Seq<char>,
)
    requires
        request is Object,
        json::text_field(msg, "role"@) != Some("user"@),
        json::text_field(msg, "role"@) != Some("assistant"@),
        json::text_field(msg, "role"@) != Some("tool"@),
    ensures
        ({
            let before = sent(with_messages(request, msgs), prefix, inverse);
            let after = sent(with_messages(request, msgs.push(msg)), prefix, inverse);
            &&& after.len() == before.len()
            &&& forall|i: int|
                0 <= i < after.len() && i != 1 ==> #[trigger] after[i] == before[i]
            &&& json::text_field(msg, "role"@) != Some("system"@) ==> after == before
        }),
{
    request::reveal_member_names();
    reveal_strlit("tool");
    assert("tool"@.len() == 4);
    let a = with_messages(request, msgs);
    let b = with_messages(request, msgs.push(msg));
    lemma_sent(a, prefix, inverse);
    lemma_sent(b, prefix, inverse);
    assert(msgs.push(msg).drop_last() =~= msgs);
    let before = sent(a, prefix, inverse);
    let after = sent(b, prefix, inverse);
    assert(request::codex_input(msg) =~= Seq::<JsonView>::empty());
    assert(request::all_codex_input(msgs.push(msg)) =~= request::all_codex_input(msgs));
    if json::text_field(msg, "role"@) != Some("system"@) {
        lemma_sent_grows(request, msgs, msg, prefix, inverse);
        assert(after =~= before);
    }
}

/// What a message adds to the instructions: the text of a message from the
/// system, the texts of its items one to a line, with the listed names replaced.
pub open spec fn instruction(msg: JsonView) -> Option<Seq<char>> {
    if json::text_field(msg, "role"@) != Some("system"@) {
        None
    } else {
        match json::field(msg, "content"@) {
            Some(JsonView::Text(t)) => if t.len() > 0 {
                Some(names::codex_named(t))
            } else {
                None
            },
            Some(JsonView::Array(items)) => if items.filter(
                |item: JsonView| has_text(item),
            ).len() > 0 {
                Some(
                    text::joined(
                        items.filter(|item: JsonView| has_text(item)).map_values(
                            |item: JsonView| codex_text(item),
                        ),
                        "\n"@,
                    ),
                )
            } else {
                None
            },
            _ => None,
        }
    }
}

/// The instructions in chat messages.
pub open spec fn instructions_in(msgs: Seq<JsonView>) -> Seq<char> {
    text::trimmed(
        text::joined(
            msgs.filter(|msg: JsonView| instruction(msg) is Some).map_values(
                |msg: JsonView| instruction(msg)->0,
            ),
            "\n\n"@,
        ),
    )
}

/// The instructions of a request are those in its messages.
proof fn lemma_instructions(msgs: Seq<JsonView>)
    ensures
        text::trimmed(text::joined(request::all_system_parts(msgs), "\n\n"@)) == instructions_in(
            msgs,
        ),
{
    let f = |msg: JsonView| request::system_parts(msg);
    let keep = |msg: JsonView| instruction(msg) is Some;
    let g = |msg: JsonView| instruction(msg)->0;
    assert forall|msg: JsonView| keep(msg) implies #[trigger] f(msg) == seq![g(msg)] by {
        match json::field(msg, "content"@) {
            Some(JsonView::Array(items)) => {
                lemma_content_texts(items);
            },
            _ => {},
        }
    }
    assert forall|msg: JsonView| !keep(msg) implies #[trigger] f(msg) == Seq::<
        Seq<char>,
    >::empty() by {
        match json::field(msg, "content"@) {
            Some(JsonView::Array(items)) => {
                lemma_content_texts(items);
            },
            _ => {},
        }
    }
    lemma_gathered_filter(msgs, f, keep, g);
}

/// The instructions of a request are the texts of its system messages.
pub proof fn law_instructions_come_from_the_system(request: JsonView)
    ensures
        request::request_instructions(request) == (match json::array_field(
            request,
            "messages"@,
        ) {
            Some(msgs) => instructions_in(msgs),
            None => Seq::empty(),
        }),
{
    match json::array_field(request, "messages"@) {
        Some(msgs) => {
            lemma_instructions(msgs);
        },
        None => {},
    }
}

/// The text of the messages from the system travels in the second `developer`
/// message: message by message, with a blank line between two.
pub proof fn law_system_text_is_sent(
    request: JsonView,
    msgs: Seq<JsonView>,
    prefix: Seq<char>,
    inverse: Seq<char>,
)
    requires
        json::array_field(request, "messages"@) == Some(msgs),
    ensures
        is_message(
            sent(request, prefix, inverse)[0],
            "developer"@,
            None,
            "input_text"@,
            seq![inverse],
        ),
        is_message(
            sent(request, prefix, inverse)[1],
            "developer"@,
            None,
            "input_text"@,
            seq![instructions_in(msgs)],
        ),
{
    lemma_sent(request, prefix, inverse);
    lemma_instructions(msgs);
    lemma_is_message("developer"@, None, "input_text"@, seq![inverse]);
    lemma_is_message("developer"@, None, "input_text"@, seq![instructions_in(msgs)]);
}

/// A tool that the backend can be told of: a function.
pub open spec fn is_function(tool: JsonView) -> bool {
    json::text_field(tool, "type"@) == Some("function"@) && json::object_field(
        tool,
        "function"@,
    ) is Some
}

/// An entry of `tools` that describes this function.
pub open spec fn describes(entry: JsonView, tool: JsonView) -> bool {
    let func = json::object_field(tool, "function"@)->0;
    &&& json::text_field(entry, "type"@) == Some("function"@)
    &&& json::text_field(entry, "name"@) == Some(or_empty(json::text_field(func, "name"@)))
    &&& json::text_field(entry, "description"@) == Some(
        or_empty(json::text_field(func, "description"@)),
    )
    &&& json::bool_field(entry, "strict"@) == Some(false)
    &&& json::field(entry, "parameters"@) == Some(
        match json::field(func, "parameters"@) {
            Some(x) => x,
            None => JsonView::Null,
        },
    )
}

/// The entry of a tool.
spec fn tool_entry(tool: JsonView) -> JsonView {
    request::codex_tools(tool)[0]
}

/// Every function among the tools is described to the backend, in its place;
/// a request without tools has `null` for them.
pub proof fn law_functions_are_described(request: JsonView, prefix: Seq<char>, inverse: Seq<char>)
    ensures
        ({
            let body = request::codex_body(request, prefix, inverse);
            match json::array_field(request, "tools"@) {
                None => json::field(body, "tools"@) == Some(JsonView::Null),
                Some(tools) => {
                    let functions = tools.filter(|tool: JsonView| is_function(tool));
                    json::array_field(body, "tools"@) matches Some(made) && {
                        &&& made.len() == functions.len()
                        &&& forall|i: int|
                            0 <= i < made.len() ==> describes(#[trigger] made[i], functions[i])
                    }
                },
            }
        }),
{
    request::reveal_member_names();
    reveal_strlit("description");
    reveal_strlit("strict");
    reveal_strlit("parameters");
    assert("description"@.len() == 11);
    assert("strict"@.len() == 6);
    assert("parameters"@.len() == 10);
    match json::array_field(request, "tools"@) {
        None => {},
        Some(tools) => {
            let keep = |tool: JsonView| is_function(tool);
            lemma_gathered_filter(
                tools,
                |tool: JsonView| request::codex_tools(tool),
                keep,
                |tool: JsonView| tool_entry(tool),
            );
            let functions = tools.filter(keep);
            let made = request::all_codex_tools(tools);
            assert forall|i: int| 0 <= i < made.len() implies describes(
                #[trigger] made[i],
                functions[i],
            ) by {
                assert(keep(functions[i])) by {
                    broadcast use vstd::seq_lib::group_filter_ensures;

                }
                assert(made[i] == tool_entry(functions[i]));
            }
        },
    }
}

/// A text with something other than white space in it.
pub open spec fn is_filled(t: Option<Seq<char>>) -> bool {
    t matches Some(x) && text::trimmed(x).len() > 0
}

/// The backend model of a request: what the requested model stands for, and
/// `gpt-5` where none is requested.
pub open spec fn backend_model(request: JsonView) -> Seq<char> {
    if is_filled(json::text_field(request, "model"@)) {
        model::normalized(json::text_field(request, "model"@)->0)
    } else {
        "gpt-5"@
    }
}

/// The requested model is the one that the request names, without the white
/// space around it, and `gpt-5` where it names none.
pub proof fn law_requested_model(request: JsonView)
    ensures
        request::request_model(request) == (if is_filled(json::text_field(request, "model"@)) {
            text::trimmed(json::text_field(request, "model"@)->0)
        } else {
            "gpt-5"@
        }),
        model::normalized(request::request_model(request)) == backend_model(request),
{
    match json::text_field(request, "model"@) {
        Some(m) => {
            text::lemma_trimmed_idempotent(m);
        },
        None => {},
    }
    assert(model::KNOWN_MODELS@[17]@ == "gpt-5"@);
    model::law_known_ids_are_fixed("gpt-5"@);
}

/// What a backend body of a chat request says besides its messages, its tools
/// and its reasoning, member by member, and that it says nothing else.
pub proof fn law_chat_body_members(request: JsonView, prefix: Seq<char>, inverse: Seq<char>)
    ensures
        ({
            let body = request::codex_body(request, prefix, inverse);
            &&& body is Object
            &&& body->Object_0.dom() == set![
                "model"@,
                "instructions"@,
                "store"@,
                "stream"@,
                "input"@,
                "tools"@,
                "tool_choice"@,
                "parallel_tool_calls"@,
                "reasoning"@,
                "include"@,
                "prompt_cache_key"@,
            ]
            &&& json::text_field(body, "model"@) == Some(backend_model(request))
            &&& json::text_field(body, "instructions"@) == Some(prefix)
            &&& json::bool_field(body, "store"@) == Some(false)
            &&& json::bool_field(body, "stream"@) == Some(true)
            &&& json::text_field(body, "tool_choice"@) == Some(
                match json::text_field(request, "tool_choice"@) {
                    Some(t) => if t.len() > 0 {
                        t
                    } else {
                        "auto"@
                    },
                    None => "auto"@,
                },
            )
            &&& json::bool_field(body, "parallel_tool_calls"@) == Some(
                json::bool_field(request, "parallel_tool_calls"@) == Some(true),
            )
            &&& json::array_field(body, "include"@) == Some(
                seq![JsonView::Text("reasoning.encrypted_content"@)],
            )
        }),
{
    request::reveal_member_names();
    law_requested_model(request);
    let members = request::codex_members(request, prefix, inverse);
    request::lemma_cache_key_not_empty(
        request::request_model(request),
        prefix,
        request::first_user_text(JsonView::Object(members)),
    );
    let body = request::codex_body(request, prefix, inverse);
    assert(body->Object_0.dom() =~= set![
        "model"@,
        "instructions"@,
        "store"@,
        "stream"@,
        "input"@,
        "tools"@,
        "tool_choice"@,
        "parallel_tool_calls"@,
        "reasoning"@,
        "include"@,
        "prompt_cache_key"@,
    ]);
}

/// The effort that a request asks for: by `reasoning_effort`, else by
/// `reasoning.effort`, else by the suffix of the model.
pub open spec fn asked_effort(request: JsonView) -> Seq<char> {
    let inner = match json::object_field(request, "reasoning"@) {
        Some(r) => json::text_field(r, "effort"@),
        None => None,
    };
    if is_filled(json::text_field(request, "reasoning_effort"@)) {
        text::trimmed(json::text_field(request, "reasoning_effort"@)->0)
    } else if is_filled(inner) {
        text::trimmed(inner->0)
    } else {
        match json::text_field(request, "model"@) {
            Some(m) => or_empty(model::named_effort(m)),
            None => Seq::empty(),
        }
    }
}

/// The requested effort is the first of the three that is not blank.
pub proof fn law_requested_effort(request: JsonView)
    ensures
        request::request_effort(request) == asked_effort(request),
{
}

/// A `reasoning` object has this effort, none where it is empty, and the
/// summary that the request asks for: `auto` where it says nothing of it, and
/// none where it says `null`.
pub open spec fn reasons(settings: JsonView, effort: Seq<char>, request: JsonView) -> bool {
    &&& settings is Object
    &&& forall|k: Seq<char>| #[trigger]
        settings->Object_0.dom().contains(k) ==> k == "effort"@ || k == "summary"@
    &&& json::field(settings, "effort"@) == (if effort.len() > 0 {
        Some(JsonView::Text(effort))
    } else {
        None
    })
    &&& json::field(settings, "summary"@) == asked_summary(request)
}

/// The summary that a request asks for.
pub open spec fn asked_summary(request: JsonView) -> Option<JsonView> {
    match json::object_field(request, "reasoning"@) {
        Some(r) => match json::field(r, "summary"@) {
            Some(JsonView::Null) => None,
            Some(s) => Some(s),
            None => Some(JsonView::Text("auto"@)),
        },
        None => Some(JsonView::Text("auto"@)),
    }
}

/// A request's own effort and summary.
proof fn lemma_settings(effort: Seq<char>, request: JsonView)
    ensures
        reasons(request::settings(effort, request::request_summary(request)), effort, request),
{
    reveal_strlit("effort");
    reveal_strlit("summary");
    assert("effort"@.len() == 6);
    assert("summary"@.len() == 7);
}

/// The backend is asked for the effort that the request asks for, as far as
/// the model accepts it, and for the summary that the request asks for.
pub proof fn law_chat_reasoning(request: JsonView, prefix: Seq<char>, inverse: Seq<char>)
    ensures
        ({
            let body = request::codex_body(request, prefix, inverse);
            json::field(body, "reasoning"@) matches Some(settings) && reasons(
                settings,
                model::clamped(
                    model::normalized_effort(asked_effort(request)),
                    backend_model(request),
                ),
                request,
            )
        }),
{
    request::reveal_member_names();
    law_requested_model(request);
    lemma_settings(
        model::clamped(
            model::normalized_effort(asked_effort(request)),
            backend_model(request),
        ),
        request,
    );
}

/// A content item with a text that is not blank.
pub open spec fn has_filled_text(item: JsonView) -> bool {
    is_filled(json::text_field(item, "text"@))
}

/// What an entry of `input` has from the user.
pub open spec fn entry_says(entry: JsonView) -> Seq<Seq<char>> {
    match json::field(entry, "content"@) {
        Some(JsonView::Array(items)) => if json::text_field(entry, "role"@) == Some("user"@) {
            items.filter(|item: JsonView| has_filled_text(item)).map_values(
                |item: JsonView| json::text_field(item, "text"@)->0,
            )
        } else {
            Seq::empty()
        },
        _ => Seq::empty(),
    }
}

/// What a chat message has from the user: a whole text counts as well.
pub open spec fn message_says(msg: JsonView) -> Seq<Seq<char>> {
    match json::field(msg, "content"@) {
        Some(JsonView::Text(t)) => if json::text_field(msg, "role"@) == Some("user"@)
            && text::trimmed(t).len() > 0 {
            seq![t]
        } else {
            Seq::empty()
        },
        _ => entry_says(msg),
    }
}

/// What entries of `input` have from the user, one after the other.
pub open spec fn entries_say(entries: Seq<JsonView>) -> Seq<Seq<char>>
    decreases entries.len(),
{
    if entries.len() == 0 {
        Seq::empty()
    } else {
        entries_say(entries.drop_last()) + entry_says(entries.last())
    }
}

/// What chat messages have from the user, one after the other.
pub open spec fn messages_say(msgs: Seq<JsonView>) -> Seq<Seq<char>>
    decreases msgs.len(),
{
    if msgs.len() == 0 {
        Seq::empty()
    } else {
        messages_say(msgs.drop_last()) + message_says(msgs.last())
    }
}

/// What an entry has from the user.
proof fn lemma_entry_says(entry: JsonView)
    ensures
        request::entry_user_texts(entry) == entry_says(entry),
        request::message_user_texts(entry) == message_says(entry),
{
    match json::field(entry, "content"@) {
        Some(JsonView::Array(items)) => {
            lemma_gathered_filter(
                items,
                |item: JsonView| request::filled_text(item),
                |item: JsonView| has_filled_text(item),
                |item: JsonView| json::text_field(item, "text"@)->0,
            );
        },
        _ => {},
    }
}

/// What entries have from the user.
proof fn lemma_entries_say(entries: Seq<JsonView>)
    ensures
        request::all_entry_texts(entries) == entries_say(entries),
        request::all_message_texts(entries) == messages_say(entries),
    decreases entries.len(),
{
    if entries.len() > 0 {
        lemma_entries_say(entries.drop_last());
        lemma_entry_says(entries.last());
    }
}

/// The first text that counts as the user's is the first of `input` that is not
/// blank, else the first of `messages`, with the listed names replaced.
pub proof fn law_first_user_text(body: JsonView)
    ensures
        ({
            let all = (match json::array_field(body, "input"@) {
                Some(entries) => entries_say(entries),
                None => Seq::empty(),
            }) + (match json::array_field(body, "messages"@) {
                Some(msgs) => messages_say(msgs),
                None => Seq::empty(),
            });
            request::first_user_text(body) == (if all.len() > 0 {
                names::codex_named(all[0])
            } else {
                Seq::empty()
            })
        }),
{
    match json::array_field(body, "input"@) {
        Some(entries) => {
            lemma_entries_say(entries);
        },
        None => {},
    }
    match json::array_field(body, "messages"@) {
        Some(msgs) => {
            lemma_entries_say(msgs);
        },
        None => {},
    }
}

/// The cache key of a prompt is the UUID of the model, the instructions and the
/// first text of the user, one to a line, without white space around each; it is
/// empty where all three are blank.
pub proof fn law_cache_key(model: Seq<char>, instructions: Seq<char>, first: Seq<char>)
    ensures
        request::prompt_cache_key(model, instructions, first) == (if text::trimmed(model).len()
            == 0 && text::trimmed(instructions).len() == 0 && text::trimmed(first).len() == 0 {
            Seq::empty()
        } else {
            digest::text_uuid(
                text::trimmed(model) + "\n"@ + text::trimmed(instructions) + "\n"@ + text::trimmed(
                    first,
                ),
            )
        }),
{
}

/// The cache key of a chat body is made of its model, its instructions and the
/// first text of the user in its input.
pub proof fn law_chat_cache_key(request: JsonView, prefix: Seq<char>, inverse: Seq<char>)
    ensures
        ({
            let body = request::codex_body(request, prefix, inverse);
            let says = entries_say(sent(request, prefix, inverse));
            let first = if says.len() > 0 {
                names::codex_named(says[0])
            } else {
                Seq::empty()
            };
            json::text_field(body, "prompt_cache_key"@) == Some(
                digest::text_uuid(
                    backend_model(request) + "\n"@ + text::trimmed(prefix) + "\n"@
                        + text::trimmed(first),
                ),
            )
        }),
{
    request::reveal_member_names();
    reveal_strlit("messages");
    assert("messages"@.len() == 8);
    law_requested_model(request);
    lemma_sent(request, prefix, inverse);
    let members = request::codex_members(request, prefix, inverse);
    let bare = JsonView::Object(members);
    request::lemma_cache_key_not_empty(
        request::request_model(request),
        prefix,
        request::first_user_text(bare),
    );
    law_first_user_text(bare);
    assert(json::array_field(bare, "messages"@) is None);
    assert(json::array_field(bare, "input"@) == Some(sent(request, prefix, inverse)));
    let says = entries_say(sent(request, prefix, inverse));
    assert(says + Seq::<Seq<char>>::empty() =~= says);
    model::law_normalized_is_known(request::request_model(request));
    model::lemma_known_not_empty(backend_model(request));
}

/// An entry of `input` from the system.
pub open spec fn from_system(entry: JsonView) -> bool {
    json::text_field(entry, "role"@) == Some("system"@)
}

/// The text of the last entry from the system: the texts of its items, with a
/// blank line between two.
pub open spec fn system_text(input: Seq<JsonView>) -> Seq<char> {
    let all = input.filter(|entry: JsonView| from_system(entry));
    if all.len() == 0 {
        Seq::empty()
    } else {
        match json::array_field(all.last(), "content"@) {
            Some(items) => text::joined(
                items.filter(|item: JsonView| has_text(item)).map_values(
                    |item: JsonView| json::text_field(item, "text"@)->0,
                ),
                "\n\n"@,
            ),
            None => Seq::empty(),
        }
    }
}

/// The text of the last entry from the system.
proof fn lemma_system_text(input: Seq<JsonView>)
    ensures
        request::last_system_text(input) == system_text(input),
    decreases input.len(),
{
    reveal(Seq::filter);
    if input.len() > 0 {
        lemma_system_text(input.drop_last());
        let last = input.last();
        match json::array_field(last, "content"@) {
            Some(items) => {
                lemma_gathered_filter(
                    items,
                    |item: JsonView| request::item_texts(item, false),
                    |item: JsonView| has_text(item),
                    |item: JsonView| json::text_field(item, "text"@)->0,
                );
            },
            None => {},
        }
    }
}

/// What is all to be kept is kept.
proof fn lemma_filter_all(s: Seq<JsonView>, f: spec_fn(JsonView) -> bool)
    requires
        forall|i: int| 0 <= i < s.len() ==> f(#[trigger] s[i]),
    ensures
        s.filter(f) == s,
    decreases s.len(),
{
    reveal(Seq::filter);
    if s.len() > 0 {
        let t = s.drop_last();
        assert forall|i: int| 0 <= i < t.len() implies f(#[trigger] t[i]) by {
            assert(t[i] == s[i]);
        }
        lemma_filter_all(t, f);
        assert(f(s[s.len() - 1]));
        assert(s.filter(f) =~= s);
    } else {
        assert(s.filter(f) =~= s);
    }
}

/// A content item as it was, but for the listed names in its text.
pub open spec fn is_same_item(after: JsonView, item: JsonView) -> bool {
    if has_text(item) {
        &&& json::text_field(after, "text"@) == Some(codex_text(item))
        &&& forall|k: Seq<char>|
            k != "text"@ ==> #[trigger] json::field(after, k) == json::field(item, k)
    } else {
        after == item
    }
}

/// An entry of `input` as it was, but for the listed names in the texts of its
/// content. An entry without a content array is the same.
pub open spec fn is_same_entry(after: JsonView, entry: JsonView) -> bool {
    match json::array_field(entry, "content"@) {
        None => after == entry,
        Some(items) => {
            &&& forall|k: Seq<char>|
                k != "content"@ ==> #[trigger] json::field(after, k) == json::field(entry, k)
            &&& json::array_field(after, "content"@) matches Some(made) && {
                &&& made.len() == items.len()
                &&& forall|i: int|
                    0 <= i < made.len() ==> is_same_item(#[trigger] made[i], items[i])
            }
        },
    }
}

/// A rewritten entry is the same entry.
proof fn lemma_same_entry(entry: JsonView)
    ensures
        is_same_entry(request::sanitized_entry(entry), entry),
{
    match json::array_field(entry, "content"@) {
        None => {},
        Some(items) => {
            let made = items.map_values(|item: JsonView| request::sanitized_item(item));
            assert forall|i: int| 0 <= i < made.len() implies is_same_item(
                #[trigger] made[i],
                items[i],
            ) by {
                assert(made[i] == request::sanitized_item(items[i]));
            }
        },
    }
}

/// The instructions of a Responses body, without white space around them.
pub open spec fn own_text(body: JsonView) -> Seq<char> {
    text::trimmed(or_empty(json::text_field(body, "instructions"@)))
}

/// The entries of a Responses body.
pub open spec fn entries_of(body: JsonView) -> Seq<JsonView> {
    match json::array_field(body, "input"@) {
        Some(a) => a,
        None => Seq::empty(),
    }
}

/// Every entry of `input` that is not from the system is sent to the backend,
/// in its order, the same but for the listed names. The text from the system
/// leads them as a `developer` message where the body has instructions of its
/// own, and goes into the instructions where it has none.
#[verifier::rlimit(30)]
pub proof fn law_responses_entries_are_kept(body: JsonView, model: Seq<char>, effort: Seq<char>)
    requires
        body is Object,
    ensures
        ({
            let out = request::responses_body(body, model, effort);
            let kept = entries_of(body).filter(|entry: JsonView| !from_system(entry));
            let system = system_text(entries_of(body));
            let n: int = if own_text(body).len() > 0 && system.len() > 0 {
                1
            } else {
                0
            };
            &&& json::text_field(out, "instructions"@) == Some(
                if own_text(body).len() > 0 {
                    own_text(body)
                } else if system.len() > 0 {
                    names::codex_named(system)
                } else {
                    Seq::empty()
                },
            )
            &&& if n + kept.len() == 0 {
                json::field(out, "input"@) == Some(JsonView::Null)
            } else {
                json::array_field(out, "input"@) matches Some(entries) && {
                    &&& entries.len() == n + kept.len()
                    &&& n == 1 ==> json::text_field(entries[0], "role"@) == Some("developer"@)
                        && json::text_field(entries[0], "content"@) == Some(
                        names::codex_named(system),
                    )
                    &&& forall|i: int|
                        0 <= i < kept.len() ==> is_same_entry(
                            entries[n + i],
                            #[trigger] kept[i],
                        )
                }
            }
        }),
{
    request::reveal_member_names();
    request::law_responses_body(body, model, effort);
    let input = entries_of(body);
    lemma_system_text(input);
    let f = |msg: JsonView| !request::is_system(msg);
    let g = |entry: JsonView| !from_system(entry);
    assert(f =~= g);
    let kept = input.filter(g);
    assert(request::other_entries(input) == kept);
    let all = request::responses_entries(body);
    let system = system_text(input);
    let n: int = if own_text(body).len() > 0 && system.len() > 0 {
        1
    } else {
        0
    };
    assert(own_text(body) == request::own_instructions(body));
    assert forall|i: int| 0 <= i < all.len() implies f(#[trigger] all[i]) by {
        if i >= n {
            assert(all[i] == kept[i - n]);
            assert(g(kept[i - n])) by {
                broadcast use vstd::seq_lib::group_filter_ensures;

            }
        }
    }
    lemma_filter_all(all, f);
    let made = request::sanitized_entries(all);
    if all.len() > 0 {
        assert(made.len() == all.len());
        assert forall|i: int| 0 <= i < kept.len() implies is_same_entry(
            made[n + i],
            #[trigger] kept[i],
        ) by {
            assert(all[n + i] == kept[i]);
            assert(made[n + i] == request::sanitized_entry(all[n + i]));
            lemma_same_entry(kept[i]);
        }
        if n == 1 {
            assert(made[0] == request::sanitized_entry(all[0]));
            lemma_same_entry(all[0]);
        }
    }
}

/// What a rewritten Responses body says besides its entries and instructions:
/// the backend model, what the backend is always told, the client's own choices
/// where it made them, the effort and summary, and the cache key that it
/// brought, or one of its model, instructions and first text of the user.
#[verifier::rlimit(30)]
pub proof fn law_responses_body_members(body: JsonView, model: Seq<char>, effort: Seq<char>)
    requires
        body is Object,
    ensures
        ({
            let out = request::responses_body(body, model, effort);
            let e = model::clamped(model::normalized_effort(effort), model::normalized(model));
            &&& out is Object
            &&& json::text_field(out, "model"@) == Some(model::normalized(model))
            &&& json::bool_field(out, "store"@) == Some(false)
            &&& json::bool_field(out, "stream"@) == Some(true)
            &&& json::array_field(out, "include"@) == Some(
                seq![JsonView::Text("reasoning.encrypted_content"@)],
            )
            &&& json::field(out, "tool_choice"@) == Some(
                match json::field(body, "tool_choice"@) {
                    Some(x) => x,
                    None => JsonView::Text("auto"@),
                },
            )
            &&& json::field(out, "parallel_tool_calls"@) == Some(
                match json::field(body, "parallel_tool_calls"@) {
                    Some(x) => x,
                    None => JsonView::Bool(false),
                },
            )
            &&& json::field(out, "max_output_tokens"@) is None
            &&& json::field(out, "max_tokens"@) is None
            &&& json::field(out, "reasoning_effort"@) is None
            &&& if e.len() == 0 && asked_summary(body) is None {
                json::field(out, "reasoning"@) is None
            } else {
                json::field(out, "reasoning"@) matches Some(settings) && reasons(settings, e, body)
            }
            &&& request::responses_effort(model, effort) == e
            &&& json::text_field(out, "prompt_cache_key"@) == Some(
                match json::text_field(body, "prompt_cache_key"@) {
                    Some(key) => key,
                    None => digest::text_uuid(
                        model::normalized(model) + "\n"@ + text::trimmed(
                            json::text_field(out, "instructions"@)->0,
                        ) + "\n"@ + text::trimmed(request::first_user_text(out)),
                    ),
                },
            )
        }),
{
    request::reveal_member_names();
    reveal_strlit("messages");
    assert("messages"@.len() == 8);
    let e = model::clamped(model::normalized_effort(effort), model::normalized(model));
    lemma_settings(e, body);
    model::law_normalized_is_known(model);
    model::lemma_known_not_empty(model::normalized(model));
    let core = request::responses_core(body, model, effort);
    let out = request::responses_body(body, model, effort);
    assert(json::array_field(out, "input"@) == json::array_field(core, "input"@));
    assert(json::array_field(out, "messages"@) == json::array_field(core, "messages"@));
    assert(request::user_texts(out) == request::user_texts(core));
    assert(request::first_user_text(out) == request::first_user_text(core));
    assert(json::text_field(out, "instructions"@) == Some(request::responses_instructions(body)));
    request::lemma_cache_key_not_empty(
        model,
        request::responses_instructions(body),
        request::first_user_text(core),
    );
}

} // verus!
