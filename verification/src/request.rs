//! Requests to the backend.
//!
//! [`build_codex_request_body`] makes the backend body of an OpenAI Chat
//! Completions request; [`transform_responses_request_body`] rewrites a
//! Responses API body in place. Both read loosely typed JSON: a member of an
//! unexpected type counts as absent.
use crate::digest;
use crate::json;
use crate::json::Json;
use crate::json::JsonView;
use crate::model;
use crate::names;
use crate::text;
use vstd::prelude::*;

pub use crate::digest::hash_to_uuid;
pub use crate::names::replace_names;

pub mod laws;

verus! {

/// The prompts that the backend expects.
#[derive(Debug, Clone)]
pub struct Prompts {
    /// The system prompt of the Codex agent, sent as the request's
    /// `instructions`.
    pub codex_instructions_prefix: String,
    /// The text of the leading `developer` message.
    pub inverse_prompt: String,
}

/// What `f` gives for each item, one after another.
pub open spec fn gathered<T>(s: Seq<JsonView>, f: spec_fn(JsonView) -> Seq<T>) -> Seq<T>
    decreases s.len(),
{
    if s.len() == 0 {
        Seq::empty()
    } else {
        gathered(s.drop_last(), f) + f(s.last())
    }
}

/// One more item adds what `f` gives for it.
proof fn lemma_gathered_step<T>(s: Seq<JsonView>, i: int, f: spec_fn(JsonView) -> Seq<T>)
    requires
        0 <= i < s.len(),
    ensures
        gathered(s.take(i + 1), f) == gathered(s.take(i), f) + f(s[i]),
{
    assert(s.take(i + 1).drop_last() =~= s.take(i));
}

/// What the first items give comes first.
proof fn lemma_gathered_prefix<T>(s: Seq<JsonView>, i: int, f: spec_fn(JsonView) -> Seq<T>)
    requires
        0 <= i <= s.len(),
    ensures
        gathered(s.take(i), f).len() <= gathered(s, f).len(),
        gathered(s.take(i), f) == gathered(s, f).take(gathered(s.take(i), f).len() as int),
    decreases s.len() - i,
{
    if i == s.len() {
        assert(s.take(i) =~= s);
        assert(gathered(s, f).take(gathered(s, f).len() as int) =~= gathered(s, f));
    } else {
        lemma_gathered_prefix(s, i + 1, f);
        lemma_gathered_step(s, i, f);
        let a = gathered(s.take(i), f);
        let b = gathered(s.take(i + 1), f);
        assert(a =~= b.take(a.len() as int));
        assert(gathered(s, f).take(a.len() as int) =~= b.take(a.len() as int));
    }
}

/// The requested model, without surrounding white space; `gpt-5` where there
/// is none.
pub open spec fn request_model(request: JsonView) -> Seq<char> {
    match json::text_field(request, "model"@) {
        Some(m) => if text::trimmed(m).len() > 0 {
            text::trimmed(m)
        } else {
            model::GPT5@
        },
        None => model::GPT5@,
    }
}

/// The requested model.
pub fn resolve_request_model(request: &Json) -> (r: String)
    ensures
        r@ == request_model(request@),
{
    match request.get_str("model") {
        Some(m) => {
            let trimmed = text::trim(m);
            if trimmed.as_str().is_empty() {
                model::GPT5.to_owned()
            } else {
                trimmed
            }
        },
        None => model::GPT5.to_owned(),
    }
}

/// A text field without surrounding white space, where that leaves anything.
pub open spec fn filled_field(v: JsonView, key: Seq<char>) -> Option<Seq<char>> {
    match json::text_field(v, key) {
        Some(t) => if text::trimmed(t).len() > 0 {
            Some(text::trimmed(t))
        } else {
            None
        },
        None => None,
    }
}

/// The requested reasoning effort: `reasoning_effort`, else
/// `reasoning.effort`, else the suffix of the model name, else empty. The
/// suffix is the one that normalizing the model strips.
pub open spec fn request_effort(request: JsonView) -> Seq<char> {
    match filled_field(request, "reasoning_effort"@) {
        Some(e) => e,
        None => match (match json::object_field(request, "reasoning"@) {
            Some(r) => filled_field(r, "effort"@),
            None => None,
        }) {
            Some(e) => e,
            None => match json::text_field(request, "model"@) {
                Some(m) => match model::named_effort(m) {
                    Some(e) => e,
                    None => Seq::empty(),
                },
                None => Seq::empty(),
            },
        },
    }
}

/// The text of a field without surrounding white space, where that leaves
/// anything.
fn get_filled(v: &Json, key: &str) -> (r: Option<String>)
    ensures
        match r {
            Some(t) => filled_field(v@, key@) == Some(t@),
            None => filled_field(v@, key@) is None,
        },
{
    match v.get_str(key) {
        Some(t) => {
            let trimmed = text::trim(t);
            if trimmed.as_str().is_empty() {
                None
            } else {
                Some(trimmed)
            }
        },
        None => None,
    }
}

/// The requested reasoning effort; empty where the request names none.
pub fn resolve_reasoning_effort(request: &Json) -> (r: String)
    ensures
        r@ == request_effort(request@),
{
    match get_filled(request, "reasoning_effort") {
        Some(e) => {
            return e;
        },
        None => {},
    }
    match request.get_object("reasoning") {
        Some(r) => match get_filled(r, "effort") {
            Some(e) => {
                return e;
            },
            None => {},
        },
        None => {},
    }
    match request.get_str("model") {
        Some(m) => match model::name_effort(m) {
            Some(e) => e.to_owned(),
            None => String::new(),
        },
        None => String::new(),
    }
}

/// The requested reasoning summary: `reasoning.summary` where it is there,
/// `"auto"` where it is not, and nothing where it is `null`.
pub open spec fn request_summary(request: JsonView) -> Option<JsonView> {
    match json::object_field(request, "reasoning"@) {
        Some(r) => match json::field(r, "summary"@) {
            Some(s) => if s is Null {
                None
            } else {
                Some(s)
            },
            None => Some(JsonView::Text("auto"@)),
        },
        None => Some(JsonView::Text("auto"@)),
    }
}

/// The requested reasoning summary.
pub fn resolve_reasoning_summary(request: &Json) -> (r: Option<Json>)
    ensures
        match r {
            Some(j) => request_summary(request@) == Some(j@),
            None => request_summary(request@) is None,
        },
{
    match request.get_object("reasoning") {
        Some(r) => match r.get("summary") {
            Some(s) => if s.is_null() {
                None
            } else {
                Some(s.clone())
            },
            None => Some(Json::text("auto")),
        },
        None => Some(Json::text("auto")),
    }
}

/// `{effort?, summary?}`: an empty effort and an absent summary are left out.
pub open spec fn settings(effort: Seq<char>, summary: Option<JsonView>) -> JsonView {
    let a = if effort.len() > 0 {
        Map::<Seq<char>, JsonView>::empty().insert("effort"@, JsonView::Text(effort))
    } else {
        Map::empty()
    };
    JsonView::Object(
        match summary {
            Some(s) => a.insert("summary"@, s),
            None => a,
        },
    )
}

/// The `reasoning` object of these settings.
fn make_settings(effort: &str, summary: Option<Json>) -> (r: Json)
    ensures
        r@ == settings(
            effort@,
            match summary {
                Some(s) => Some(s@),
                None => None,
            },
        ),
{
    let mut out = Json::object();
    if !effort.is_empty() {
        out = out.with("effort", Json::text(effort));
    }
    match summary {
        Some(s) => out.with("summary", s),
        None => out,
    }
}

/// The `reasoning` object of a chat request: the effort clamped to what the
/// backend model accepts, and the summary.
pub open spec fn reasoning_settings(request: JsonView) -> JsonView {
    settings(
        model::clamped(
            model::normalized_effort(request_effort(request)),
            model::normalized(request_model(request)),
        ),
        request_summary(request),
    )
}

/// The `reasoning` object of a chat request.
pub fn build_reasoning_settings(request: &Json) -> (r: Json)
    ensures
        r@ == reasoning_settings(request@),
{
    let requested = resolve_reasoning_effort(request);
    let normalized = model::normalize_reasoning_effort(requested.as_str());
    let wanted = resolve_request_model(request);
    let backend = model::normalize_model(wanted.as_str());
    let clamped = model::clamp_reasoning_effort_for_model(normalized, backend);
    make_settings(clamped.as_str(), resolve_reasoning_summary(request))
}

/// The key under which the backend caches the prompt of a conversation.
pub open spec fn prompt_cache_key(
    model: Seq<char>,
    instructions: Seq<char>,
    first_user_text: Seq<char>,
) -> Seq<char> {
    let m = text::trimmed(model);
    let i = text::trimmed(instructions);
    let f = text::trimmed(first_user_text);
    if m.len() == 0 && i.len() == 0 && f.len() == 0 {
        Seq::empty()
    } else {
        digest::text_uuid(m + "\n"@ + i + "\n"@ + f)
    }
}

/// The key under which the backend caches the prompt of a conversation: a UUID
/// of the three texts, or empty where all three are blank.
pub fn derive_prompt_cache_key(model: &str, instructions: &str, first_user_text: &str) -> (r:
    String)
    ensures
        r@ == prompt_cache_key(model@, instructions@, first_user_text@),
{
    let m = text::trim(model);
    let i = text::trim(instructions);
    let f = text::trim(first_user_text);
    if m.as_str().is_empty() && i.as_str().is_empty() && f.as_str().is_empty() {
        return String::new();
    }
    let mut payload: String = m;
    payload.append("\n");
    payload.append(i.as_str());
    payload.append("\n");
    payload.append(f.as_str());
    hash_to_uuid(payload.as_str())
}

/// The text of a content item, where there is any; listed names replaced where
/// `replace` says so.
pub open spec fn item_texts(item: JsonView, replace: bool) -> Seq<Seq<char>> {
    match json::text_field(item, "text"@) {
        Some(t) => if t.len() == 0 {
            Seq::empty()
        } else if replace {
            seq![names::codex_named(t)]
        } else {
            seq![t]
        },
        None => Seq::empty(),
    }
}

/// The texts of all content items.
pub open spec fn content_texts(content: Seq<JsonView>, replace: bool) -> Seq<Seq<char>> {
    gathered(content, |item: JsonView| item_texts(item, replace))
}

/// The texts of all content items.
fn collect_item_texts(content: &Vec<Json>, replace: bool) -> (r: Vec<String>)
    ensures
        text::views(r@) == content_texts(json::items(content@), replace),
{
    let mut out: Vec<String> = Vec::new();
    let ghost all = json::items(content@);
    let mut i: usize = 0;
    proof {
        assert(text::views(out@) =~= content_texts(all.take(0), replace));
    }
    while i < content.len()
        invariant
            i <= content@.len(),
            all == json::items(content@),
            text::views(out@) == content_texts(all.take(i as int), replace),
        decreases content@.len() - i,
    {
        let ghost before = text::views(out@);
        match content[i].get_str("text") {
            Some(t) => if !t.is_empty() {
                let piece: String = if replace {
                    replace_names(t)
                } else {
                    t.to_owned()
                };
                out.push(piece);
            },
            None => {},
        }
        proof {
            assert(all[i as int] == content@[i as int]@);
            assert(all.take(i + 1).drop_last() =~= all.take(i as int));
            assert(text::views(out@) =~= before + item_texts(all[i as int], replace));
        }
        i += 1;
    }
    proof {
        assert(all.take(i as int) =~= all);
    }
    out
}

/// What a message adds to the instructions: the text of a `system` message.
pub open spec fn system_parts(msg: JsonView) -> Seq<Seq<char>> {
    if json::text_field(msg, "role"@) == Some("system"@) {
        match json::field(msg, "content"@) {
            Some(JsonView::Text(t)) => if t.len() == 0 {
                Seq::empty()
            } else {
                seq![names::codex_named(t)]
            },
            Some(JsonView::Array(content)) => {
                let segments = content_texts(content, true);
                if segments.len() == 0 {
                    Seq::empty()
                } else {
                    seq![text::joined(segments, "\n"@)]
                }
            },
            _ => Seq::empty(),
        }
    } else {
        Seq::empty()
    }
}

/// What all messages add to the instructions.
pub open spec fn all_system_parts(msgs: Seq<JsonView>) -> Seq<Seq<char>> {
    gathered(msgs, |msg: JsonView| system_parts(msg))
}

/// The text of the `system` messages: content segments joined by a newline,
/// messages by a blank line, listed names replaced.
pub open spec fn request_instructions(request: JsonView) -> Seq<char> {
    match json::array_field(request, "messages"@) {
        Some(msgs) => text::trimmed(text::joined(all_system_parts(msgs), "\n\n"@)),
        None => Seq::empty(),
    }
}

/// Whether a text field of `v` holds this text.
fn field_is(v: &Json, key: &str, wanted: &str) -> (r: bool)
    ensures
        r == (json::text_field(v@, key@) == Some(wanted@)),
{
    match v.get_str(key) {
        Some(t) => text::same(t, wanted),
        None => false,
    }
}

/// The text that a message adds to the instructions.
fn system_part(msg: &Json) -> (r: Option<String>)
    ensures
        match r {
            Some(t) => system_parts(msg@) == seq![t@],
            None => system_parts(msg@) == Seq::<Seq<char>>::empty(),
        },
{
    if !field_is(msg, "role", "system") {
        return None;
    }
    match msg.get("content") {
        Some(Json::Text(t)) => if t.as_str().is_empty() {
            None
        } else {
            Some(replace_names(t.as_str()))
        },
        Some(Json::Array(content)) => {
            let segments = collect_item_texts(content, true);
            proof {
                assert(text::views(segments@).len() == segments@.len());
            }
            if segments.len() == 0 {
                None
            } else {
                Some(text::join(&segments, "\n"))
            }
        },
        _ => None,
    }
}

/// The text of the `system` messages of a chat request.
pub fn extract_instructions(request: &Json) -> (r: String)
    ensures
        r@ == request_instructions(request@),
{
    let msgs: &Vec<Json> = match request.get_array("messages") {
        Some(a) => a,
        None => {
            return String::new();
        },
    };
    let ghost all = json::items(msgs@);
    let mut parts: Vec<String> = Vec::new();
    let mut i: usize = 0;
    proof {
        assert(text::views(parts@) =~= all_system_parts(all.take(0)));
    }
    while i < msgs.len()
        invariant
            i <= msgs@.len(),
            all == json::items(msgs@),
            text::views(parts@) == all_system_parts(all.take(i as int)),
        decreases msgs@.len() - i,
    {
        let ghost before = text::views(parts@);
        match system_part(&msgs[i]) {
            Some(t) => parts.push(t),
            None => {},
        }
        proof {
            assert(all[i as int] == msgs@[i as int]@);
            assert(all.take(i + 1).drop_last() =~= all.take(i as int));
            assert(text::views(parts@) =~= before + system_parts(all[i as int]));
        }
        i += 1;
    }
    proof {
        assert(all.take(i as int) =~= all);
    }
    let joined = text::join(&parts, "\n\n");
    text::trim(joined.as_str())
}

/// The text of a content item, where it is not blank.
pub open spec fn filled_text(item: JsonView) -> Seq<Seq<char>> {
    match json::text_field(item, "text"@) {
        Some(t) => if text::trimmed(t).len() > 0 {
            seq![t]
        } else {
            Seq::empty()
        },
        None => Seq::empty(),
    }
}

/// The texts of content items that are not blank.
pub open spec fn filled_texts(content: Seq<JsonView>) -> Seq<Seq<char>> {
    gathered(content, |item: JsonView| filled_text(item))
}

/// The texts of an entry of `input` from the user.
pub open spec fn entry_user_texts(entry: JsonView) -> Seq<Seq<char>> {
    if json::text_field(entry, "role"@) == Some("user"@) {
        match json::array_field(entry, "content"@) {
            Some(content) => filled_texts(content),
            None => Seq::empty(),
        }
    } else {
        Seq::empty()
    }
}

/// The texts of a chat message from the user.
pub open spec fn message_user_texts(msg: JsonView) -> Seq<Seq<char>> {
    if json::text_field(msg, "role"@) == Some("user"@) {
        match json::field(msg, "content"@) {
            Some(JsonView::Text(t)) => if text::trimmed(t).len() > 0 {
                seq![t]
            } else {
                Seq::empty()
            },
            Some(JsonView::Array(content)) => filled_texts(content),
            _ => Seq::empty(),
        }
    } else {
        Seq::empty()
    }
}

/// The user texts of all entries of `input`.
pub open spec fn all_entry_texts(entries: Seq<JsonView>) -> Seq<Seq<char>> {
    gathered(entries, |entry: JsonView| entry_user_texts(entry))
}

/// The user texts of all chat messages.
pub open spec fn all_message_texts(msgs: Seq<JsonView>) -> Seq<Seq<char>> {
    gathered(msgs, |msg: JsonView| message_user_texts(msg))
}

/// All user texts of a body that are not blank: those of `input`, then those
/// of `messages`.
pub open spec fn user_texts(body: JsonView) -> Seq<Seq<char>> {
    (match json::array_field(body, "input"@) {
        Some(entries) => all_entry_texts(entries),
        None => Seq::empty(),
    }) + (match json::array_field(body, "messages"@) {
        Some(msgs) => all_message_texts(msgs),
        None => Seq::empty(),
    })
}

/// The first user text of a body, listed names replaced; empty where there is
/// none.
pub open spec fn first_user_text(body: JsonView) -> Seq<char> {
    if user_texts(body).len() > 0 {
        names::codex_named(user_texts(body)[0])
    } else {
        Seq::empty()
    }
}

/// The first text of content items that is not blank.
fn first_filled_text(content: &Vec<Json>) -> (r: Option<&str>)
    ensures
        match r {
            Some(t) => filled_texts(json::items(content@)).len() > 0 && filled_texts(
                json::items(content@),
            )[0] == t@,
            None => filled_texts(json::items(content@)).len() == 0,
        },
{
    let ghost all = json::items(content@);
    let ghost f = |item: JsonView| filled_text(item);
    let mut i: usize = 0;
    while i < content.len()
        invariant
            i <= content@.len(),
            all == json::items(content@),
            f == (|item: JsonView| filled_text(item)),
            gathered(all.take(i as int), f).len() == 0,
        decreases content@.len() - i,
    {
        proof {
            assert(all[i as int] == content@[i as int]@);
            lemma_gathered_step(all, i as int, f);
            lemma_gathered_prefix(all, i + 1, f);
        }
        match content[i].get_str("text") {
            Some(t) => {
                let trimmed = text::trim(t);
                if !trimmed.as_str().is_empty() {
                    proof {
                        let part = gathered(all.take(i + 1), f);
                        assert(f(all[i as int]) == seq![t@]);
                        assert(part[0] == t@);
                        assert(gathered(all, f)[0] == part[0]);
                        assert(filled_texts(all) == gathered(all, f));
                    }
                    return Some(t);
                }
            },
            None => {},
        }
        i += 1;
    }
    proof {
        assert(all.take(i as int) =~= all);
        assert(filled_texts(all) == gathered(all, f));
    }
    None
}

/// The first user text of an entry of `input`.
fn entry_user_text(entry: &Json) -> (r: Option<&str>)
    ensures
        match r {
            Some(t) => entry_user_texts(entry@).len() > 0 && entry_user_texts(entry@)[0] == t@,
            None => entry_user_texts(entry@).len() == 0,
        },
{
    if field_is(entry, "role", "user") {
        match entry.get_array("content") {
            Some(content) => first_filled_text(content),
            None => None,
        }
    } else {
        None
    }
}

/// The first user text of a chat message.
fn message_user_text(msg: &Json) -> (r: Option<&str>)
    ensures
        match r {
            Some(t) => message_user_texts(msg@).len() > 0 && message_user_texts(msg@)[0] == t@,
            None => message_user_texts(msg@).len() == 0,
        },
{
    if field_is(msg, "role", "user") {
        match msg.get("content") {
            Some(Json::Text(t)) => {
                let trimmed = text::trim(t.as_str());
                if trimmed.as_str().is_empty() {
                    None
                } else {
                    Some(t.as_str())
                }
            },
            Some(Json::Array(content)) => first_filled_text(content),
            _ => None,
        }
    } else {
        None
    }
}

/// The first user text of a list of `input` entries.
fn first_entry_text(entries: &Vec<Json>) -> (r: Option<&str>)
    ensures
        match r {
            Some(t) => all_entry_texts(json::items(entries@)).len() > 0 && all_entry_texts(
                json::items(entries@),
            )[0] == t@,
            None => all_entry_texts(json::items(entries@)).len() == 0,
        },
{
    let ghost all = json::items(entries@);
    let ghost f = |entry: JsonView| entry_user_texts(entry);
    let mut i: usize = 0;
    while i < entries.len()
        invariant
            i <= entries@.len(),
            all == json::items(entries@),
            f == (|entry: JsonView| entry_user_texts(entry)),
            gathered(all.take(i as int), f).len() == 0,
        decreases entries@.len() - i,
    {
        proof {
            assert(all[i as int] == entries@[i as int]@);
            lemma_gathered_step(all, i as int, f);
            lemma_gathered_prefix(all, i + 1, f);
        }
        match entry_user_text(&entries[i]) {
            Some(t) => {
                proof {
                    let part = gathered(all.take(i + 1), f);
                    assert(part =~= f(all[i as int]));
                    assert(gathered(all, f)[0] == part[0]);
                    assert(all_entry_texts(all) == gathered(all, f));
                }
                return Some(t);
            },
            None => {},
        }
        i += 1;
    }
    proof {
        assert(all.take(i as int) =~= all);
        assert(all_entry_texts(all) == gathered(all, f));
    }
    None
}

/// The first user text of a list of chat messages.
fn first_message_text(msgs: &Vec<Json>) -> (r: Option<&str>)
    ensures
        match r {
            Some(t) => all_message_texts(json::items(msgs@)).len() > 0 && all_message_texts(
                json::items(msgs@),
            )[0] == t@,
            None => all_message_texts(json::items(msgs@)).len() == 0,
        },
{
    let ghost all = json::items(msgs@);
    let ghost f = |msg: JsonView| message_user_texts(msg);
    let mut i: usize = 0;
    while i < msgs.len()
        invariant
            i <= msgs@.len(),
            all == json::items(msgs@),
            f == (|msg: JsonView| message_user_texts(msg)),
            gathered(all.take(i as int), f).len() == 0,
        decreases msgs@.len() - i,
    {
        proof {
            assert(all[i as int] == msgs@[i as int]@);
            lemma_gathered_step(all, i as int, f);
            lemma_gathered_prefix(all, i + 1, f);
        }
        match message_user_text(&msgs[i]) {
            Some(t) => {
                proof {
                    let part = gathered(all.take(i + 1), f);
                    assert(part =~= f(all[i as int]));
                    assert(gathered(all, f)[0] == part[0]);
                    assert(all_message_texts(all) == gathered(all, f));
                }
                return Some(t);
            },
            None => {},
        }
        i += 1;
    }
    proof {
        assert(all.take(i as int) =~= all);
        assert(all_message_texts(all) == gathered(all, f));
    }
    None
}

/// The first user text of a body, listed names replaced: from `input`, else
/// from `messages`, else empty.
pub fn extract_first_user_text(body: &Json) -> (r: String)
    ensures
        r@ == first_user_text(body@),
{
    match body.get_array("input") {
        Some(entries) => match first_entry_text(entries) {
            Some(t) => {
                return replace_names(t);
            },
            None => {},
        },
        None => {},
    }
    match body.get_array("messages") {
        Some(msgs) => match first_message_text(msgs) {
            Some(t) => {
                return replace_names(t);
            },
            None => {},
        },
        None => {},
    }
    String::new()
}

/// The text segments of a message: a string as one segment without
/// surrounding white space, an array as the texts of its items.
pub open spec fn text_segments(content: Option<JsonView>, replace: bool) -> Seq<Seq<char>> {
    match content {
        Some(JsonView::Text(t)) => {
            let u = text::trimmed(t);
            if u.len() == 0 {
                Seq::empty()
            } else if replace {
                seq![names::codex_named(u)]
            } else {
                seq![u]
            }
        },
        Some(JsonView::Array(a)) => content_texts(a, replace),
        _ => Seq::empty(),
    }
}

/// The value behind an optional tree.
pub open spec fn seen(content: Option<&Json>) -> Option<JsonView> {
    match content {
        Some(j) => Some(j@),
        None => None,
    }
}

/// The text segments of a message.
pub fn collect_text_segments(content: Option<&Json>, apply_replace: bool) -> (r: Vec<String>)
    ensures
        text::views(r@) == text_segments(seen(content), apply_replace),
{
    match content {
        Some(Json::Text(t)) => {
            let trimmed = text::trim(t.as_str());
            let mut out: Vec<String> = Vec::new();
            if !trimmed.as_str().is_empty() {
                let piece: String = if apply_replace {
                    replace_names(trimmed.as_str())
                } else {
                    trimmed
                };
                out.push(piece);
            }
            proof {
                assert(text::views(out@) =~= text_segments(seen(content), apply_replace));
            }
            out
        },
        Some(Json::Array(a)) => collect_item_texts(a, apply_replace),
        _ => {
            let out: Vec<String> = Vec::new();
            proof {
                assert(text::views(out@) =~= Seq::<Seq<char>>::empty());
            }
            out
        },
    }
}

/// The arguments of a tool call as text: a string as it is, nothing for
/// `null`, else compact JSON.
pub open spec fn arguments_text(arg: Option<JsonView>) -> Seq<char> {
    match arg {
        Some(JsonView::Text(t)) => t,
        None => Seq::empty(),
        Some(JsonView::Null) => Seq::empty(),
        Some(other) => json::json_text(other),
    }
}

/// The arguments of a tool call as text.
pub fn extract_arguments_string(arg: Option<&Json>) -> (r: String)
    ensures
        r@ == arguments_text(seen(arg)),
{
    match arg {
        Some(Json::Text(t)) => t.clone(),
        None => String::new(),
        Some(Json::Null) => String::new(),
        Some(other) => other.to_text(),
    }
}

/// The output of a tool as text: a string as it is, the texts of an array
/// joined by newlines, nothing for `null`, else compact JSON.
pub open spec fn tool_output(content: Option<JsonView>) -> Seq<char> {
    match content {
        Some(JsonView::Text(t)) => t,
        Some(JsonView::Array(a)) => text::joined(content_texts(a, false), "\n"@),
        None => Seq::empty(),
        Some(JsonView::Null) => Seq::empty(),
        Some(other) => json::json_text(other),
    }
}

/// The output of a tool as text.
pub fn collect_tool_output(content: Option<&Json>) -> (r: String)
    ensures
        r@ == tool_output(seen(content)),
{
    match content {
        Some(Json::Text(t)) => t.clone(),
        Some(Json::Array(a)) => {
            let parts = collect_item_texts(a, false);
            text::join(&parts, "\n")
        },
        None => String::new(),
        Some(Json::Null) => String::new(),
        Some(other) => other.to_text(),
    }
}

/// A text field, or the empty text where it is absent.
pub open spec fn text_or_empty(v: JsonView, key: Seq<char>) -> Seq<char> {
    match json::text_field(v, key) {
        Some(t) => t,
        None => Seq::empty(),
    }
}

/// A field, or `null` where it is absent.
pub open spec fn field_or_null(v: JsonView, key: Seq<char>) -> JsonView {
    match json::field(v, key) {
        Some(x) => x,
        None => JsonView::Null,
    }
}

/// A text field as a string, empty where it is absent.
fn get_text_or_empty(v: &Json, key: &str) -> (r: Json)
    ensures
        r@ == JsonView::Text(text_or_empty(v@, key@)),
{
    match v.get_str(key) {
        Some(t) => Json::text(t),
        None => Json::Text(String::new()),
    }
}

/// A field, `null` where it is absent.
fn get_or_null(v: &Json, key: &str) -> (r: Json)
    ensures
        r@ == field_or_null(v@, key@),
{
    match v.get(key) {
        Some(x) => x.clone(),
        None => Json::Null,
    }
}

/// The backend form of a tool: one object for a `function` tool, nothing for
/// any other.
pub open spec fn codex_tools(tool: JsonView) -> Seq<JsonView> {
    if json::text_field(tool, "type"@) == Some("function"@) {
        match json::object_field(tool, "function"@) {
            Some(func) => seq![
                JsonView::Object(
                    map![
                        "type"@ => JsonView::Text("function"@),
                        "name"@ => JsonView::Text(text_or_empty(func, "name"@)),
                        "description"@ => JsonView::Text(text_or_empty(func, "description"@)),
                        "strict"@ => JsonView::Bool(false),
                        "parameters"@ => field_or_null(func, "parameters"@),
                    ],
                ),
            ],
            None => Seq::empty(),
        }
    } else {
        Seq::empty()
    }
}

/// The backend form of all tools.
pub open spec fn all_codex_tools(tools: Seq<JsonView>) -> Seq<JsonView> {
    gathered(tools, |tool: JsonView| codex_tools(tool))
}

/// The `tools` of the backend body: `null` where the request has none.
pub open spec fn request_tools(request: JsonView) -> JsonView {
    match json::array_field(request, "tools"@) {
        Some(tools) => JsonView::Array(all_codex_tools(tools)),
        None => JsonView::Null,
    }
}

/// The backend form of a tool.
fn codex_tool(tool: &Json) -> (r: Option<Json>)
    ensures
        match r {
            Some(j) => codex_tools(tool@) == seq![j@],
            None => codex_tools(tool@) == Seq::<JsonView>::empty(),
        },
{
    if !field_is(tool, "type", "function") {
        return None;
    }
    match tool.get_object("function") {
        Some(func) => Some(
            Json::object().with("type", Json::text("function")).with(
                "name",
                get_text_or_empty(func, "name"),
            ).with("description", get_text_or_empty(func, "description")).with(
                "strict",
                Json::Bool(false),
            ).with("parameters", get_or_null(func, "parameters")),
        ),
        None => None,
    }
}

/// The `tools` of the backend body.
pub fn map_tools_to_codex(request: &Json) -> (r: Json)
    ensures
        r@ == request_tools(request@),
{
    let tools: &Vec<Json> = match request.get_array("tools") {
        Some(a) => a,
        None => {
            return Json::Null;
        },
    };
    let ghost all = json::items(tools@);
    let mut out: Vec<Json> = Vec::new();
    let mut i: usize = 0;
    proof {
        assert(json::items(out@) =~= all_codex_tools(all.take(0)));
    }
    while i < tools.len()
        invariant
            i <= tools@.len(),
            all == json::items(tools@),
            json::items(out@) == all_codex_tools(all.take(i as int)),
        decreases tools@.len() - i,
    {
        let ghost before = json::items(out@);
        match codex_tool(&tools[i]) {
            Some(j) => out.push(j),
            None => {},
        }
        proof {
            assert(all[i as int] == tools@[i as int]@);
            assert(all.take(i + 1).drop_last() =~= all.take(i as int));
            assert(json::items(out@) =~= before + codex_tools(all[i as int]));
        }
        i += 1;
    }
    proof {
        assert(all.take(i as int) =~= all);
    }
    Json::Array(out)
}

/// One text item of a backend message.
pub open spec fn text_item(kind: Seq<char>, t: Seq<char>) -> JsonView {
    JsonView::Object(map!["type"@ => JsonView::Text(kind), "text"@ => JsonView::Text(t)])
}

/// The text items of a backend message.
pub open spec fn text_items(kind: Seq<char>, texts: Seq<Seq<char>>) -> Seq<JsonView> {
    texts.map_values(|t: Seq<char>| text_item(kind, t))
}

/// A backend message.
pub open spec fn codex_message(
    role: Seq<char>,
    id: JsonView,
    kind: Seq<char>,
    texts: Seq<Seq<char>>,
) -> JsonView {
    JsonView::Object(
        map![
            "type"@ => JsonView::Text("message"@),
            "id"@ => id,
            "role"@ => JsonView::Text(role),
            "content"@ => JsonView::Array(text_items(kind, texts)),
        ],
    )
}

/// A backend message.
fn make_message(role: &str, id: Json, kind: &str, texts: &Vec<String>) -> (r: Json)
    ensures
        r@ == codex_message(role@, id@, kind@, text::views(texts@)),
{
    let mut content: Vec<Json> = Vec::new();
    let mut i: usize = 0;
    while i < texts.len()
        invariant
            i <= texts@.len(),
            json::items(content@) == text_items(kind@, text::views(texts@)).take(i as int),
        decreases texts@.len() - i,
    {
        let ghost before = json::items(content@);
        let item = Json::object().with("type", Json::text(kind)).with(
            "text",
            Json::text(texts[i].as_str()),
        );
        content.push(item);
        proof {
            let whole = text_items(kind@, text::views(texts@));
            assert(whole[i as int] == text_item(kind@, texts@[i as int]@));
            assert(item@ == whole[i as int]);
            assert(json::items(content@) =~= before.push(item@));
            assert(whole.take(i + 1) =~= whole.take(i as int).push(whole[i as int]));
        }
        i += 1;
    }
    proof {
        let whole = text_items(kind@, text::views(texts@));
        assert(whole.take(whole.len() as int) =~= whole);
    }
    Json::object().with("type", Json::text("message")).with("id", id).with(
        "role",
        Json::text(role),
    ).with("content", Json::Array(content))
}

/// The backend form of a tool call of an assistant message.
pub open spec fn codex_calls(call: JsonView) -> Seq<JsonView> {
    if call is Object {
        let func = match json::object_field(call, "function"@) {
            Some(f) => f,
            None => JsonView::Null,
        };
        seq![
            JsonView::Object(
                map![
                    "type"@ => JsonView::Text("function_call"@),
                    "name"@ => JsonView::Text(text_or_empty(func, "name"@)),
                    "call_id"@ => JsonView::Text(text_or_empty(call, "id"@)),
                    "arguments"@ => JsonView::Text(arguments_text(json::field(func, "arguments"@))),
                ],
            ),
        ]
    } else {
        Seq::empty()
    }
}

/// The backend form of all tool calls of an assistant message.
pub open spec fn all_codex_calls(calls: Seq<JsonView>) -> Seq<JsonView> {
    gathered(calls, |call: JsonView| codex_calls(call))
}

/// What a chat message becomes in the backend's `input`.
pub open spec fn codex_input(msg: JsonView) -> Seq<JsonView> {
    let role = text_or_empty(msg, "role"@);
    let texts = text_segments(json::field(msg, "content"@), true);
    if role == "user"@ {
        if texts.len() == 0 {
            Seq::empty()
        } else {
            seq![codex_message("user"@, field_or_null(msg, "id"@), "input_text"@, texts)]
        }
    } else if role == "assistant"@ {
        (if texts.len() == 0 {
            Seq::empty()
        } else {
            seq![codex_message("assistant"@, field_or_null(msg, "id"@), "output_text"@, texts)]
        }) + (match json::array_field(msg, "tool_calls"@) {
            Some(calls) => all_codex_calls(calls),
            None => Seq::empty(),
        })
    } else if role == "tool"@ {
        let call_id = text_or_empty(msg, "tool_call_id"@);
        if call_id.len() == 0 {
            Seq::empty()
        } else {
            seq![
                JsonView::Object(
                    map![
                        "type"@ => JsonView::Text("function_call_output"@),
                        "call_id"@ => JsonView::Text(call_id),
                        "output"@ => JsonView::Text(tool_output(json::field(msg, "content"@))),
                    ],
                ),
            ]
        }
    } else {
        Seq::empty()
    }
}

/// What all chat messages become in the backend's `input`.
pub open spec fn all_codex_input(msgs: Seq<JsonView>) -> Seq<JsonView> {
    gathered(msgs, |msg: JsonView| codex_input(msg))
}

/// A `developer` message with one text.
pub open spec fn developer_message(t: Seq<char>) -> JsonView {
    codex_message("developer"@, JsonView::Null, "input_text"@, seq![t])
}

/// The backend's `input` of a chat request: the system text as a `developer`
/// message, then what the messages become.
pub open spec fn request_input(request: JsonView) -> Seq<JsonView> {
    seq![developer_message(request_instructions(request))] + (match json::array_field(
        request,
        "messages"@,
    ) {
        Some(msgs) => all_codex_input(msgs),
        None => Seq::empty(),
    })
}

/// The backend form of a tool call.
fn codex_call(call: &Json) -> (r: Option<Json>)
    ensures
        match r {
            Some(j) => codex_calls(call@) == seq![j@],
            None => codex_calls(call@) == Seq::<JsonView>::empty(),
        },
{
    if !call.is_object() {
        return None;
    }
    let name: Json;
    let arguments: String;
    match call.get_object("function") {
        Some(func) => {
            name = get_text_or_empty(func, "name");
            arguments = extract_arguments_string(func.get("arguments"));
        },
        None => {
            name = Json::Text(String::new());
            arguments = String::new();
        },
    }
    Some(
        Json::object().with("type", Json::text("function_call")).with("name", name).with(
            "call_id",
            get_text_or_empty(call, "id"),
        ).with("arguments", Json::Text(arguments)),
    )
}

/// Appends the backend form of tool calls.
fn push_codex_calls(out: &mut Vec<Json>, calls: &Vec<Json>)
    ensures
        json::items(final(out)@) == json::items(old(out)@) + all_codex_calls(json::items(calls@)),
{
    let ghost start = json::items(out@);
    let ghost all = json::items(calls@);
    let mut i: usize = 0;
    proof {
        assert(start =~= start + all_codex_calls(all.take(0)));
    }
    while i < calls.len()
        invariant
            i <= calls@.len(),
            all == json::items(calls@),
            json::items(out@) == start + all_codex_calls(all.take(i as int)),
        decreases calls@.len() - i,
    {
        let ghost before = json::items(out@);
        match codex_call(&calls[i]) {
            Some(j) => out.push(j),
            None => {},
        }
        proof {
            assert(all[i as int] == calls@[i as int]@);
            assert(all.take(i + 1).drop_last() =~= all.take(i as int));
            assert(json::items(out@) =~= before + codex_calls(all[i as int]));
            assert(start + all_codex_calls(all.take(i as int)) + codex_calls(all[i as int])
                =~= start + all_codex_calls(all.take(i + 1)));
        }
        i += 1;
    }
    proof {
        assert(all.take(i as int) =~= all);
    }
}

/// Appends what a chat message becomes.
fn push_codex_input(out: &mut Vec<Json>, msg: &Json)
    ensures
        json::items(final(out)@) == json::items(old(out)@) + codex_input(msg@),
{
    let ghost start = json::items(out@);
    let texts = collect_text_segments(msg.get("content"), true);
    proof {
        assert(text::views(texts@).len() == texts@.len());
        assert(start + Seq::<JsonView>::empty() =~= start);
        reveal_strlit("");
        assert(text_or_empty(msg@, "role"@) == ""@ || json::text_field(msg@, "role"@) is Some) by {
            assert(""@ =~= Seq::<char>::empty());
        }
    }
    let role: &str = match msg.get_str("role") {
        Some(t) => t,
        None => "",
    };
    if text::same(role, "user") {
        if texts.len() > 0 {
            let j = make_message("user", get_or_null(msg, "id"), "input_text", &texts);
            out.push(j);
            proof {
                assert(json::items(out@) =~= start + seq![j@]);
            }
        }
    } else if text::same(role, "assistant") {
        let ghost mut said: Seq<JsonView> = Seq::empty();
        if texts.len() > 0 {
            let j = make_message("assistant", get_or_null(msg, "id"), "output_text", &texts);
            out.push(j);
            proof {
                said = seq![j@];
                assert(json::items(out@) =~= start + said);
            }
        }
        match msg.get_array("tool_calls") {
            Some(calls) => {
                push_codex_calls(out, calls);
                proof {
                    let more = all_codex_calls(json::items(calls@));
                    assert(start + said + more =~= start + (said + more));
                }
            },
            None => {
                proof {
                    assert(said + Seq::<JsonView>::empty() =~= said);
                }
            },
        }
    } else if text::same(role, "tool") {
        match msg.get_str("tool_call_id") {
            Some(call_id) => if !call_id.is_empty() {
                let output = collect_tool_output(msg.get("content"));
                let j = Json::object().with("type", Json::text("function_call_output")).with(
                    "call_id",
                    Json::text(call_id),
                ).with("output", Json::Text(output));
                out.push(j);
                proof {
                    assert(json::items(out@) =~= start + seq![j@]);
                }
            },
            None => {},
        }
    }
}

/// A `developer` message with one text.
fn make_developer_message(t: String) -> (r: Json)
    ensures
        r@ == developer_message(t@),
{
    let mut texts: Vec<String> = Vec::new();
    texts.push(t);
    proof {
        assert(text::views(texts@) =~= seq![t@]);
    }
    make_message("developer", Json::Null, "input_text", &texts)
}

/// The backend's `input` of a chat request.
pub fn build_codex_input_messages(request: &Json) -> (r: Vec<Json>)
    ensures
        json::items(r@) == request_input(request@),
{
    let system_prompt = extract_instructions(request);
    let mut input: Vec<Json> = Vec::new();
    input.push(make_developer_message(system_prompt));
    let ghost start = seq![developer_message(request_instructions(request@))];
    proof {
        assert(json::items(input@) =~= start);
        assert(start + Seq::<JsonView>::empty() =~= start);
    }
    let msgs: &Vec<Json> = match request.get_array("messages") {
        Some(a) => a,
        None => {
            return input;
        },
    };
    let ghost all = json::items(msgs@);
    let mut i: usize = 0;
    proof {
        assert(start =~= start + all_codex_input(all.take(0)));
    }
    while i < msgs.len()
        invariant
            i <= msgs@.len(),
            all == json::items(msgs@),
            json::items(input@) == start + all_codex_input(all.take(i as int)),
        decreases msgs@.len() - i,
    {
        push_codex_input(&mut input, &msgs[i]);
        proof {
            assert(all[i as int] == msgs@[i as int]@);
            assert(all.take(i + 1).drop_last() =~= all.take(i as int));
            assert(start + all_codex_input(all.take(i as int)) + codex_input(all[i as int])
                =~= start + all_codex_input(all.take(i + 1)));
        }
        i += 1;
    }
    proof {
        assert(all.take(i as int) =~= all);
    }
    input
}

/// The `tool_choice` of the backend body: a text that is not empty is kept,
/// any other form falls back to `auto`.
pub open spec fn request_tool_choice(request: JsonView) -> Seq<char> {
    match json::text_field(request, "tool_choice"@) {
        Some(t) => if t.len() > 0 {
            t
        } else {
            "auto"@
        },
        None => "auto"@,
    }
}

/// What the backend is to send along with its answer.
pub open spec fn include_list() -> JsonView {
    JsonView::Array(seq![JsonView::Text("reasoning.encrypted_content"@)])
}

/// The backend body of a chat request, without its cache key.
pub open spec fn codex_members(
    request: JsonView,
    prefix: Seq<char>,
    inverse: Seq<char>,
) -> Map<Seq<char>, JsonView> {
    map![
        "model"@ => JsonView::Text(model::normalized(request_model(request))),
        "instructions"@ => JsonView::Text(prefix),
        "store"@ => JsonView::Bool(false),
        "stream"@ => JsonView::Bool(true),
        "input"@ => JsonView::Array(seq![developer_message(inverse)] + request_input(request)),
        "tools"@ => request_tools(request),
        "tool_choice"@ => JsonView::Text(request_tool_choice(request)),
        "parallel_tool_calls"@ => JsonView::Bool(
            match json::bool_field(request, "parallel_tool_calls"@) {
                Some(b) => b,
                None => false,
            },
        ),
        "reasoning"@ => reasoning_settings(request),
        "include"@ => include_list(),
    ]
}

/// The backend body of a chat request.
pub open spec fn codex_body(
    request: JsonView,
    prefix: Seq<char>,
    inverse: Seq<char>,
) -> JsonView {
    let members = codex_members(request, prefix, inverse);
    let key = prompt_cache_key(
        model::normalized(request_model(request)),
        prefix,
        first_user_text(JsonView::Object(members)),
    );
    if key.len() > 0 {
        JsonView::Object(members.insert("prompt_cache_key"@, JsonView::Text(key)))
    } else {
        JsonView::Object(members)
    }
}

/// The list of what the backend is to send along.
fn make_include_list() -> (r: Json)
    ensures
        r@ == include_list(),
{
    Json::single(Json::text("reasoning.encrypted_content"))
}

/// The backend body of an OpenAI Chat Completions request.
pub fn build_codex_request_body(request: &Json, prompts: &Prompts) -> (r: Json)
    ensures
        r@ == codex_body(
            request@,
            prompts.codex_instructions_prefix@,
            prompts.inverse_prompt@,
        ),
{
    let prefix: &str = prompts.codex_instructions_prefix.as_str();
    let wanted = resolve_request_model(request);
    let normalized: &'static str = model::normalize_model(wanted.as_str());
    let mut input: Vec<Json> = build_codex_input_messages(request);
    let ghost rest = json::items(input@);
    input.insert(0, make_developer_message(prompts.inverse_prompt.clone()));
    proof {
        assert(json::items(input@) =~= seq![developer_message(prompts.inverse_prompt@)] + rest);
    }
    let tool_choice: &str = match request.get_str("tool_choice") {
        Some(t) => if t.is_empty() {
            "auto"
        } else {
            t
        },
        None => "auto",
    };
    let parallel: bool = match request.get_bool("parallel_tool_calls") {
        Some(b) => b,
        None => false,
    };
    let body = Json::object().with("model", Json::text(normalized)).with(
        "instructions",
        Json::text(prefix),
    ).with("store", Json::Bool(false)).with("stream", Json::Bool(true)).with(
        "input",
        Json::Array(input),
    ).with("tools", map_tools_to_codex(request)).with("tool_choice", Json::text(tool_choice)).with(
        "parallel_tool_calls",
        Json::Bool(parallel),
    ).with("reasoning", build_reasoning_settings(request)).with("include", make_include_list());
    let first = extract_first_user_text(&body);
    let key = derive_prompt_cache_key(normalized, prefix, first.as_str());
    if key.as_str().is_empty() {
        body
    } else {
        body.with("prompt_cache_key", Json::Text(key))
    }
}

/// A message from the system.
pub open spec fn is_system(msg: JsonView) -> bool {
    json::text_field(msg, "role"@) == Some("system"@)
}

/// The text of the last `system` entry of `input`: the texts of its content
/// array joined by blank lines. Empty where there is no such entry.
pub open spec fn last_system_text(input: Seq<JsonView>) -> Seq<char>
    decreases input.len(),
{
    if input.len() == 0 {
        Seq::empty()
    } else if is_system(input.last()) {
        match json::array_field(input.last(), "content"@) {
            Some(content) => text::joined(content_texts(content, false), "\n\n"@),
            None => Seq::empty(),
        }
    } else {
        last_system_text(input.drop_last())
    }
}

/// The entries of `input` that are not from the system.
pub open spec fn other_entries(input: Seq<JsonView>) -> Seq<JsonView> {
    input.filter(|msg: JsonView| !is_system(msg))
}

/// A content item with the listed names in its text replaced.
pub open spec fn sanitized_item(item: JsonView) -> JsonView {
    match json::text_field(item, "text"@) {
        Some(t) => if t.len() > 0 {
            json::with_field(item, "text"@, JsonView::Text(names::codex_named(t)))
        } else {
            item
        },
        None => item,
    }
}

/// An entry of `input` with the listed names in its content items replaced.
pub open spec fn sanitized_entry(msg: JsonView) -> JsonView {
    match json::array_field(msg, "content"@) {
        Some(content) => json::with_field(
            msg,
            "content"@,
            JsonView::Array(content.map_values(|item: JsonView| sanitized_item(item))),
        ),
        None => msg,
    }
}

/// The entries of `input` that are not from the system, with the listed names
/// in their content items replaced.
pub open spec fn sanitized_entries(input: Seq<JsonView>) -> Seq<JsonView> {
    other_entries(input).map_values(|msg: JsonView| sanitized_entry(msg))
}

/// A content item with the listed names in its text replaced.
fn sanitize_item(item: &Json) -> (r: Json)
    ensures
        r@ == sanitized_item(item@),
{
    match item.get_str("text") {
        Some(t) => if t.is_empty() {
            item.clone()
        } else {
            item.clone().with("text", Json::Text(replace_names(t)))
        },
        None => item.clone(),
    }
}

/// An entry of `input` with the listed names in its content items replaced.
fn sanitize_entry(msg: &Json) -> (r: Json)
    ensures
        r@ == sanitized_entry(msg@),
{
    let content: &Vec<Json> = match msg.get_array("content") {
        Some(a) => a,
        None => {
            return msg.clone();
        },
    };
    let ghost all = json::items(content@);
    let ghost whole = all.map_values(|item: JsonView| sanitized_item(item));
    let mut out: Vec<Json> = Vec::new();
    let mut i: usize = 0;
    while i < content.len()
        invariant
            i <= content@.len(),
            all == json::items(content@),
            whole == all.map_values(|item: JsonView| sanitized_item(item)),
            json::items(out@) == whole.take(i as int),
        decreases content@.len() - i,
    {
        let ghost before = json::items(out@);
        let j = sanitize_item(&content[i]);
        out.push(j);
        proof {
            assert(whole[i as int] == j@);
            assert(json::items(out@) =~= before.push(j@));
            assert(whole.take(i + 1) =~= whole.take(i as int).push(whole[i as int]));
        }
        i += 1;
    }
    proof {
        assert(whole.take(whole.len() as int) =~= whole);
    }
    msg.clone().with("content", Json::Array(out))
}

/// The entries of `input` that are not from the system.
fn collect_other_entries(input: &Vec<Json>) -> (r: Vec<Json>)
    ensures
        json::items(r@) == other_entries(json::items(input@)),
{
    let ghost all = json::items(input@);
    let mut out: Vec<Json> = Vec::new();
    let mut i: usize = 0;
    proof {
        reveal(Seq::filter);
        assert(json::items(out@) =~= other_entries(all.take(0)));
    }
    while i < input.len()
        invariant
            i <= input@.len(),
            all == json::items(input@),
            json::items(out@) == other_entries(all.take(i as int)),
        decreases input@.len() - i,
    {
        if !field_is(&input[i], "role", "system") {
            out.push(input[i].clone());
        }
        proof {
            reveal(Seq::filter);
            assert(all.take(i + 1).drop_last() =~= all.take(i as int));
            assert(all.take(i + 1).last() == input@[i as int]@);
            assert(json::items(out@) =~= other_entries(all.take(i + 1)));
        }
        i += 1;
    }
    proof {
        assert(all.take(i as int) =~= all);
    }
    out
}

/// The text of the last `system` entry of `input`.
fn find_last_system_text(input: &Vec<Json>) -> (r: String)
    ensures
        r@ == last_system_text(json::items(input@)),
{
    let ghost all = json::items(input@);
    let mut i: usize = input.len();
    proof {
        assert(all.take(i as int) =~= all);
    }
    while i > 0
        invariant
            i <= input@.len(),
            all == json::items(input@),
            last_system_text(all) == last_system_text(all.take(i as int)),
        decreases i,
    {
        i -= 1;
        proof {
            assert(all.take(i + 1).drop_last() =~= all.take(i as int));
            assert(all.take(i + 1).last() == input@[i as int]@);
        }
        if field_is(&input[i], "role", "system") {
            return match input[i].get_array("content") {
                Some(content) => {
                    let parts = collect_item_texts(content, false);
                    text::join(&parts, "\n\n")
                },
                None => String::new(),
            };
        }
    }
    String::new()
}

/// Drops the `system` entries of `input` and replaces the listed names in the
/// content items of the others.
pub fn sanitize_responses_input(body: &mut Json)
    ensures
        final(body)@ == (match json::array_field(old(body)@, "input"@) {
            Some(input) => json::with_field(
                old(body)@,
                "input"@,
                JsonView::Array(sanitized_entries(input)),
            ),
            None => old(body)@,
        }),
{
    let kept: Vec<Json> = match body.get_array("input") {
        Some(input) => collect_other_entries(input),
        None => {
            return ;
        },
    };
    let ghost all = json::items(kept@);
    let ghost whole = all.map_values(|msg: JsonView| sanitized_entry(msg));
    let mut out: Vec<Json> = Vec::new();
    let mut i: usize = 0;
    while i < kept.len()
        invariant
            i <= kept@.len(),
            all == json::items(kept@),
            whole == all.map_values(|msg: JsonView| sanitized_entry(msg)),
            json::items(out@) == whole.take(i as int),
        decreases kept@.len() - i,
    {
        let ghost before = json::items(out@);
        let j = sanitize_entry(&kept[i]);
        out.push(j);
        proof {
            assert(whole[i as int] == j@);
            assert(json::items(out@) =~= before.push(j@));
            assert(whole.take(i + 1) =~= whole.take(i as int).push(whole[i as int]));
        }
        i += 1;
    }
    proof {
        assert(whole.take(whole.len() as int) =~= whole);
    }
    let mut taken = Json::Null;
    std::mem::swap(body, &mut taken);
    *body = taken.with("input", Json::Array(out));
}

/// The entries of `input`, none where it is no array.
pub open spec fn input_entries(body: JsonView) -> Seq<JsonView> {
    match json::array_field(body, "input"@) {
        Some(a) => a,
        None => Seq::empty(),
    }
}

/// The body's own instructions, without surrounding white space.
pub open spec fn own_instructions(body: JsonView) -> Seq<char> {
    text::trimmed(text_or_empty(body, "instructions"@))
}

/// The instructions that go to the backend: the body's own, else the text of
/// the last `system` entry with the listed names replaced.
pub open spec fn responses_instructions(body: JsonView) -> Seq<char> {
    let system = last_system_text(input_entries(body));
    if own_instructions(body).len() > 0 {
        own_instructions(body)
    } else if system.len() > 0 {
        names::codex_named(system)
    } else {
        Seq::empty()
    }
}

/// The entries that go to the backend before names are replaced: those that
/// are not from the system, led by the system text as a `developer` message
/// where the body has instructions of its own as well.
pub open spec fn responses_entries(body: JsonView) -> Seq<JsonView> {
    let system = last_system_text(input_entries(body));
    let kept = other_entries(input_entries(body));
    if own_instructions(body).len() > 0 && system.len() > 0 {
        seq![
            JsonView::Object(
                map![
                    "role"@ => JsonView::Text("developer"@),
                    "content"@ => JsonView::Text(names::codex_named(system)),
                ],
            ),
        ] + kept
    } else {
        kept
    }
}

/// The `input` that goes to the backend; `null` where no entry is left.
pub open spec fn responses_input(body: JsonView) -> JsonView {
    if responses_entries(body).len() == 0 {
        JsonView::Null
    } else {
        JsonView::Array(sanitized_entries(responses_entries(body)))
    }
}

/// The effort that goes to the backend.
pub open spec fn responses_effort(model: Seq<char>, effort: Seq<char>) -> Seq<char> {
    model::clamped(model::normalized_effort(effort), model::normalized(model))
}

/// The rewritten body, without its cache key.
pub open spec fn responses_core(body: JsonView, model: Seq<char>, effort: Seq<char>) -> JsonView {
    let v1 = json::with_field(body, "model"@, JsonView::Text(model::normalized(model)));
    let v2 = json::with_field(v1, "store"@, JsonView::Bool(false));
    let v3 = json::with_field(v2, "stream"@, JsonView::Bool(true));
    let v4 = json::with_field(
        v3,
        "instructions"@,
        JsonView::Text(responses_instructions(body)),
    );
    let v5 = json::with_field(v4, "input"@, responses_input(body));
    let v6 = json::with_field(v5, "include"@, include_list());
    let v7 = if json::field(body, "tool_choice"@) is None {
        json::with_field(v6, "tool_choice"@, JsonView::Text("auto"@))
    } else {
        v6
    };
    let v8 = if json::field(body, "parallel_tool_calls"@) is None {
        json::with_field(v7, "parallel_tool_calls"@, JsonView::Bool(false))
    } else {
        v7
    };
    let v9 = json::without_field(
        json::without_field(json::without_field(v8, "max_output_tokens"@), "max_tokens"@),
        "reasoning_effort"@,
    );
    let e = responses_effort(model, effort);
    if e.len() == 0 && request_summary(body) is None {
        json::without_field(v9, "reasoning"@)
    } else {
        json::with_field(v9, "reasoning"@, settings(e, request_summary(body)))
    }
}

/// The rewritten body. A cache key that the body brings is kept.
pub open spec fn responses_body(body: JsonView, model: Seq<char>, effort: Seq<char>) -> JsonView {
    let core = responses_core(body, model, effort);
    let key = prompt_cache_key(
        model::normalized(model),
        responses_instructions(body),
        first_user_text(core),
    );
    if json::text_field(body, "prompt_cache_key"@) is None && key.len() > 0 {
        json::with_field(core, "prompt_cache_key"@, JsonView::Text(key))
    } else {
        core
    }
}

/// The instructions that go to the backend.
fn resolve_responses_instructions(own: &String, system: &String) -> (r: String)
    ensures
        r@ == (if own@.len() > 0 {
            own@
        } else if system@.len() > 0 {
            names::codex_named(system@)
        } else {
            Seq::empty()
        }),
{
    if !own.as_str().is_empty() {
        own.clone()
    } else if !system.as_str().is_empty() {
        replace_names(system.as_str())
    } else {
        String::new()
    }
}

/// The `input` that goes to the backend.
fn make_responses_input(entries: Vec<Json>) -> (r: Json)
    ensures
        r@ == (if json::items(entries@).len() == 0 {
            JsonView::Null
        } else {
            JsonView::Array(sanitized_entries(json::items(entries@)))
        }),
{
    if entries.len() == 0 {
        return Json::Null;
    }
    let mut holder = Json::object().with("input", Json::Array(entries));
    sanitize_responses_input(&mut holder);
    match holder.get("input") {
        Some(j) => j.clone(),
        None => Json::Null,
    }
}

/// Rewrites a Responses API body in place and gives the backend model and the
/// effort that it was clamped to. A body that is no object is left alone.
pub fn transform_responses_request_body(
    body: &mut Json,
    requested_model: &str,
    requested_effort: &str,
) -> (r: (String, String))
    ensures
        old(body)@ is Object ==> {
            &&& final(body)@ == responses_body(old(body)@, requested_model@, requested_effort@)
            &&& r.0@ == model::normalized(requested_model@)
            &&& r.1@ == responses_effort(requested_model@, requested_effort@)
        },
        !(old(body)@ is Object) ==> {
            &&& final(body)@ == old(body)@
            &&& r.0@ == Seq::<char>::empty()
            &&& r.1@ == Seq::<char>::empty()
        },
{
    if !body.is_object() {
        return (String::new(), String::new());
    }
    let normalized: &'static str = model::normalize_model(requested_model);
    let effort: &'static str = model::normalize_reasoning_effort(requested_effort);
    let clamped: String = model::clamp_reasoning_effort_for_model(effort, normalized);
    let own: String = match body.get_str("instructions") {
        Some(t) => text::trim(t),
        None => String::new(),
    };
    let system: String;
    let mut entries: Vec<Json>;
    match body.get_array("input") {
        Some(input) => {
            system = find_last_system_text(input);
            entries = collect_other_entries(input);
        },
        None => {
            system = String::new();
            entries = Vec::new();
            proof {
                reveal(Seq::filter);
                assert(json::items(entries@) =~= other_entries(Seq::empty()));
            }
        },
    }
    proof {
        assert(own@ == own_instructions(body@)) by {
            assert(text::trimmed(Seq::<char>::empty()) == Seq::<char>::empty());
        }
        assert(system@ == last_system_text(input_entries(body@)));
        assert(json::items(entries@) == other_entries(input_entries(body@)));
    }
    let instructions: String = resolve_responses_instructions(&own, &system);
    if !own.as_str().is_empty() && !system.as_str().is_empty() {
        let lead = Json::object().with("role", Json::text("developer")).with(
            "content",
            Json::Text(replace_names(system.as_str())),
        );
        let ghost kept = json::items(entries@);
        entries.insert(0, lead);
        proof {
            assert(json::items(entries@) =~= seq![lead@] + kept);
        }
    }
    proof {
        assert(json::items(entries@) == responses_entries(body@));
    }
    let has_choice: bool = body.get("tool_choice").is_some();
    let has_parallel: bool = body.get("parallel_tool_calls").is_some();
    let has_key: bool = body.get_str("prompt_cache_key").is_some();
    let summary: Option<Json> = resolve_reasoning_summary(body);
    let no_settings: bool = summary.is_none() && clamped.as_str().is_empty();
    let settings: Json = make_settings(clamped.as_str(), summary);
    let mut taken = Json::Null;
    std::mem::swap(body, &mut taken);
    let mut out = taken.with("model", Json::text(normalized)).with("store", Json::Bool(false)).with(
        "stream",
        Json::Bool(true),
    ).with("instructions", Json::text(instructions.as_str())).with(
        "input",
        make_responses_input(entries),
    ).with("include", make_include_list());
    if !has_choice {
        out = out.with("tool_choice", Json::text("auto"));
    }
    if !has_parallel {
        out = out.with("parallel_tool_calls", Json::Bool(false));
    }
    out = out.without("max_output_tokens").without("max_tokens").without("reasoning_effort");
    if no_settings {
        out = out.without("reasoning");
    } else {
        out = out.with("reasoning", settings);
    }
    proof {
        assert(out@ == responses_core(old(body)@, requested_model@, requested_effort@));
    }
    if !has_key {
        let first = extract_first_user_text(&out);
        let key = derive_prompt_cache_key(normalized, instructions.as_str(), first.as_str());
        if !key.as_str().is_empty() {
            out = out.with("prompt_cache_key", Json::Text(key));
        }
    }
    *body = out;
    (normalized.to_owned(), clamped)
}

/// The member names of a backend body, told apart by their length or first
/// letter.
proof fn reveal_member_names()
    ensures
        "model"@.len() == 5 && "model"@[0] == 'm',
        "store"@.len() == 5 && "store"@[0] == 's',
        "input"@.len() == 5 && "input"@[0] == 'i',
        "tools"@.len() == 5 && "tools"@[0] == 't',
        "stream"@.len() == 6,
        "include"@.len() == 7 && "include"@[0] == 'i',
        "reasoning"@.len() == 9,
        "tool_choice"@.len() == 11,
        "instructions"@.len() == 12,
        "max_tokens"@.len() == 10,
        "prompt_cache_key"@.len() == 16 && "prompt_cache_key"@[0] == 'p',
        "reasoning_effort"@.len() == 16 && "reasoning_effort"@[0] == 'r',
        "max_output_tokens"@.len() == 17,
        "parallel_tool_calls"@.len() == 19,
        "role"@.len() == 4 && "role"@[0] == 'r',
        "type"@.len() == 4 && "type"@[0] == 't',
        "text"@.len() == 4 && "text"@[0] == 't' && "text"@[1] == 'e',
        "content"@.len() == 7 && "content"@[0] == 'c',
        "id"@.len() == 2,
        "call_id"@.len() == 7,
        "output"@.len() == 6,
        "arguments"@.len() == 9,
        "name"@.len() == 4 && "name"@[0] == 'n',
        "system"@.len() == 6 && "system"@[0] == 's',
        "user"@.len() == 4,
        "assistant"@.len() == 9,
        "developer"@.len() == 9,
{
    reveal_strlit("model");
    reveal_strlit("store");
    reveal_strlit("input");
    reveal_strlit("tools");
    reveal_strlit("stream");
    reveal_strlit("include");
    reveal_strlit("reasoning");
    reveal_strlit("tool_choice");
    reveal_strlit("instructions");
    reveal_strlit("max_tokens");
    reveal_strlit("prompt_cache_key");
    reveal_strlit("reasoning_effort");
    reveal_strlit("max_output_tokens");
    reveal_strlit("parallel_tool_calls");
    reveal_strlit("role");
    reveal_strlit("type");
    reveal_strlit("text");
    reveal_strlit("content");
    reveal_strlit("id");
    reveal_strlit("call_id");
    reveal_strlit("output");
    reveal_strlit("arguments");
    reveal_strlit("name");
    reveal_strlit("system");
    reveal_strlit("user");
    reveal_strlit("assistant");
    reveal_strlit("developer");
}

/// A known model name is not blank.
proof fn lemma_normalized_not_blank(m: Seq<char>)
    ensures
        text::trimmed(model::normalized(m)).len() > 0,
{
    model::law_normalized_is_known(m);
    model::lemma_known_not_empty(model::normalized(m));
}

/// A cache key is derived for every known model.
proof fn lemma_cache_key_not_empty(m: Seq<char>, instructions: Seq<char>, first: Seq<char>)
    ensures
        prompt_cache_key(model::normalized(m), instructions, first).len() > 0,
{
    lemma_normalized_not_blank(m);
}

/// Every backend body of a chat request asks for a known model, is not
/// stored, is streamed, carries a cache key, and leads with the two
/// `developer` messages.
pub proof fn law_chat_body(request: JsonView, prefix: Seq<char>, inverse: Seq<char>)
    ensures
        ({
            let body = codex_body(request, prefix, inverse);
            let input = json::array_field(body, "input"@);
            &&& json::text_field(body, "model"@) == Some(model::normalized(request_model(request)))
            &&& model::is_known(model::normalized(request_model(request)))
            &&& json::text_field(body, "instructions"@) == Some(prefix)
            &&& json::bool_field(body, "store"@) == Some(false)
            &&& json::bool_field(body, "stream"@) == Some(true)
            &&& json::text_field(body, "prompt_cache_key"@) is Some
            &&& input is Some
            &&& input->0.len() >= 2
            &&& input->0[0] == developer_message(inverse)
            &&& input->0[1] == developer_message(request_instructions(request))
        }),
{
    reveal_member_names();
    model::law_normalized_is_known(request_model(request));
    let members = codex_members(request, prefix, inverse);
    lemma_cache_key_not_empty(
        request_model(request),
        prefix,
        first_user_text(JsonView::Object(members)),
    );
}

/// No entry that a chat message becomes is from the system.
proof fn lemma_codex_input_roles(msg: JsonView, i: int)
    requires
        0 <= i < codex_input(msg).len(),
    ensures
        !is_system(codex_input(msg)[i]),
{
    reveal_member_names();
    let texts = text_segments(json::field(msg, "content"@), true);
    let role = text_or_empty(msg, "role"@);
    if role == "assistant"@ {
        let said: Seq<JsonView> = if texts.len() == 0 {
            Seq::empty()
        } else {
            seq![codex_message("assistant"@, field_or_null(msg, "id"@), "output_text"@, texts)]
        };
        if i >= said.len() {
            let calls = json::array_field(msg, "tool_calls"@)->0;
            assert(codex_input(msg)[i] == all_codex_calls(calls)[i - said.len()]);
            lemma_codex_calls_roles(calls, i - said.len());
        }
    }
}

/// No entry that a tool call becomes is from the system.
proof fn lemma_codex_calls_roles(calls: Seq<JsonView>, i: int)
    requires
        0 <= i < all_codex_calls(calls).len(),
    ensures
        !is_system(all_codex_calls(calls)[i]),
    decreases calls.len(),
{
    reveal_member_names();
    let before = all_codex_calls(calls.drop_last());
    if i < before.len() {
        lemma_codex_calls_roles(calls.drop_last(), i);
    }
}

/// No entry of the backend's `input` of a chat request is from the system:
/// system text travels as a `developer` message.
pub proof fn law_chat_input_has_no_system_entry(request: JsonView, i: int)
    requires
        0 <= i < request_input(request).len(),
    ensures
        !is_system(request_input(request)[i]),
{
    reveal_member_names();
    if i > 0 {
        let msgs = json::array_field(request, "messages"@)->0;
        assert(request_input(request)[i] == all_codex_input(msgs)[i - 1]);
        lemma_all_codex_input_roles(msgs, i - 1);
    }
}

/// No entry that the chat messages become is from the system.
proof fn lemma_all_codex_input_roles(msgs: Seq<JsonView>, i: int)
    requires
        0 <= i < all_codex_input(msgs).len(),
    ensures
        !is_system(all_codex_input(msgs)[i]),
    decreases msgs.len(),
{
    let before = all_codex_input(msgs.drop_last());
    if i < before.len() {
        lemma_all_codex_input_roles(msgs.drop_last(), i);
    } else {
        assert(all_codex_input(msgs)[i] == codex_input(msgs.last())[i - before.len()]);
        lemma_codex_input_roles(msgs.last(), i - before.len());
    }
}

/// Every rewritten Responses body asks for a known model, is not stored, is
/// streamed, carries a cache key, has no token limit and no top-level effort.
pub proof fn law_responses_body(body: JsonView, model: Seq<char>, effort: Seq<char>)
    requires
        body is Object,
    ensures
        ({
            let out = responses_body(body, model, effort);
            &&& json::text_field(out, "model"@) == Some(model::normalized(model))
            &&& model::is_known(model::normalized(model))
            &&& json::bool_field(out, "store"@) == Some(false)
            &&& json::bool_field(out, "stream"@) == Some(true)
            &&& json::text_field(out, "instructions"@) == Some(responses_instructions(body))
            &&& json::field(out, "input"@) == Some(responses_input(body))
            &&& json::field(out, "include"@) == Some(include_list())
            &&& json::text_field(out, "prompt_cache_key"@) is Some
            &&& json::field(out, "tool_choice"@) is Some
            &&& json::field(out, "parallel_tool_calls"@) is Some
            &&& json::field(out, "max_output_tokens"@) is None
            &&& json::field(out, "max_tokens"@) is None
            &&& json::field(out, "reasoning_effort"@) is None
        }),
{
    reveal_member_names();
    model::law_normalized_is_known(model);
    lemma_cache_key_not_empty(
        model,
        responses_instructions(body),
        first_user_text(responses_core(body, model, effort)),
    );
}

/// What the transform does not set or remove, it leaves as it was.
pub proof fn law_responses_body_keeps_other_members(
    body: JsonView,
    model: Seq<char>,
    effort: Seq<char>,
    key: Seq<char>,
)
    requires
        body is Object,
        key != "model"@,
        key != "store"@,
        key != "stream"@,
        key != "instructions"@,
        key != "input"@,
        key != "include"@,
        key != "tool_choice"@,
        key != "parallel_tool_calls"@,
        key != "max_output_tokens"@,
        key != "max_tokens"@,
        key != "reasoning_effort"@,
        key != "reasoning"@,
        key != "prompt_cache_key"@,
    ensures
        json::field(responses_body(body, model, effort), key) == json::field(body, key),
{
}

/// No entry of the rewritten `input` is from the system.
pub proof fn law_responses_input_has_no_system_entry(body: JsonView, i: int)
    requires
        responses_input(body) is Array,
        0 <= i < responses_input(body)->Array_0.len(),
    ensures
        !is_system(responses_input(body)->Array_0[i]),
{
    reveal_member_names();
    let entries = responses_entries(body);
    let kept = other_entries(entries);
    let f = |msg: JsonView| !is_system(msg);
    assert(f(kept[i])) by {
        broadcast use vstd::seq_lib::group_filter_ensures;

    }
    assert(responses_input(body)->Array_0[i] == sanitized_entry(kept[i]));
}

/// No text of a content item of the rewritten `input` holds a listed name.
pub proof fn law_responses_texts_hold_no_listed_name(body: JsonView, i: int, j: int, k: int)
    requires
        responses_input(body) is Array,
        0 <= i < responses_input(body)->Array_0.len(),
        json::array_field(responses_input(body)->Array_0[i], "content"@) is Some,
        0 <= j < json::array_field(responses_input(body)->Array_0[i], "content"@)->0.len(),
        0 <= k < 8,
    ensures
        ({
            let item = json::array_field(responses_input(body)->Array_0[i], "content"@)->0[j];
            json::text_field(item, "text"@) is Some ==> !text::has(
                json::text_field(item, "text"@)->0,
                names::NAMES_TO_REPLACE@[k]@,
            )
        }),
{
    let kept = other_entries(responses_entries(body));
    let entry = kept[i];
    assert(responses_input(body)->Array_0[i] == sanitized_entry(entry));
    let content = json::array_field(entry, "content"@)->0;
    let item = json::array_field(sanitized_entry(entry), "content"@)->0[j];
    assert(item == sanitized_item(content[j]));
    if json::text_field(content[j], "text"@) is Some {
        let t = json::text_field(content[j], "text"@)->0;
        names::law_no_name_is_left(t, k);
        if t.len() == 0 {
            names::lemma_listed_name_not_empty(k);
        }
    }
}

} // verus!
