//! `POST /v1/chat/completions`.
use crate::buffered;
use crate::clock;
use crate::conversation;
use crate::headers::HeaderView;
use crate::headers::Headers;
use crate::json;
use crate::json::Json;
use crate::json::JsonView;
use crate::model;
use crate::request;
use crate::request::Prompts;
use crate::server::error;
use crate::server::error::ApiError;
use crate::server::error::ApiErrorView;
use crate::sse;
use crate::transform;
use std::time::SystemTime;
use vstd::prelude::*;

verus! {

/// The status of a success.
pub const OK: u16 = 200;

/// What is to be done for a chat request.
#[derive(Debug)]
pub struct ChatPlan {
    /// The key of the conversation; empty where there is none.
    pub conversation_key: String,
    /// How the key was found, or `none`.
    pub conversation_key_source: &'static str,
    /// Whether the client wants a stream.
    pub stream: bool,
    /// The model that the backend is asked for.
    pub model: String,
    /// How many messages the client sent.
    pub message_count: usize,
    /// The body of the request to the backend.
    pub body: String,
}

/// What is to be done, in mathematical form.
pub struct ChatPlanView {
    pub conversation_key: Seq<char>,
    pub conversation_key_source: Seq<char>,
    pub stream: bool,
    pub model: Seq<char>,
    pub message_count: nat,
    pub body: Seq<char>,
}

impl ChatPlan {
    /// What is to be done, in mathematical form.
    pub open spec fn view(&self) -> ChatPlanView {
        ChatPlanView {
            conversation_key: self.conversation_key@,
            conversation_key_source: self.conversation_key_source@,
            stream: self.stream,
            model: self.model@,
            message_count: self.message_count as nat,
            body: self.body@,
        }
    }
}

/// Whether a request asks for a stream: only an explicit `true` does.
pub open spec fn wants_stream(request: JsonView) -> bool {
    json::bool_field(request, "stream"@) == Some(true)
}

/// What is to be done for a chat request.
pub open spec fn planned(
    h: Seq<HeaderView>,
    request: JsonView,
    prefix: Seq<char>,
    inverse: Seq<char>,
) -> ChatPlanView {
    ChatPlanView {
        conversation_key: match conversation::conversation_key(h, request) {
            Some((k, _)) => k,
            None => Seq::empty(),
        },
        conversation_key_source: match conversation::conversation_key(h, request) {
            Some((_, conversation::KeySource::Explicit)) => "explicit"@,
            Some((_, conversation::KeySource::HeadHash)) => "head_hash"@,
            None => "none"@,
        },
        stream: wants_stream(request),
        model: model::normalized(request::request_model(request)),
        message_count: match json::array_field(request, "messages"@) {
            Some(m) => m.len(),
            None => 0,
        },
        body: json::json_text(request::codex_body(request, prefix, inverse)),
    }
}

/// Plans what is to be done for a chat request that was parsed.
pub fn plan(headers: &Headers, request: &Json, prompts: &Prompts) -> (r: ChatPlan)
    ensures
        r@ == planned(
            headers@,
            request@,
            prompts.codex_instructions_prefix@,
            prompts.inverse_prompt@,
        ),
{
    let (conversation_key, conversation_key_source): (String, &'static str) =
        match conversation::resolve_conversation_key(headers, request) {
        Some(c) => {
            let source: &'static str = c.source.as_str();
            (c.key, source)
        },
        None => (String::new(), "none"),
    };
    let stream: bool = match request.get_bool("stream") {
        Some(b) => b,
        None => false,
    };
    let target: Json = request::build_codex_request_body(request, prompts);
    proof {
        request::law_chat_body(
            request@,
            prompts.codex_instructions_prefix@,
            prompts.inverse_prompt@,
        );
    }
    let model: String = match target.get_str("model") {
        Some(m) => m.to_owned(),
        None => model::GPT5.to_owned(),
    };
    let message_count: usize = match request.get_array("messages") {
        Some(m) => m.len(),
        None => 0,
    };
    ChatPlan {
        conversation_key,
        conversation_key_source,
        stream,
        model,
        message_count,
        body: target.to_text(),
    }
}

/// Takes in a chat request and plans what is to be done.
pub fn chat_completions(headers: &Headers, body: &[u8], prompts: &Prompts) -> (r: Result<
    ChatPlan,
    ApiError,
>)
    ensures
        match json::json_parse(body@) {
            Ok(request) => r matches Ok(p) && p@ == planned(
                headers@,
                request,
                prompts.codex_instructions_prefix@,
                prompts.inverse_prompt@,
            ),
            Err(_) => r matches Err(e) && e@ == ApiErrorView::BadRequest(
                "Failed to parse request body"@,
            ),
        },
{
    match json::parse(body) {
        Ok(request) => Ok(plan(headers, &request, prompts)),
        Err(_) => Err(ApiError::BadRequest("Failed to parse request body".to_owned())),
    }
}

/// What becomes of the backend's response.
#[derive(Debug, Clone, Copy, PartialEq, Eq, Structural)]
pub enum ChatAnswer {
    /// It is mirrored, for it is no success.
    Mirror,
    /// Its stream is rewritten into chunks.
    Relay,
    /// Its stream is gathered into one completion.
    Gather,
}

/// What becomes of a backend response.
pub open spec fn answer_for(status: u16, stream: bool) -> ChatAnswer {
    if status != OK {
        ChatAnswer::Mirror
    } else if stream {
        ChatAnswer::Relay
    } else {
        ChatAnswer::Gather
    }
}

/// What becomes of a backend response with this status.
pub fn answer(status: u16, stream: bool) -> (r: ChatAnswer)
    ensures
        r == answer_for(status, stream),
{
    if status != OK {
        ChatAnswer::Mirror
    } else if stream {
        ChatAnswer::Relay
    } else {
        ChatAnswer::Gather
    }
}

/// The completion that the backend's stream is gathered into.
pub fn gather(upstream: &[u8], model: &str) -> (r: Result<Json, ApiError>)
    ensures
        match buffered::gather(
            transform::fresh(model@),
            buffered::nothing(),
            sse::stream_events(upstream@),
        ) {
            Ok(g) => r matches Ok(j) && exists|t: SystemTime|
                j@ == buffered::completion(g, model@, #[trigger] clock::seconds(t)),
            Err(_) => r matches Err(e) && e@ == ApiErrorView::Internal(
                "Failed to process streaming response"@,
            ),
        },
{
    error::gathered(buffered::buffer_chat_completion(upstream, model))
}

/// The backend is asked for a model that it knows, whatever the client asks
/// for.
pub proof fn law_planned_model_is_known(
    h: Seq<HeaderView>,
    request: JsonView,
    prefix: Seq<char>,
    inverse: Seq<char>,
)
    ensures
        model::is_known(planned(h, request, prefix, inverse).model),
{
    model::law_normalized_is_known(request::request_model(request));
}

} // verus!
