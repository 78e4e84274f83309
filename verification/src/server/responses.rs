//! `POST /v1/responses`.
use crate::buffered;
use crate::headers::HeaderView;
use crate::headers::Headers;
use crate::json;
use crate::json::Json;
use crate::json::JsonView;
use crate::model;
use crate::request;
use crate::server::chat;
use crate::server::error;
use crate::server::error::ApiError;
use crate::server::error::ApiErrorView;
use crate::server::stream;
use crate::sse;
use vstd::prelude::*;

verus! {

/// What is to be done for a Responses request.
#[derive(Debug)]
pub struct ResponsesPlan {
    /// Whether the client wants a stream. The backend always sends one.
    pub client_wants_stream: bool,
    /// The model that the backend is asked for.
    pub model: String,
    /// The reasoning effort that the backend is asked for.
    pub effort: String,
    /// The body of the request to the backend.
    pub body: String,
}

/// What is to be done, in mathematical form.
pub struct ResponsesPlanView {
    pub client_wants_stream: bool,
    pub model: Seq<char>,
    pub effort: Seq<char>,
    pub body: Seq<char>,
}

impl ResponsesPlan {
    /// What is to be done, in mathematical form.
    pub open spec fn view(&self) -> ResponsesPlanView {
        ResponsesPlanView {
            client_wants_stream: self.client_wants_stream,
            model: self.model@,
            effort: self.effort@,
            body: self.body@,
        }
    }
}

/// What is to be done for a Responses request. Only an object is rewritten.
pub open spec fn planned(r: JsonView) -> ResponsesPlanView {
    let model = request::request_model(r);
    let effort = request::request_effort(r);
    if r is Object {
        ResponsesPlanView {
            client_wants_stream: chat::wants_stream(r),
            model: model::normalized(model),
            effort: request::responses_effort(model, effort),
            body: json::json_text(request::responses_body(r, model, effort)),
        }
    } else {
        ResponsesPlanView {
            client_wants_stream: false,
            model: Seq::empty(),
            effort: Seq::empty(),
            body: json::json_text(r),
        }
    }
}

/// Plans what is to be done for a Responses request that was parsed. What the
/// client wants is read before the request is rewritten, for the backend is
/// always asked for a stream.
pub fn plan(request: Json) -> (r: ResponsesPlan)
    ensures
        r@ == planned(request@),
{
    let mut body = request;
    let client_wants_stream: bool = match body.get_bool("stream") {
        Some(b) => b,
        None => false,
    };
    let requested_model: String = request::resolve_request_model(&body);
    let requested_effort: String = request::resolve_reasoning_effort(&body);
    let (model, effort) = request::transform_responses_request_body(
        &mut body,
        requested_model.as_str(),
        requested_effort.as_str(),
    );
    ResponsesPlan { client_wants_stream, model, effort, body: body.to_text() }
}

/// Takes in a Responses request and plans what is to be done.
pub fn responses(body: &[u8]) -> (r: Result<ResponsesPlan, ApiError>)
    ensures
        match json::json_parse(body@) {
            Ok(request) => r matches Ok(p) && p@ == planned(request),
            Err(_) => r matches Err(e) && e@ == ApiErrorView::BadRequest(
                "Failed to parse request body"@,
            ),
        },
{
    match json::parse(body) {
        Ok(request) => Ok(plan(request)),
        Err(_) => Err(ApiError::BadRequest("Failed to parse request body".to_owned())),
    }
}

/// What becomes of the backend's response.
#[derive(Debug, Clone, Copy, PartialEq, Eq, Structural)]
pub enum ResponsesAnswer {
    /// It is mirrored, for it is an error.
    MirrorError,
    /// It is mirrored, for it is no stream but already the final object.
    MirrorSuccess,
    /// Its events are passed on.
    Relay,
    /// Its stream is gathered into the final object.
    Gather,
}

/// What becomes of a backend response.
pub open spec fn answer_for(
    status: u16,
    h: Seq<HeaderView>,
    client_wants_stream: bool,
) -> ResponsesAnswer {
    if status >= 400 {
        ResponsesAnswer::MirrorError
    } else if !stream::streams_events(h) {
        ResponsesAnswer::MirrorSuccess
    } else if client_wants_stream {
        ResponsesAnswer::Relay
    } else {
        ResponsesAnswer::Gather
    }
}

/// What becomes of a backend response with this status and these headers.
pub fn answer(status: u16, headers: &Headers, client_wants_stream: bool) -> (r: ResponsesAnswer)
    ensures
        r == answer_for(status, headers@, client_wants_stream),
{
    if status >= 400 {
        ResponsesAnswer::MirrorError
    } else if !stream::is_event_stream(headers) {
        ResponsesAnswer::MirrorSuccess
    } else if client_wants_stream {
        ResponsesAnswer::Relay
    } else {
        ResponsesAnswer::Gather
    }
}

/// The object that the backend's stream is gathered into.
pub fn gather(upstream: &[u8]) -> (r: Result<Json, ApiError>)
    ensures
        match buffered::find_response(sse::stream_events(upstream@), None) {
            Ok(response) => r matches Ok(j) && j@ == response,
            Err(_) => r matches Err(e) && e@ == ApiErrorView::Internal(
                "Failed to process streaming response"@,
            ),
        },
{
    error::gathered(buffered::buffer_responses_response(upstream))
}

/// A body that is no event stream is never taken for one: it reaches the
/// client as it is.
pub proof fn law_other_bodies_are_mirrored(
    status: u16,
    h: Seq<HeaderView>,
    client_wants_stream: bool,
)
    requires
        !stream::streams_events(h),
    ensures
        ({
            let a = answer_for(status, h, client_wants_stream);
            a is MirrorError || a is MirrorSuccess
        }),
{
}

} // verus!
