//! Errors that a client sees.
use crate::buffered::BufferError;
use crate::json::Json;
use crate::json::JsonView;
use crate::upstream;
use crate::upstream::UpstreamError;
use crate::upstream::UpstreamErrorView;
use vstd::prelude::*;

verus! {

/// Why a request is not answered as it should be.
#[derive(Debug)]
pub enum ApiError {
    /// The request is bad.
    BadRequest(String),
    /// The client has no access.
    Unauthorized(&'static str),
    /// No admin key is configured.
    AdminNotConfigured,
    /// The backend or the credentials failed.
    Upstream(UpstreamError),
    /// Something else failed.
    Internal(&'static str),
}

/// An error in mathematical form.
pub enum ApiErrorView {
    BadRequest(Seq<char>),
    Unauthorized(Seq<char>),
    AdminNotConfigured,
    Upstream(UpstreamErrorView),
    Internal(Seq<char>),
}

/// The status of the response to an error.
pub open spec fn error_status(e: ApiErrorView) -> u16 {
    match e {
        ApiErrorView::BadRequest(_) => 400,
        ApiErrorView::Unauthorized(_) => 401,
        ApiErrorView::AdminNotConfigured => 500,
        ApiErrorView::Upstream(_) => 503,
        ApiErrorView::Internal(_) => 500,
    }
}

/// The message of an error.
pub open spec fn error_text(e: ApiErrorView) -> Seq<char> {
    match e {
        ApiErrorView::BadRequest(m) => m,
        ApiErrorView::Unauthorized(m) => m,
        ApiErrorView::AdminNotConfigured => "Admin API not configured"@,
        ApiErrorView::Upstream(u) => {
            "Failed to communicate with upstream API: "@ + upstream::error_text(u)
        },
        ApiErrorView::Internal(m) => m,
    }
}

/// The body of a response with this error message.
pub open spec fn error_body(message: Seq<char>) -> JsonView {
    JsonView::Object(map!["error"@ => JsonView::Text(message)])
}

/// The body of a response with this error message.
pub fn make_error_body(message: &str) -> (r: Json)
    ensures
        r@ == error_body(message@),
{
    let r = Json::object().with("error", Json::text(message));
    proof {
        assert(r@ =~~= error_body(message@));
    }
    r
}

impl ApiError {
    /// The error in mathematical form.
    pub open spec fn view(&self) -> ApiErrorView {
        match self {
            ApiError::BadRequest(m) => ApiErrorView::BadRequest(m@),
            ApiError::Unauthorized(m) => ApiErrorView::Unauthorized(m@),
            ApiError::AdminNotConfigured => ApiErrorView::AdminNotConfigured,
            ApiError::Upstream(u) => ApiErrorView::Upstream(u@),
            ApiError::Internal(m) => ApiErrorView::Internal(m@),
        }
    }

    /// The message of the error.
    pub fn message(&self) -> (r: String)
        ensures
            r@ == error_text(self@),
    {
        match self {
            ApiError::BadRequest(m) => m.as_str().to_owned(),
            ApiError::Unauthorized(m) => (*m).to_owned(),
            ApiError::AdminNotConfigured => "Admin API not configured".to_owned(),
            ApiError::Upstream(u) => {
                let mut out: String = "Failed to communicate with upstream API: ".to_owned();
                out.append(u.message().as_str());
                out
            },
            ApiError::Internal(m) => (*m).to_owned(),
        }
    }

    /// The status and body of the response to the error.
    pub fn into_response(self) -> (r: (u16, Json))
        ensures
            r.0 == error_status(self@),
            r.1@ == error_body(error_text(self@)),
    {
        let body = make_error_body(self.message().as_str());
        let status: u16 = match self {
            ApiError::BadRequest(_) => 400,
            ApiError::Unauthorized(_) => 401,
            ApiError::AdminNotConfigured => 500,
            ApiError::Upstream(_) => 503,
            ApiError::Internal(_) => 500,
        };
        (status, body)
    }
}

/// What a client that does not stream gets where its stream was gathered so.
/// Why it was not is for the logs alone.
pub fn gathered(result: Result<Json, BufferError>) -> (r: Result<Json, ApiError>)
    ensures
        match result {
            Ok(j) => r == Ok::<Json, ApiError>(j),
            Err(_) => r matches Err(e) && e@ == ApiErrorView::Internal(
                "Failed to process streaming response"@,
            ),
        },
{
    match result {
        Ok(j) => Ok(j),
        Err(_) => Err(ApiError::Internal("Failed to process streaming response")),
    }
}

} // verus!
