//! What a client gets.
//!
//! The laws speak of the headers, statuses and bodies that go in and out.
use super::admin;
use super::admin::HeldView;
use super::admin::UpdateCredentialsBody;
use super::chat;
use super::chat::ChatAnswer;
use super::error;
use super::error::ApiErrorView;
use super::middleware;
use super::misc;
use super::misc::Endpoint;
use super::misc::Method;
use super::misc::RouteView;
use super::responses;
use super::responses::ResponsesAnswer;
use super::stream;
use crate::config::ProxyMode;
use crate::conversation;
use crate::conversation::KeySource;
use crate::credentials;
use crate::credentials::CredentialsErrorView;
use crate::credentials::CredentialsView;
use crate::credentials::OAuthView;
use crate::headers;
use crate::headers::HeaderView;
use crate::json;
use crate::json::JsonView;
use crate::json::NumView;
use crate::model;
use crate::request;
use crate::text;
use crate::upstream;
use crate::upstream::UpstreamErrorView;
use vstd::prelude::*;
use vstd::utf8::encode_utf8;

verus! {

/// A refusal for want of the key.
pub open spec fn refused(message: Seq<char>) -> Result<(), ApiErrorView> {
    Err(ApiErrorView::Unauthorized(message))
}

/// The scheme of an authorization has no space.
proof fn lemma_scheme(scheme: Seq<char>)
    requires
        text::lower(scheme) == "bearer"@,
    ensures
        !scheme.contains(' '),
{
    reveal_strlit("bearer");
    assert(text::lower(scheme).len() == scheme.len());
    if scheme.contains(' ') {
        let i = choose|i: int| 0 <= i < scheme.len() && scheme[i] == ' ';
        text::laws::law_lower_case(scheme, i);
        assert("bearer"@[i] == ' ');
    }
}

/// A client that shows a key as `Bearer key`, in whatever case the scheme is
/// written, has access where it is the admin key, and is refused otherwise.
pub proof fn law_bearer_opens_with_the_key(
    admin_key: Seq<char>,
    h: Seq<HeaderView>,
    scheme: Seq<char>,
    key: Seq<char>,
)
    requires
        admin_key.len() > 0,
        text::lower(scheme) == "bearer"@,
        !key.contains(' '),
        headers::first_text(h, "authorization"@) == Some(scheme + seq![' '] + key),
    ensures
        middleware::access(Some(admin_key), h) == (if key == admin_key {
            Ok(())
        } else {
            refused("Unauthorized"@)
        }),
{
    lemma_scheme(scheme);
    text::laws::law_split_at_a_separator(scheme, key, ' ');
    text::laws::law_split_at_a_separator(key, Seq::empty(), ' ');
    assert(seq![scheme] + seq![key] =~= seq![scheme, key]);
}

/// An authorization of another scheme, or without a key, is refused; a key in the
/// other header does not help.
pub proof fn law_other_authorization_is_refused(
    admin_key: Seq<char>,
    h: Seq<HeaderView>,
    scheme: Seq<char>,
    rest: Seq<char>,
)
    requires
        admin_key.len() > 0,
        !scheme.contains(' '),
    ensures
        headers::first_text(h, "authorization"@) == Some(scheme) && scheme.len() > 0
            ==> middleware::access(Some(admin_key), h) == refused(
            "Invalid Authorization header format"@,
        ),
        headers::first_text(h, "authorization"@) == Some(scheme + seq![' '] + rest)
            && text::lower(scheme) != "bearer"@ ==> middleware::access(Some(admin_key), h)
            == refused("Invalid Authorization header format"@),
{
    text::laws::law_split_at_a_separator(scheme, rest, ' ');
    let parts = text::split(scheme + seq![' '] + rest, ' ');
    assert(parts[0] == scheme);
}

/// A client without an authorization has access where its API key is the admin
/// key, and is refused otherwise.
pub proof fn law_api_key_opens(admin_key: Seq<char>, h: Seq<HeaderView>)
    requires
        admin_key.len() > 0,
        !(headers::first_text(h, "authorization"@) matches Some(a) && a.len() > 0),
    ensures
        middleware::access(Some(admin_key), h) == (if headers::first_text(h, "x-api-key"@) == Some(
            admin_key,
        ) {
            Ok(())
        } else {
            refused("Unauthorized"@)
        }),
{
}

/// The status and the message of each error, and the body that carries it.
pub proof fn law_error_is_told(m: Seq<char>, u: UpstreamErrorView)
    ensures
        error::error_status(ApiErrorView::BadRequest(m)) == 400,
        error::error_status(ApiErrorView::Unauthorized(m)) == 401,
        error::error_status(ApiErrorView::AdminNotConfigured) == 500,
        error::error_status(ApiErrorView::Upstream(u)) == 503,
        error::error_status(ApiErrorView::Internal(m)) == 500,
        error::error_text(ApiErrorView::BadRequest(m)) == m,
        error::error_text(ApiErrorView::Unauthorized(m)) == m,
        error::error_text(ApiErrorView::AdminNotConfigured) == "Admin API not configured"@,
        error::error_text(ApiErrorView::Upstream(u)) == "Failed to communicate with upstream API: "@
            + upstream::error_text(u),
        error::error_text(ApiErrorView::Internal(m)) == m,
        error::error_body(m) == JsonView::Object(map!["error"@ => JsonView::Text(m)]),
{
}

/// The minutes until a point in time are whole ones, counted towards now.
pub proof fn law_minutes_are_whole(expires_at_ms: i64, now_ms: i64)
    ensures
        ({
            let m = admin::minutes_until(expires_at_ms, now_ms);
            let left = expires_at_ms - now_ms;
            &&& left >= 0 ==> m >= 0 && m * 60_000 <= left < (m + 1) * 60_000
            &&& left <= 0 ==> m <= 0 && (m - 1) * 60_000 < left <= m * 60_000
        }),
{
}

/// The member names of the status, told apart.
proof fn reveal_status_names()
    ensures
        "type"@.len() == 4,
        "hasCredentials"@.len() == 14,
        "userID"@.len() == 6,
        "expiresAt"@.len() == 9 && "expiresAt"@[0] == 'e',
        "isExpired"@.len() == 9 && "isExpired"@[0] == 'i',
        "minutesUntilExpiry"@.len() == 18,
        "needsRefreshSoon"@.len() == 16,
        "error"@.len() == 5,
{
    reveal_strlit("type");
    reveal_strlit("hasCredentials");
    reveal_strlit("userID");
    reveal_strlit("expiresAt");
    reveal_strlit("isExpired");
    reveal_strlit("minutesUntilExpiry");
    reveal_strlit("needsRefreshSoon");
    reveal_strlit("error");
}

/// The status of a static token tells whether there is one, and for whom.
pub proof fn law_status_of_a_static_token(c: CredentialsView, now_ms: i64)
    ensures
        ({
            let s = admin::status_body(HeldView::Basic(Ok(c)), now_ms);
            &&& json::text_field(s, "type"@) == Some("basic"@)
            &&& json::bool_field(s, "hasCredentials"@) == Some(c.token.len() > 0)
            &&& json::text_field(s, "userID"@) == Some(c.account_id)
        }),
{
    reveal_status_names();
}

/// The status of OAuth tokens tells for whom they are and when they expire: no
/// whole minute left is expired, and an hour or less is soon.
pub proof fn law_status_of_oauth_tokens(o: OAuthView, now_ms: i64)
    ensures
        ({
            let s = admin::status_body(HeldView::OAuth(Ok(o)), now_ms);
            let left = o.expires_at_ms - now_ms;
            &&& json::text_field(s, "type"@) == Some("oauth"@)
            &&& json::bool_field(s, "hasCredentials"@) == Some(true)
            &&& json::text_field(s, "userID"@) == Some(o.user_id)
            &&& json::field(s, "expiresAt"@) == Some(
                JsonView::Num(NumView::Int(o.expires_at_ms as int)),
            )
            &&& json::field(s, "minutesUntilExpiry"@) == Some(
                JsonView::Num(NumView::Int(admin::minutes_until(o.expires_at_ms, now_ms))),
            )
            &&& json::bool_field(s, "isExpired"@) == Some(left < 60_000)
            &&& json::bool_field(s, "needsRefreshSoon"@) == Some(left < 61 * 60_000)
        }),
{
    reveal_status_names();
    law_minutes_are_whole(o.expires_at_ms, now_ms);
}

/// The status where there are no credentials tells why.
pub proof fn law_status_without_credentials(e: CredentialsErrorView, now_ms: i64)
    ensures
        ({
            let basic = admin::status_body(HeldView::Basic(Err(e)), now_ms);
            let oauth = admin::status_body(HeldView::OAuth(Err(e)), now_ms);
            &&& json::text_field(basic, "type"@) == Some("basic"@)
            &&& json::text_field(oauth, "type"@) == Some("oauth"@)
            &&& json::bool_field(basic, "hasCredentials"@) == Some(false)
            &&& json::bool_field(oauth, "hasCredentials"@) == Some(false)
            &&& json::text_field(basic, "error"@) == Some(credentials::error_text(e))
            &&& json::text_field(oauth, "error"@) == Some(credentials::error_text(e))
        }),
{
    reveal_status_names();
}

/// Tokens that were stored are told as a success, and a healthy server as one.
pub proof fn law_success_is_told()
    ensures
        json::text_field(admin::stored_body(), "status"@) == Some("success"@),
        json::text_field(admin::stored_body(), "message"@) == Some(
            "Credentials updated successfully"@,
        ),
        json::text_field(misc::health_body(), "status"@) == Some("ok"@),
{
    reveal_strlit("status");
    reveal_strlit("message");
    assert("status"@.len() == 6);
    assert("message"@.len() == 7);
}

/// Tokens can be stored where both are there and the expiry is not zero.
pub proof fn law_complete_tokens(b: UpdateCredentialsBody)
    ensures
        b.is_complete() <==> b.access_token@.len() > 0 && b.refresh_token@.len() > 0
            && b.expires_at != 0,
{
}

/// A route of this method, path, endpoint and gate.
pub open spec fn serves(
    mode: ProxyMode,
    method: Method,
    path: Seq<char>,
    endpoint: Endpoint,
    gated: bool,
) -> bool {
    (misc::gated_routes(mode) + misc::open_routes()).contains(
        RouteView { method, path, endpoint, gated },
    )
}

/// Both modes serve the models, the health and the metrics to everyone.
pub proof fn law_open_routes(mode: ProxyMode)
    ensures
        serves(mode, Method::Get, "/v1/models"@, Endpoint::Models, false),
        serves(mode, Method::Get, "/health"@, Endpoint::Health, false),
        serves(mode, Method::Get, "/metrics"@, Endpoint::Metrics, false),
        (misc::gated_routes(mode) + misc::open_routes()).len() == (match mode {
            ProxyMode::Backend => 7nat,
            ProxyMode::Router => 5nat,
        }),
{
    let all = misc::gated_routes(mode) + misc::open_routes();
    let n = misc::gated_routes(mode).len() as int;
    assert(all[n] == misc::open_routes()[0]);
    assert(all[n + 1] == misc::open_routes()[1]);
    assert(all[n + 2] == misc::open_routes()[2]);
}

/// A backend answers both kinds of requests and keeps credentials; a router
/// passes both kinds on. All of this takes the admin key.
pub proof fn law_gated_routes()
    ensures
        serves(
            ProxyMode::Backend,
            Method::Post,
            "/v1/chat/completions"@,
            Endpoint::ChatCompletions,
            true,
        ),
        serves(ProxyMode::Backend, Method::Post, "/v1/responses"@, Endpoint::Responses, true),
        serves(
            ProxyMode::Backend,
            Method::Post,
            "/admin/credentials"@,
            Endpoint::UpdateCredentials,
            true,
        ),
        serves(
            ProxyMode::Backend,
            Method::Get,
            "/admin/credentials/status"@,
            Endpoint::CredentialsStatus,
            true,
        ),
        serves(ProxyMode::Router, Method::Post, "/v1/chat/completions"@, Endpoint::Proxy, true),
        serves(ProxyMode::Router, Method::Post, "/v1/responses"@, Endpoint::Proxy, true),
{
    let b = misc::gated_routes(ProxyMode::Backend) + misc::open_routes();
    let r = misc::gated_routes(ProxyMode::Router) + misc::open_routes();
    assert(b[0] == misc::gated_routes(ProxyMode::Backend)[0]);
    assert(b[1] == misc::gated_routes(ProxyMode::Backend)[1]);
    assert(b[2] == misc::gated_routes(ProxyMode::Backend)[2]);
    assert(b[3] == misc::gated_routes(ProxyMode::Backend)[3]);
    assert(r[0] == misc::gated_routes(ProxyMode::Router)[0]);
    assert(r[1] == misc::gated_routes(ProxyMode::Router)[1]);
}

/// A header that stays with the connection to the backend, or that would not fit
/// the body any more.
pub open spec fn stays_behind(name: Seq<char>) -> bool {
    ||| name == "content-length"@
    ||| name == "transfer-encoding"@
    ||| name == "connection"@
    ||| name == "set-cookie"@
    ||| name == "content-encoding"@
}

/// Headers are passed on as they are and in their order, but for those that stay
/// behind.
pub proof fn law_headers_are_passed_on(s: Seq<HeaderView>, h: HeaderView)
    ensures
        stream::passed_on(Seq::empty()) == Seq::<HeaderView>::empty(),
        stream::passed_on(s.push(h)) == (if stays_behind(h.name) {
            stream::passed_on(s)
        } else {
            stream::passed_on(s).push(h)
        }),
{
    reveal(Seq::filter);
    assert(s.push(h).drop_last() =~= s);
    let d = stream::DROPPED_HEADERS@;
    assert(d[0]@ == "content-length"@);
    assert(d[1]@ == "transfer-encoding"@);
    assert(d[2]@ == "connection"@);
    assert(d[3]@ == "set-cookie"@);
    assert(d[4]@ == "content-encoding"@);
    assert(stream::is_dropped(h.name) <==> stays_behind(h.name)) by {
        if stream::is_dropped(h.name) {
            let i = choose|i: int| 0 <= i < d.len() && #[trigger] d[i]@ == h.name;
            assert(i == 0 || i == 1 || i == 2 || i == 3 || i == 4);
        }
    }
}

/// A body is an event stream where the media type before the parameters says so,
/// in whatever case and with whatever white space around it.
pub proof fn law_event_stream_is_told_by_its_type(
    h: Seq<HeaderView>,
    media_type: Seq<char>,
    parameters: Seq<char>,
)
    requires
        !media_type.contains(';'),
        headers::first_text(h, "content-type"@) == Some(media_type) || headers::first_text(
            h,
            "content-type"@,
        ) == Some(media_type + seq![';'] + parameters),
    ensures
        stream::streams_events(h) <==> text::lower(text::trimmed(media_type))
            == "text/event-stream"@,
{
    text::laws::law_split_at_a_separator(media_type, parameters, ';');
    let parts = text::split(media_type + seq![';'] + parameters, ';');
    assert(parts[0] == media_type);
}

/// A body without a content type is no event stream.
pub proof fn law_untyped_body_is_no_stream(h: Seq<HeaderView>)
    requires
        headers::first_text(h, "content-type"@) is None,
    ensures
        !stream::streams_events(h),
{
}

/// A relayed stream keeps the headers that are passed on, but for its type and
/// its caching.
pub proof fn law_relayed_stream_headers(h: Seq<HeaderView>, name: Seq<char>)
    ensures
        headers::first_value(stream::relayed_headers(h), name) == (if name == "content-type"@ {
            Some(encode_utf8("text/event-stream; charset=utf-8"@))
        } else if name == "cache-control"@ {
            Some(encode_utf8("no-cache"@))
        } else {
            headers::first_value(stream::passed_on(h), name)
        }),
{
    reveal_strlit("content-type");
    reveal_strlit("cache-control");
    assert("content-type"@.len() == 12);
    assert("cache-control"@.len() == 13);
    let first = headers::with_value(
        stream::passed_on(h),
        "content-type"@,
        encode_utf8("text/event-stream; charset=utf-8"@),
    );
    headers::laws::law_set_header_is_found(
        stream::passed_on(h),
        "content-type"@,
        encode_utf8("text/event-stream; charset=utf-8"@),
        name,
    );
    headers::laws::law_set_header_is_found(
        first,
        "cache-control"@,
        encode_utf8("no-cache"@),
        name,
    );
}

/// A response that is mirrored keeps its status and its body; one whose body
/// cannot be read becomes a gateway error with a JSON body.
pub proof fn law_response_is_mirrored(status: u16, h: Seq<HeaderView>, body: Seq<u8>)
    ensures
        ({
            let r = stream::mirrored(status, h, Some(body));
            &&& r.status == status
            &&& r.headers == stream::passed_on(h)
            &&& r.body == body
        }),
        ({
            let r = stream::mirrored(status, h, None);
            &&& r.status == 502
            &&& r.headers.len() == 1
            &&& r.headers[0].name == "content-type"@
            &&& r.headers[0].value == encode_utf8("application/json"@)
            &&& r.body == encode_utf8(
                json::json_text(
                    JsonView::Object(
                        map![
                            "error"@ => JsonView::Text("Failed to read upstream response body"@),
                        ],
                    ),
                ),
            )
        }),
{
}

/// A chat response with status two hundred is relayed to a client that streams
/// and gathered for one that does not; every other status is mirrored.
pub proof fn law_chat_answer(status: u16, stream: bool)
    ensures
        chat::answer_for(status, stream) is Mirror <==> status != 200,
        chat::answer_for(status, stream) is Relay <==> status == 200 && stream,
        chat::answer_for(status, stream) is Gather <==> status == 200 && !stream,
{
}

/// A Responses error is mirrored, and so is a body that is no stream; a stream is
/// relayed to a client that wants one and gathered for one that does not.
pub proof fn law_responses_answer(status: u16, h: Seq<HeaderView>, wanted: bool)
    ensures
        responses::answer_for(status, h, wanted) is MirrorError <==> status >= 400,
        responses::answer_for(status, h, wanted) is MirrorSuccess <==> status < 400
            && !stream::streams_events(h),
        responses::answer_for(status, h, wanted) is Relay <==> status < 400
            && stream::streams_events(h) && wanted,
        responses::answer_for(status, h, wanted) is Gather <==> status < 400
            && stream::streams_events(h) && !wanted,
{
}

/// A chat request is planned as it asks: the stream only where it says `true`,
/// the messages counted, the conversation by its key, and the body made of the
/// request.
pub proof fn law_chat_plan(
    h: Seq<HeaderView>,
    request: JsonView,
    prefix: Seq<char>,
    inverse: Seq<char>,
)
    ensures
        ({
            let p = chat::planned(h, request, prefix, inverse);
            &&& p.stream <==> json::field(request, "stream"@) == Some(JsonView::Bool(true))
            &&& p.message_count == (match json::array_field(request, "messages"@) {
                Some(m) => m.len(),
                None => 0nat,
            })
            &&& match conversation::conversation_key(h, request) {
                Some((k, KeySource::Explicit)) => p.conversation_key == k
                    && p.conversation_key_source == "explicit"@,
                Some((k, KeySource::HeadHash)) => p.conversation_key == k
                    && p.conversation_key_source == "head_hash"@,
                None => p.conversation_key.len() == 0 && p.conversation_key_source == "none"@,
            }
            &&& json::text_field(request::codex_body(request, prefix, inverse), "model"@) == Some(
                p.model,
            )
            &&& p.body == json::json_text(request::codex_body(request, prefix, inverse))
        }),
{
    request::laws::law_chat_body_members(request, prefix, inverse);
    request::laws::law_requested_model(request);
}

/// A Responses request is planned as it asks, and the body is made of it; what is
/// no object is sent as it is.
pub proof fn law_responses_plan(r: JsonView)
    ensures
        ({
            let p = responses::planned(r);
            &&& p.client_wants_stream <==> json::field(r, "stream"@) == Some(JsonView::Bool(true))
            &&& !(r is Object) ==> p.body == json::json_text(r)
            &&& r is Object ==> {
                let body = request::responses_body(
                    r,
                    request::request_model(r),
                    request::request_effort(r),
                );
                &&& p.body == json::json_text(body)
                &&& json::text_field(body, "model"@) == Some(p.model)
                &&& p.effort == request::responses_effort(
                    request::request_model(r),
                    request::request_effort(r),
                )
            }
        }),
{
    if r is Object {
        request::laws::law_responses_body_members(
            r,
            request::request_model(r),
            request::request_effort(r),
        );
    }
}

} // verus!
