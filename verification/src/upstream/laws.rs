//! What the backend is sent, and what follows its response.
use super::SendActionView;
use super::SendEventView;
use super::SendStage;
use super::UpstreamErrorView;
use crate::credentials;
use crate::credentials::CredentialsErrorView;
use crate::credentials::CredentialsView;
use crate::headers;
use crate::headers::HeaderView;
use crate::text;
use crate::upstream;
use vstd::prelude::*;
use vstd::utf8::encode_utf8;

verus! {

/// The scheme of a token, in whatever case, with the space after it.
pub open spec fn is_scheme(s: Seq<char>) -> bool {
    text::lower(s) == "bearer "@
}

/// The scheme is not written twice: it is taken off a token that has it, in
/// whatever case, with the white space around the token.
pub proof fn law_scheme_is_taken_off(given: Seq<char>, scheme: Seq<char>, token: Seq<char>)
    requires
        is_scheme(scheme),
        text::trimmed(given) == scheme + token,
    ensures
        upstream::bare(given) == text::trimmed(token),
{
    reveal_strlit("bearer ");
    assert(text::lower(scheme).len() == scheme.len());
    let t = scheme + token;
    assert(t.take(7) =~= scheme);
    assert(t.skip(7) =~= token);
}

/// A token without the scheme is sent as it is, without white space around it.
pub proof fn law_plain_token_is_kept(token: Seq<char>)
    requires
        !(text::trimmed(token).len() >= 7 && is_scheme(text::trimmed(token).take(7))),
    ensures
        upstream::bare(token) == text::trimmed(token),
{
}

/// A header with this name and this text.
pub open spec fn says(h: Seq<HeaderView>, name: Seq<char>, value: Seq<char>) -> bool {
    headers::first_value(h, name) == Some(encode_utf8(value))
}

/// The name of a header by its place.
proof fn lemma_found(h: Seq<HeaderView>, i: int, name: Seq<char>)
    requires
        0 <= i < h.len(),
        h[i].name == name,
        forall|j: int| 0 <= j < i ==> (#[trigger] h[j]).name != name,
    ensures
        headers::first_value(h, name) == Some(h[i].value),
    decreases i,
{
    if i > 0 {
        assert(h[0].name != name);
        let rest = h.skip(1);
        assert(rest[i - 1] == h[i]);
        assert forall|j: int| 0 <= j < i - 1 implies (#[trigger] rest[j]).name != name by {
            assert(rest[j] == h[j + 1]);
        }
        lemma_found(rest, i - 1, name);
    }
}

/// The header names differ.
proof fn reveal_names()
    ensures
        "authorization"@.len() == 13,
        "version"@.len() == 7,
        "openai-beta"@.len() == 11,
        "session_id"@.len() == 10 && "session_id"@[0] == 's',
        "accept"@.len() == 6,
        "content-type"@.len() == 12,
        "chatgpt-account-id"@.len() == 18,
        "originator"@.len() == 10 && "originator"@[0] == 'o' && "originator"@[1] == 'r',
        "user-agent"@.len() == 10 && "user-agent"@[0] == 'u',
        "x-codex-beta-features"@.len() == 21 && "x-codex-beta-features"@[8] == 'b',
        "x-codex-turn-metadata"@.len() == 21 && "x-codex-turn-metadata"@[8] == 't',
{
    reveal_strlit("authorization");
    reveal_strlit("version");
    reveal_strlit("openai-beta");
    reveal_strlit("session_id");
    reveal_strlit("accept");
    reveal_strlit("content-type");
    reveal_strlit("chatgpt-account-id");
    reveal_strlit("originator");
    reveal_strlit("user-agent");
    reveal_strlit("x-codex-beta-features");
    reveal_strlit("x-codex-turn-metadata");
}

/// Every request carries the token and the account of its credentials, the ids
/// of its session and turn, and the marks of the client, each once.
pub proof fn law_request_headers(c: CredentialsView, session_id: Seq<char>, turn_id: Seq<char>)
    ensures
        ({
            let h = upstream::codex_header_list(c, session_id, turn_id);
            &&& h.len() == 11
            &&& says(h, "authorization"@, "Bearer "@ + upstream::bare(c.token))
            &&& says(h, "chatgpt-account-id"@, c.account_id)
            &&& says(h, "session_id"@, session_id)
            &&& says(
                h,
                "x-codex-turn-metadata"@,
                "{\"turn_id\":\""@ + turn_id + "\",\"sandbox\":\"none\"}"@,
            )
            &&& says(h, "version"@, "0.125.0"@)
            &&& says(h, "openai-beta"@, "responses=experimental"@)
            &&& says(h, "accept"@, "text/event-stream"@)
            &&& says(h, "content-type"@, "application/json"@)
            &&& says(h, "originator"@, "codex_cli_rs"@)
            &&& says(
                h,
                "user-agent"@,
                "codex_cli_rs/0.125.0 (Mac OS 26.3.0; arm64) Apple_Terminal/466"@,
            )
            &&& says(h, "x-codex-beta-features"@, "multi_agent,apps,prevent_idle_sleep"@)
        }),
{
    reveal_names();
    let h = upstream::codex_header_list(c, session_id, turn_id);
    lemma_found(h, 0, "authorization"@);
    lemma_found(h, 1, "version"@);
    lemma_found(h, 2, "openai-beta"@);
    lemma_found(h, 3, "session_id"@);
    lemma_found(h, 4, "accept"@);
    lemma_found(h, 5, "content-type"@);
    lemma_found(h, 6, "chatgpt-account-id"@);
    lemma_found(h, 7, "originator"@);
    lemma_found(h, 8, "user-agent"@);
    lemma_found(h, 9, "x-codex-beta-features"@);
    lemma_found(h, 10, "x-codex-turn-metadata"@);
}

/// The credentials that the store gives are the ones that the request is sent
/// with, the first time and the second.
pub proof fn law_fetched_credentials_are_used(c: CredentialsView)
    ensures
        upstream::next_step(SendStage::FirstCredentials, SendEventView::Fetched(Ok(c))) == (
            SendStage::FirstResponse,
            SendActionView::Send(c),
        ),
        upstream::next_step(SendStage::SecondCredentials, SendEventView::Fetched(Ok(c))) == (
            SendStage::SecondResponse,
            SendActionView::Send(c),
        ),
{
}

/// The first response is handed on, unless the backend rejects the credentials:
/// then they are refreshed, fetched again, and the request is sent once more.
pub proof fn law_rejected_credentials_are_refreshed(status: u16)
    ensures
        upstream::next_step(SendStage::FirstResponse, SendEventView::Sent(Ok(status))) == (
        if status == 401 {
            (SendStage::Refresh, SendActionView::Refresh)
        } else {
            (SendStage::Over, SendActionView::Finish)
        }),
        upstream::next_step(SendStage::Refresh, SendEventView::Refreshed(Ok(()))) == (
            SendStage::SecondCredentials,
            SendActionView::Fetch,
        ),
        upstream::next_step(SendStage::SecondResponse, SendEventView::Sent(Ok(status))) == (
            SendStage::Over,
            SendActionView::Finish,
        ),
{
}

/// What fails ends the request, and the error tells what failed.
pub proof fn law_failure_ends_the_request(
    stage: SendStage,
    e: CredentialsErrorView,
    m: Seq<char>,
)
    ensures
        upstream::next_step(stage, SendEventView::Fetched(Err(e))) == (
            SendStage::Over,
            SendActionView::Fail(UpstreamErrorView::Credentials(e)),
        ),
        upstream::next_step(stage, SendEventView::Refreshed(Err(e))) == (
            SendStage::Over,
            SendActionView::Fail(UpstreamErrorView::RefreshFailed(e)),
        ),
        upstream::next_step(stage, SendEventView::Sent(Err(m))) == (
            SendStage::Over,
            SendActionView::Fail(UpstreamErrorView::Request(m)),
        ),
        upstream::error_text(UpstreamErrorView::Credentials(e)) == "failed to get credentials: "@
            + credentials::error_text(e),
        upstream::error_text(UpstreamErrorView::RefreshFailed(e))
            == "token expired and refresh failed: "@ + credentials::error_text(e),
        upstream::error_text(UpstreamErrorView::Request(m)) == "failed to send request: "@ + m,
{
}

/// Each stage waits for the answer to what was asked last, and for nothing else.
pub proof fn law_stage_waits_for_its_answer(event: SendEventView)
    ensures
        upstream::awaits(SendStage::FirstCredentials, event) <==> event is Fetched,
        upstream::awaits(SendStage::SecondCredentials, event) <==> event is Fetched,
        upstream::awaits(SendStage::FirstResponse, event) <==> event is Sent,
        upstream::awaits(SendStage::SecondResponse, event) <==> event is Sent,
        upstream::awaits(SendStage::Refresh, event) <==> event is Refreshed,
        !upstream::awaits(SendStage::Over, event),
{
}

} // verus!
