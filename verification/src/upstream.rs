//! Requests to the backend.
//!
//! Every request carries credentials. When the backend rejects them, they are
//! refreshed and the request is sent once more; [`SendRun`] decides each step,
//! and the caller performs it.
use crate::credentials;
use crate::credentials::Credentials;
use crate::credentials::CredentialsError;
use crate::credentials::CredentialsErrorView;
use crate::credentials::CredentialsView;
use crate::headers::HeaderView;
use crate::headers::Headers;
use crate::text;
use vstd::prelude::*;
use vstd::utf8::encode_utf8;

pub mod laws;

verus! {

/// The endpoint of the backend.
pub const UPSTREAM_URL: &'static str = "https://chatgpt.com/backend-api/codex/responses";

/// The version that requests carry.
pub const CODEX_VERSION: &'static str = "0.125.0";

/// The client that requests name.
pub const USER_AGENT: &'static str =
    "codex_cli_rs/0.125.0 (Mac OS 26.3.0; arm64) Apple_Terminal/466";

/// The features that requests ask for.
pub const BETA_FEATURES: &'static str = "multi_agent,apps,prevent_idle_sleep";

/// The status of a request whose credentials are rejected.
pub const UNAUTHORIZED: u16 = 401;

/// Why a request to the backend failed.
#[derive(Debug)]
pub enum UpstreamError {
    Credentials(CredentialsError),
    RefreshFailed(CredentialsError),
    /// The request could not be sent; with the message of the client.
    Request(String),
}

/// An error in mathematical form.
pub enum UpstreamErrorView {
    Credentials(CredentialsErrorView),
    RefreshFailed(CredentialsErrorView),
    Request(Seq<char>),
}

/// The message of an error.
pub open spec fn error_text(e: UpstreamErrorView) -> Seq<char> {
    match e {
        UpstreamErrorView::Credentials(c) => {
            "failed to get credentials: "@ + credentials::error_text(c)
        },
        UpstreamErrorView::RefreshFailed(c) => {
            "token expired and refresh failed: "@ + credentials::error_text(c)
        },
        UpstreamErrorView::Request(m) => "failed to send request: "@ + m,
    }
}

impl UpstreamError {
    /// The error in mathematical form.
    pub open spec fn view(&self) -> UpstreamErrorView {
        match self {
            UpstreamError::Credentials(c) => UpstreamErrorView::Credentials(c@),
            UpstreamError::RefreshFailed(c) => UpstreamErrorView::RefreshFailed(c@),
            UpstreamError::Request(m) => UpstreamErrorView::Request(m@),
        }
    }

    /// The message of the error.
    pub fn message(&self) -> (r: String)
        ensures
            r@ == error_text(self@),
    {
        match self {
            UpstreamError::Credentials(c) => {
                let mut out: String = "failed to get credentials: ".to_owned();
                out.append(c.message().as_str());
                out
            },
            UpstreamError::RefreshFailed(c) => {
                let mut out: String = "token expired and refresh failed: ".to_owned();
                out.append(c.message().as_str());
                out
            },
            UpstreamError::Request(m) => {
                let mut out: String = "failed to send request: ".to_owned();
                out.append(m.as_str());
                out
            },
        }
    }
}

/// A token without spaces around it and without a leading `Bearer `, in
/// whatever case.
pub open spec fn bare(token: Seq<char>) -> Seq<char> {
    let t = text::trimmed(token);
    if t.len() >= 7 && text::lower(t.take(7)) == "bearer "@ {
        text::trimmed(t.skip(7))
    } else {
        t
    }
}

/// A token without a leading `Bearer `, so that the header never has two.
pub fn bare_token(token: &str) -> (r: String)
    ensures
        r@ == bare(token@),
{
    let t: String = text::trim(token);
    let cs: Vec<char> = text::chars_of(t.as_str());
    if cs.len() >= 7 {
        let head: String = text::string_of(&cs, 0, 7);
        let ghost whole = t@;
        proof {
            assert(head@ =~= whole.take(7));
        }
        if text::same(text::to_lower(head.as_str()).as_str(), "bearer ") {
            let rest: String = text::string_of(&cs, 7, cs.len());
            proof {
                assert(rest@ =~= whole.skip(7));
            }
            return text::trim(rest.as_str());
        }
    }
    t
}

/// A header with a text for its value.
pub open spec fn header(name: Seq<char>, value: Seq<char>) -> HeaderView {
    HeaderView { name, value: encode_utf8(value) }
}

/// The metadata of a turn.
pub open spec fn turn_metadata(turn_id: Seq<char>) -> Seq<char> {
    "{\"turn_id\":\""@ + turn_id + "\",\"sandbox\":\"none\"}"@
}

/// The headers of a request to the backend. The session and the turn have ids
/// that are new with every request.
pub open spec fn codex_header_list(
    c: CredentialsView,
    session_id: Seq<char>,
    turn_id: Seq<char>,
) -> Seq<HeaderView> {
    seq![
        header("authorization"@, "Bearer "@ + bare(c.token)),
        header("version"@, CODEX_VERSION@),
        header("openai-beta"@, "responses=experimental"@),
        header("session_id"@, session_id),
        header("accept"@, "text/event-stream"@),
        header("content-type"@, "application/json"@),
        header("chatgpt-account-id"@, c.account_id),
        header("originator"@, "codex_cli_rs"@),
        header("user-agent"@, USER_AGENT@),
        header("x-codex-beta-features"@, BETA_FEATURES@),
        header("x-codex-turn-metadata"@, turn_metadata(turn_id)),
    ]
}

/// Adds a header whose name is in lower case.
fn add_header(h: &mut Headers, name: &'static str, value: &str)
    requires
        text::lower(name@) == name@,
    ensures
        final(h)@ == old(h)@.push(header(name@, value@)),
{
    h.append(name, crate::bytes::copy(value.as_bytes()));
}

/// These header names are in lower case.
proof fn lemma_names_are_lower()
    ensures
        text::lower("authorization"@) == "authorization"@,
        text::lower("version"@) == "version"@,
        text::lower("openai-beta"@) == "openai-beta"@,
        text::lower("session_id"@) == "session_id"@,
        text::lower("accept"@) == "accept"@,
        text::lower("content-type"@) == "content-type"@,
        text::lower("chatgpt-account-id"@) == "chatgpt-account-id"@,
        text::lower("originator"@) == "originator"@,
        text::lower("user-agent"@) == "user-agent"@,
        text::lower("x-codex-beta-features"@) == "x-codex-beta-features"@,
        text::lower("x-codex-turn-metadata"@) == "x-codex-turn-metadata"@,
{
    reveal_strlit("authorization");
    assert(text::lower("authorization"@) =~= "authorization"@);
    reveal_strlit("version");
    assert(text::lower("version"@) =~= "version"@);
    reveal_strlit("openai-beta");
    assert(text::lower("openai-beta"@) =~= "openai-beta"@);
    reveal_strlit("session_id");
    assert(text::lower("session_id"@) =~= "session_id"@);
    reveal_strlit("accept");
    assert(text::lower("accept"@) =~= "accept"@);
    reveal_strlit("content-type");
    assert(text::lower("content-type"@) =~= "content-type"@);
    reveal_strlit("chatgpt-account-id");
    assert(text::lower("chatgpt-account-id"@) =~= "chatgpt-account-id"@);
    reveal_strlit("originator");
    assert(text::lower("originator"@) =~= "originator"@);
    reveal_strlit("user-agent");
    assert(text::lower("user-agent"@) =~= "user-agent"@);
    reveal_strlit("x-codex-beta-features");
    assert(text::lower("x-codex-beta-features"@) =~= "x-codex-beta-features"@);
    reveal_strlit("x-codex-turn-metadata");
    assert(text::lower("x-codex-turn-metadata"@) =~= "x-codex-turn-metadata"@);
}

/// The headers of a request to the backend.
pub fn codex_headers(c: &Credentials, session_id: &str, turn_id: &str) -> (r: Headers)
    ensures
        r@ == codex_header_list(c@, session_id@, turn_id@),
{
    proof {
        lemma_names_are_lower();
    }
    let mut bearer: String = "Bearer ".to_owned();
    bearer.append(bare_token(c.token.as_str()).as_str());
    let mut metadata: String = "{\"turn_id\":\"".to_owned();
    metadata.append(turn_id);
    metadata.append("\",\"sandbox\":\"none\"}");
    let mut h = Headers::new();
    add_header(&mut h, "authorization", bearer.as_str());
    add_header(&mut h, "version", CODEX_VERSION);
    add_header(&mut h, "openai-beta", "responses=experimental");
    add_header(&mut h, "session_id", session_id);
    add_header(&mut h, "accept", "text/event-stream");
    add_header(&mut h, "content-type", "application/json");
    add_header(&mut h, "chatgpt-account-id", c.account_id.as_str());
    add_header(&mut h, "originator", "codex_cli_rs");
    add_header(&mut h, "user-agent", USER_AGENT);
    add_header(&mut h, "x-codex-beta-features", BETA_FEATURES);
    add_header(&mut h, "x-codex-turn-metadata", metadata.as_str());
    proof {
        assert(h@ =~= codex_header_list(c@, session_id@, turn_id@));
    }
    h
}

/// What a run waits for.
#[derive(Debug, Clone, Copy, PartialEq, Eq, Structural)]
pub enum SendStage {
    /// Credentials for the first request.
    FirstCredentials,
    /// The response to the first request.
    FirstResponse,
    /// The refresh of rejected credentials.
    Refresh,
    /// Credentials for the second request.
    SecondCredentials,
    /// The response to the second request.
    SecondResponse,
    /// Nothing: the run is over.
    Over,
}

/// What happened since the last step.
#[derive(Debug)]
pub enum SendEvent {
    /// The store was asked for credentials.
    Fetched(Result<Credentials, CredentialsError>),
    /// The request was sent: the status of the response, or the message of the
    /// client.
    Sent(Result<u16, String>),
    /// The store was asked to refresh.
    Refreshed(Result<(), CredentialsError>),
}

/// What happened, in mathematical form.
pub enum SendEventView {
    Fetched(Result<CredentialsView, CredentialsErrorView>),
    Sent(Result<u16, Seq<char>>),
    Refreshed(Result<(), CredentialsErrorView>),
}

impl SendEvent {
    /// What happened, in mathematical form.
    pub open spec fn view(&self) -> SendEventView {
        match self {
            SendEvent::Fetched(Ok(c)) => SendEventView::Fetched(Ok(c@)),
            SendEvent::Fetched(Err(e)) => SendEventView::Fetched(Err(e@)),
            SendEvent::Sent(Ok(s)) => SendEventView::Sent(Ok(*s)),
            SendEvent::Sent(Err(m)) => SendEventView::Sent(Err(m@)),
            SendEvent::Refreshed(Ok(())) => SendEventView::Refreshed(Ok(())),
            SendEvent::Refreshed(Err(e)) => SendEventView::Refreshed(Err(e@)),
        }
    }
}

/// What to do next.
#[derive(Debug)]
pub enum SendAction {
    /// Ask the store for credentials.
    Fetch,
    /// Send the request with these.
    Send(Credentials),
    /// Drop the response and ask the store to refresh.
    Refresh,
    /// Hand the response on.
    Finish,
    /// Give up.
    Fail(UpstreamError),
}

/// What to do next, in mathematical form.
pub enum SendActionView {
    Fetch,
    Send(CredentialsView),
    Refresh,
    Finish,
    Fail(UpstreamErrorView),
}

impl SendAction {
    /// What to do next, in mathematical form.
    pub open spec fn view(&self) -> SendActionView {
        match self {
            SendAction::Fetch => SendActionView::Fetch,
            SendAction::Send(c) => SendActionView::Send(c@),
            SendAction::Refresh => SendActionView::Refresh,
            SendAction::Finish => SendActionView::Finish,
            SendAction::Fail(e) => SendActionView::Fail(e@),
        }
    }
}

/// Whether a stage waits for this kind of event.
pub open spec fn awaits(stage: SendStage, event: SendEventView) -> bool {
    match stage {
        SendStage::FirstCredentials => event is Fetched,
        SendStage::FirstResponse => event is Sent,
        SendStage::Refresh => event is Refreshed,
        SendStage::SecondCredentials => event is Fetched,
        SendStage::SecondResponse => event is Sent,
        SendStage::Over => false,
    }
}

/// The stage that follows an event, and what to do. A rejected first request
/// is followed by one refresh and one more request; the response to that one
/// is handed on whatever it is.
pub open spec fn next_step(stage: SendStage, event: SendEventView) -> (SendStage, SendActionView) {
    match (stage, event) {
        (SendStage::FirstCredentials, SendEventView::Fetched(Ok(c))) => (
            SendStage::FirstResponse,
            SendActionView::Send(c),
        ),
        (_, SendEventView::Fetched(Ok(c))) => (
            SendStage::SecondResponse,
            SendActionView::Send(c),
        ),
        (_, SendEventView::Fetched(Err(e))) => (
            SendStage::Over,
            SendActionView::Fail(UpstreamErrorView::Credentials(e)),
        ),
        (_, SendEventView::Sent(Err(m))) => (
            SendStage::Over,
            SendActionView::Fail(UpstreamErrorView::Request(m)),
        ),
        (_, SendEventView::Sent(Ok(status))) => if stage is FirstResponse && status
            == UNAUTHORIZED {
            (SendStage::Refresh, SendActionView::Refresh)
        } else {
            (SendStage::Over, SendActionView::Finish)
        },
        (_, SendEventView::Refreshed(Ok(_))) => (
            SendStage::SecondCredentials,
            SendActionView::Fetch,
        ),
        (_, SendEventView::Refreshed(Err(e))) => (
            SendStage::Over,
            SendActionView::Fail(UpstreamErrorView::RefreshFailed(e)),
        ),
    }
}

/// A request to the backend on its way.
#[derive(Debug)]
pub struct SendRun {
    pub stage: SendStage,
}

impl SendRun {
    /// A new run. The first thing to do is to ask the store for credentials.
    pub fn new() -> (r: Self)
        ensures
            r.stage == SendStage::FirstCredentials,
    {
        SendRun { stage: SendStage::FirstCredentials }
    }

    /// Takes in what happened and says what to do next.
    pub fn step(&mut self, event: SendEvent) -> (r: SendAction)
        requires
            awaits(old(self).stage, event@),
        ensures
            (final(self).stage, r@) == next_step(old(self).stage, event@),
    {
        match event {
            SendEvent::Fetched(Ok(c)) => {
                if self.stage == SendStage::FirstCredentials {
                    self.stage = SendStage::FirstResponse;
                } else {
                    self.stage = SendStage::SecondResponse;
                }
                SendAction::Send(c)
            },
            SendEvent::Fetched(Err(e)) => {
                self.stage = SendStage::Over;
                SendAction::Fail(UpstreamError::Credentials(e))
            },
            SendEvent::Sent(Err(m)) => {
                self.stage = SendStage::Over;
                SendAction::Fail(UpstreamError::Request(m))
            },
            SendEvent::Sent(Ok(status)) => {
                if self.stage == SendStage::FirstResponse && status == UNAUTHORIZED {
                    self.stage = SendStage::Refresh;
                    SendAction::Refresh
                } else {
                    self.stage = SendStage::Over;
                    SendAction::Finish
                }
            },
            SendEvent::Refreshed(Ok(())) => {
                self.stage = SendStage::SecondCredentials;
                SendAction::Fetch
            },
            SendEvent::Refreshed(Err(e)) => {
                self.stage = SendStage::Over;
                SendAction::Fail(UpstreamError::RefreshFailed(e))
            },
        }
    }
}

/// The actions that a run takes on these events from a stage on. It stops at
/// an event that the stage does not wait for.
pub open spec fn actions(stage: SendStage, events: Seq<SendEventView>) -> Seq<SendActionView>
    decreases events.len(),
{
    if events.len() == 0 || !awaits(stage, events[0]) {
        Seq::empty()
    } else {
        seq![next_step(stage, events[0]).1] + actions(
            next_step(stage, events[0]).0,
            events.skip(1),
        )
    }
}

/// How many of these actions send a request.
pub open spec fn sends(a: Seq<SendActionView>) -> nat
    decreases a.len(),
{
    if a.len() == 0 {
        0
    } else {
        (if a[0] is Send {
            1nat
        } else {
            0nat
        }) + sends(a.skip(1))
    }
}

/// How many of these actions refresh the credentials.
pub open spec fn refreshes(a: Seq<SendActionView>) -> nat
    decreases a.len(),
{
    if a.len() == 0 {
        0
    } else {
        (if a[0] is Refresh {
            1nat
        } else {
            0nat
        }) + refreshes(a.skip(1))
    }
}

/// The requests that can still follow a stage.
spec fn sends_left(stage: SendStage) -> nat {
    match stage {
        SendStage::FirstCredentials => 2,
        SendStage::FirstResponse => 1,
        SendStage::Refresh => 1,
        SendStage::SecondCredentials => 1,
        SendStage::SecondResponse => 0,
        SendStage::Over => 0,
    }
}

/// The refreshes that can still follow a stage.
spec fn refreshes_left(stage: SendStage) -> nat {
    match stage {
        SendStage::FirstCredentials => 1,
        SendStage::FirstResponse => 1,
        _ => 0,
    }
}

/// What is left at a stage bounds what follows it.
proof fn lemma_left(stage: SendStage, events: Seq<SendEventView>)
    ensures
        sends(actions(stage, events)) <= sends_left(stage),
        refreshes(actions(stage, events)) <= refreshes_left(stage),
    decreases events.len(),
{
    if events.len() > 0 && awaits(stage, events[0]) {
        let (next, action) = next_step(stage, events[0]);
        lemma_left(next, events.skip(1));
        let rest = actions(next, events.skip(1));
        let all = actions(stage, events);
        assert(all.skip(1) =~= rest);
        assert(all[0] == action);
    }
}

/// Whatever happens, a request is sent at most twice, and the credentials are
/// refreshed at most once.
pub proof fn law_one_retry(events: Seq<SendEventView>)
    ensures
        sends(actions(SendStage::FirstCredentials, events)) <= 2,
        refreshes(actions(SendStage::FirstCredentials, events)) <= 1,
{
    lemma_left(SendStage::FirstCredentials, events);
}

/// A response to the second request is handed on, a rejection too.
pub proof fn law_second_response_is_final(status: u16)
    ensures
        next_step(SendStage::SecondResponse, SendEventView::Sent(Ok(status))) == (
            SendStage::Over,
            SendActionView::Finish,
        ),
{
}

/// A run never ends before it has a response or a reason to fail: every stage
/// but the last moves on with each event that it waits for.
pub proof fn law_run_moves_on(stage: SendStage, event: SendEventView)
    requires
        awaits(stage, event),
    ensures
        next_step(stage, event).0 != stage,
        next_step(stage, event).0 is Over <==> next_step(stage, event).1 is Finish || next_step(
            stage,
            event,
        ).1 is Fail,
{
}

} // verus!
