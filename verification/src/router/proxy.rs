//! One request on its way through the router.
//!
//! The pod of an account already speaks the OpenAI API, so that a request and
//! its response pass through as they are. What is decided is where the request
//! goes: to the account that its conversation is pinned to, else to a fresh
//! one; and, where that one fails, once more to another. [`RouteRun`] decides
//! each step, and the caller performs it.
use super::Account;
use super::AccountPool;
use super::AccountView;
use super::PoolView;
use crate::affinity::Pin;
use crate::affinity::PinView;
use crate::bytes;
use crate::conversation;
use crate::digest;
use crate::headers;
use crate::headers::HeaderView;
use crate::headers::Headers;
use crate::json;
use crate::json::Json;
use crate::json::JsonView;
use crate::router;
use crate::server::error::ApiError;
use crate::server::error::ApiErrorView;
use crate::server::stream;
use crate::server::stream::Reply;
use crate::server::stream::ReplyView;
use crate::upstream;
use vstd::prelude::*;
use vstd::utf8::encode_utf8;

verus! {

/// The headers of a request that go on to the pod, so that its spans belong to
/// the same trace.
pub const FORWARDED_HEADERS: [&'static str; 2] = ["traceparent", "tracestate"];

/// What the backend says of a model that an account's plan lacks. There is no
/// code for it, so the text is looked for in the body, whatever its shape.
pub const TIER_GATE_MARKER: &'static str =
    "model is not supported when using Codex with a ChatGPT account";

/// The status of a bad request.
pub const BAD_REQUEST: u16 = 400;

/// The status of too many requests.
pub const TOO_MANY_REQUESTS: u16 = 429;

/// A status that says that the account has a problem, and not the request.
pub open spec fn retryable(status: u16) -> bool {
    status == TOO_MANY_REQUESTS || 500 <= status < 600
}

/// Whether a status says that the account has a problem.
pub fn is_retryable(status: u16) -> (r: bool)
    ensures
        r == retryable(status),
{
    status == TOO_MANY_REQUESTS || (500 <= status && status < 600)
}

/// A body that says that the account's plan lacks the model.
pub open spec fn names_tier_gate(body: Seq<u8>) -> bool {
    bytes::has(body, encode_utf8(TIER_GATE_MARKER@))
}

/// The url of a request at a pod.
pub fn target_url(base_url: &str, path_and_query: &str) -> (r: String)
    ensures
        r@ == base_url@ + path_and_query@,
{
    let mut out: String = base_url.to_owned();
    out.append(path_and_query);
    out
}

/// The headers of these names that a request has, each with its first value.
pub open spec fn forwarded(inbound: Seq<HeaderView>, names: Seq<Seq<char>>) -> Seq<HeaderView>
    decreases names.len(),
{
    if names.len() == 0 {
        Seq::empty()
    } else {
        let rest = forwarded(inbound, names.drop_last());
        match headers::first_value(inbound, names.last()) {
            Some(value) => rest.push(HeaderView { name: names.last(), value }),
            None => rest,
        }
    }
}

/// The headers of a request to a pod: the shared key, the content type and the
/// trace context. Nothing else of the client's request goes on.
pub open spec fn pod_header_list(bearer: Seq<char>, inbound: Seq<HeaderView>) -> Seq<HeaderView> {
    seq![
        upstream::header("authorization"@, "Bearer "@ + bearer),
        upstream::header("content-type"@, "application/json"@),
    ] + forwarded(inbound, seq!["traceparent"@, "tracestate"@])
}

/// The headers of a request to a pod.
pub fn pod_headers(bearer: &str, inbound: &Headers) -> (r: Headers)
    ensures
        r@ == pod_header_list(bearer@, inbound@),
{
    proof {
        reveal_strlit("authorization");
        assert(crate::text::lower("authorization"@) =~= "authorization"@);
        reveal_strlit("content-type");
        assert(crate::text::lower("content-type"@) =~= "content-type"@);
        reveal_strlit("traceparent");
        assert(crate::text::lower("traceparent"@) =~= "traceparent"@);
        reveal_strlit("tracestate");
        assert(crate::text::lower("tracestate"@) =~= "tracestate"@);
    }
    let mut authorization: String = "Bearer ".to_owned();
    authorization.append(bearer);
    let mut h = Headers::new();
    h.append("authorization", bytes::copy(authorization.as_str().as_bytes()));
    h.append("content-type", bytes::copy("application/json".as_bytes()));
    let ghost start = h@;
    match inbound.get(FORWARDED_HEADERS[0]) {
        Some(v) => {
            h.append(FORWARDED_HEADERS[0], bytes::copy(v.as_slice()));
        },
        None => {},
    }
    match inbound.get(FORWARDED_HEADERS[1]) {
        Some(v) => {
            h.append(FORWARDED_HEADERS[1], bytes::copy(v.as_slice()));
        },
        None => {},
    }
    proof {
        let names = seq!["traceparent"@, "tracestate"@];
        assert(names.drop_last() =~= seq!["traceparent"@]);
        assert(names.drop_last().drop_last() =~= Seq::<Seq<char>>::empty());
        reveal_with_fuel(forwarded, 3);
        assert(h@ =~= start + forwarded(inbound@, names));
    }
    h
}

/// A bad request's response, read to its end.
#[derive(Debug)]
pub struct Buffered400 {
    pub headers: Headers,
    pub body: Vec<u8>,
    /// Whether the account's plan lacks the model.
    pub tier_gate: bool,
}

impl Buffered400 {
    /// The response itself.
    pub fn into_response(self) -> (r: Reply)
        ensures
            r@ == (ReplyView { status: BAD_REQUEST, headers: self.headers@, body: self.body@ }),
    {
        Reply { status: BAD_REQUEST, headers: self.headers, body: self.body }
    }
}

/// Reads a bad request's response. A body that could not be read is empty, and
/// an empty body names no tier gate.
pub fn classify_400(upstream: &Headers, body: Vec<u8>) -> (r: Buffered400)
    ensures
        r.headers@ == stream::passed_on(upstream@),
        r.body == body,
        r.tier_gate == names_tier_gate(body@),
{
    let tier_gate: bool = bytes::contains(body.as_slice(), TIER_GATE_MARKER.as_bytes());
    Buffered400 { headers: stream::sanitized_headers(upstream), body, tier_gate }
}

/// What came of sending a request to one account.
#[derive(Debug, Clone, Copy, PartialEq, Eq, Structural)]
pub enum Attempt {
    /// The pod could not be reached.
    Unreachable,
    /// The pod answered. Only of a bad request is the body read, and
    /// `tier_gate` says what it names; it is false for every other status.
    Answered { status: u16, tier_gate: bool },
}

/// What an attempt means.
#[derive(Debug, Clone, Copy, PartialEq, Eq, Structural)]
pub enum Primary {
    /// The response is final: a success, or a failure that is not the
    /// account's.
    Terminal,
    /// Another account may do better. With `tier_gate` the account lacks the
    /// model and is otherwise well; without `answered` there is no response.
    Retry { answered: bool, tier_gate: bool },
}

/// What an attempt means.
pub open spec fn meaning(a: Attempt) -> Primary {
    match a {
        Attempt::Unreachable => Primary::Retry { answered: false, tier_gate: false },
        Attempt::Answered { status, tier_gate } => if status == BAD_REQUEST {
            if tier_gate {
                Primary::Retry { answered: true, tier_gate: true }
            } else {
                Primary::Terminal
            }
        } else if retryable(status) {
            Primary::Retry { answered: true, tier_gate: false }
        } else {
            Primary::Terminal
        },
    }
}

/// What an attempt means.
pub fn classify(a: Attempt) -> (r: Primary)
    ensures
        r == meaning(a),
{
    match a {
        Attempt::Unreachable => Primary::Retry { answered: false, tier_gate: false },
        Attempt::Answered { status, tier_gate } => {
            if status == BAD_REQUEST {
                if tier_gate {
                    Primary::Retry { answered: true, tier_gate: true }
                } else {
                    Primary::Terminal
                }
            } else if is_retryable(status) {
                Primary::Retry { answered: true, tier_gate: false }
            } else {
                Primary::Terminal
            }
        },
    }
}

/// How the account of a response was found.
#[derive(Debug, Clone, Copy, PartialEq, Eq, Structural)]
pub enum RouteSource {
    /// The conversation is pinned to it.
    Pinned,
    /// It was picked for a conversation without a usable pin.
    New,
    /// It was picked, and there is no store of pins.
    Fallback,
    /// It was picked after another one failed.
    Repinned,
    /// It failed, as did another one.
    RepinFailed,
    /// It failed, and there is no other.
    Single,
}

impl RouteSource {
    /// The label for logs.
    pub fn label(self) -> (r: &'static str)
        ensures
            r@ == (match self {
                RouteSource::Pinned => "pinned"@,
                RouteSource::New => "new"@,
                RouteSource::Fallback => "fallback"@,
                RouteSource::Repinned => "repinned"@,
                RouteSource::RepinFailed => "repin_failed"@,
                RouteSource::Single => "single"@,
            }),
    {
        match self {
            RouteSource::Pinned => "pinned",
            RouteSource::New => "new",
            RouteSource::Fallback => "fallback",
            RouteSource::Repinned => "repinned",
            RouteSource::RepinFailed => "repin_failed",
            RouteSource::Single => "single",
        }
    }
}

/// Which of the responses a client gets.
#[derive(Debug, Clone, Copy, PartialEq, Eq, Structural)]
pub enum Which {
    First,
    Second,
}

/// What a run waits for.
#[derive(Debug)]
pub enum RouteStage {
    /// The pin of the conversation.
    Lookup,
    /// What comes of the first account.
    First { account: Account, source: RouteSource },
    /// What comes of the second account. `answered` says whether there is a
    /// response of the first.
    Second { first_slug: String, answered: bool, account: Account },
    /// Nothing: the run is over.
    Over,
}

/// What a run waits for, in mathematical form.
pub enum StageView {
    Lookup,
    First { account: AccountView, source: RouteSource },
    Second { first_slug: Seq<char>, answered: bool, account: AccountView },
    Over,
}

impl RouteStage {
    /// The stage in mathematical form.
    pub open spec fn view(&self) -> StageView {
        match self {
            RouteStage::Lookup => StageView::Lookup,
            RouteStage::First { account, source } => StageView::First {
                account: account@,
                source: *source,
            },
            RouteStage::Second { first_slug, answered, account } => StageView::Second {
                first_slug: first_slug@,
                answered: *answered,
                account: account@,
            },
            RouteStage::Over => StageView::Over,
        }
    }
}

/// A request on its way.
#[derive(Debug)]
pub struct RouteRun {
    /// The key of its conversation, if it belongs to one.
    pub conversation_key: Option<String>,
    /// What stands for the key in logs; empty without a key.
    pub fingerprint: String,
    /// The model that it asks for; empty where it asks for none.
    pub model: String,
    /// Whether there is a store of pins.
    pub has_store: bool,
    pub stage: RouteStage,
}

/// A request on its way, in mathematical form.
pub struct RunView {
    pub conversation_key: Option<Seq<char>>,
    pub fingerprint: Seq<char>,
    pub model: Seq<char>,
    pub has_store: bool,
    pub stage: StageView,
}

/// What to do next.
#[derive(Debug)]
pub enum RouteNext {
    /// Send the request to this account's pod.
    Send(Account),
    /// Answer with that response. It comes from this account.
    Answer { which: Which, slug: String, source: RouteSource },
    /// Answer with this error.
    Fail(ApiError),
}

/// What to do next, in mathematical form.
pub enum NextView {
    Send(AccountView),
    Answer { which: Which, slug: Seq<char>, source: RouteSource },
    Fail(ApiErrorView),
}

/// What to do: first drop the pin under `clear`, or put the one in `put`, and
/// then what is next.
#[derive(Debug)]
pub struct RouteAction {
    pub clear: Option<String>,
    pub put: Option<(String, Pin)>,
    pub next: RouteNext,
}

/// What to do, in mathematical form.
pub struct ActionView {
    pub clear: Option<Seq<char>>,
    pub put: Option<(Seq<char>, PinView)>,
    pub next: NextView,
}

impl RouteNext {
    /// What to do next, in mathematical form.
    pub open spec fn view(&self) -> NextView {
        match self {
            RouteNext::Send(a) => NextView::Send(a@),
            RouteNext::Answer { which, slug, source } => NextView::Answer {
                which: *which,
                slug: slug@,
                source: *source,
            },
            RouteNext::Fail(e) => NextView::Fail(e@),
        }
    }
}

impl RouteAction {
    /// What to do, in mathematical form.
    pub open spec fn view(&self) -> ActionView {
        ActionView {
            clear: router::optional(self.clear),
            put: match self.put {
                Some((k, p)) => Some((k@, p@)),
                None => None,
            },
            next: self.next@,
        }
    }
}

/// The model that a request asks for.
pub open spec fn asked_model(request: JsonView) -> Seq<char> {
    match json::text_field(request, "model"@) {
        Some(m) => m,
        None => Seq::empty(),
    }
}

/// The key of a request's conversation.
pub open spec fn key_of(h: Seq<HeaderView>, request: JsonView) -> Option<Seq<char>> {
    match conversation::conversation_key(h, request) {
        Some((k, _)) => Some(k),
        None => None,
    }
}

/// A request at its start.
pub open spec fn started(h: Seq<HeaderView>, request: JsonView, has_store: bool) -> RunView {
    RunView {
        conversation_key: key_of(h, request),
        fingerprint: match key_of(h, request) {
            Some(k) => digest::text_uuid(k),
            None => Seq::empty(),
        },
        model: asked_model(request),
        has_store,
        stage: StageView::Lookup,
    }
}

/// A request at its start, or why it is not taken in.
pub open spec fn opened(
    has_pool: bool,
    has_admin_key: bool,
    has_store: bool,
    h: Seq<HeaderView>,
    parsed: Result<JsonView, Seq<char>>,
) -> Result<RunView, ApiErrorView> {
    if !has_pool {
        Err(ApiErrorView::Internal("router mode: no account pool configured"@))
    } else if !has_admin_key {
        Err(ApiErrorView::AdminNotConfigured)
    } else {
        match parsed {
            Err(_) => Err(ApiErrorView::BadRequest("Failed to parse request body"@)),
            Ok(request) => Ok(started(h, request, has_store)),
        }
    }
}

/// The key under which a run looks for a pin, and keeps one.
pub open spec fn pin_key(run: RunView) -> Option<Seq<char>> {
    if run.has_store {
        run.conversation_key
    } else {
        None
    }
}

/// The pin of a run's conversation to an account, where pins are kept.
pub open spec fn new_pin(run: RunView, slug: Seq<char>) -> Option<(Seq<char>, PinView)> {
    match pin_key(run) {
        Some(k) => Some((k, PinView { slug, model: run.model })),
        None => None,
    }
}

/// A run, its pool and what to do, once the pin was looked up.
pub open spec fn chosen(
    run: RunView,
    pool: PoolView,
    pinned_slug: Option<Seq<char>>,
    now: u128,
) -> (RunView, PoolView, ActionView) {
    let live = match pinned_slug {
        Some(s) => router::pinned_account(pool, s, run.model, now),
        None => None,
    };
    match live {
        Some(account) => (
            RunView { stage: StageView::First { account, source: RouteSource::Pinned }, ..run },
            pool,
            ActionView { clear: None, put: None, next: NextView::Send(account) },
        ),
        None => match router::picked(pool, None, run.model, now) {
            Some(account) => (
                RunView {
                    stage: StageView::First {
                        account,
                        source: if run.has_store {
                            RouteSource::New
                        } else {
                            RouteSource::Fallback
                        },
                    },
                    ..run
                },
                router::after_pick(pool),
                ActionView { clear: None, put: None, next: NextView::Send(account) },
            ),
            None => (
                RunView { stage: StageView::Over, ..run },
                router::after_pick(pool),
                ActionView {
                    clear: None,
                    put: None,
                    next: NextView::Fail(
                        ApiErrorView::Internal("router mode: account pool is empty"@),
                    ),
                },
            ),
        },
    }
}

/// The pool once an account failed: as a whole, or for the model.
pub open spec fn punished(
    pool: PoolView,
    slug: Seq<char>,
    model: Seq<char>,
    tier_gate: bool,
    now: u128,
) -> PoolView {
    if tier_gate {
        router::model_cooled(pool, slug, model, now)
    } else {
        router::cooled(pool, slug, now)
    }
}

/// A run, its pool and what to do, once the first account was tried.
pub open spec fn after_first(
    run: RunView,
    account: AccountView,
    source: RouteSource,
    pool: PoolView,
    outcome: Primary,
    now: u128,
) -> (RunView, PoolView, ActionView) {
    let over = RunView { stage: StageView::Over, ..run };
    match outcome {
        Primary::Terminal => (
            over,
            pool,
            ActionView {
                clear: None,
                put: if source == RouteSource::Fallback {
                    None
                } else {
                    new_pin(run, account.slug)
                },
                next: NextView::Answer { which: Which::First, slug: account.slug, source },
            },
        ),
        Primary::Retry { answered, tier_gate } => {
            let failed = punished(pool, account.slug, run.model, tier_gate, now);
            let after = router::after_pick(failed);
            let other = match router::picked(failed, Some(account.slug), run.model, now) {
                Some(alt) => if alt.slug != account.slug {
                    Some(alt)
                } else {
                    None
                },
                None => None,
            };
            match other {
                Some(alt) => (
                    RunView {
                        stage: StageView::Second {
                            first_slug: account.slug,
                            answered,
                            account: alt,
                        },
                        ..run
                    },
                    after,
                    ActionView { clear: pin_key(run), put: None, next: NextView::Send(alt) },
                ),
                None => (
                    over,
                    after,
                    ActionView {
                        clear: pin_key(run),
                        put: None,
                        next: if answered {
                            NextView::Answer {
                                which: Which::First,
                                slug: account.slug,
                                source: RouteSource::Single,
                            }
                        } else {
                            NextView::Fail(
                                ApiErrorView::Internal("router: codex account unreachable"@),
                            )
                        },
                    },
                ),
            }
        },
    }
}

/// A run, its pool and what to do, once the second account was tried. An
/// account that could not be reached is not known to be ill.
pub open spec fn after_second(
    run: RunView,
    first_slug: Seq<char>,
    first_answered: bool,
    account: AccountView,
    pool: PoolView,
    outcome: Primary,
    now: u128,
) -> (RunView, PoolView, ActionView) {
    let over = RunView { stage: StageView::Over, ..run };
    match outcome {
        Primary::Terminal => (
            over,
            pool,
            ActionView {
                clear: None,
                put: new_pin(run, account.slug),
                next: NextView::Answer {
                    which: Which::Second,
                    slug: account.slug,
                    source: RouteSource::Repinned,
                },
            },
        ),
        Primary::Retry { answered, tier_gate } => (
            over,
            if answered {
                punished(pool, account.slug, run.model, tier_gate, now)
            } else {
                pool
            },
            ActionView {
                clear: None,
                put: None,
                next: if answered {
                    NextView::Answer {
                        which: Which::Second,
                        slug: account.slug,
                        source: RouteSource::RepinFailed,
                    }
                } else if first_answered {
                    NextView::Answer {
                        which: Which::First,
                        slug: first_slug,
                        source: RouteSource::RepinFailed,
                    }
                } else {
                    NextView::Fail(
                        ApiErrorView::Internal("router: all codex accounts unreachable"@),
                    )
                },
            },
        ),
    }
}

/// A run, its pool and what to do, once an account was tried.
pub open spec fn attempted(run: RunView, pool: PoolView, attempt: Attempt, now: u128) -> (
    RunView,
    PoolView,
    ActionView,
)
    recommends
        run.stage is First || run.stage is Second,
{
    match run.stage {
        StageView::First { account, source } => after_first(
            run,
            account,
            source,
            pool,
            meaning(attempt),
            now,
        ),
        StageView::Second { first_slug, answered, account } => after_second(
            run,
            first_slug,
            answered,
            account,
            pool,
            meaning(attempt),
            now,
        ),
        _ => arbitrary(),
    }
}

/// A copy of an optional string.
fn copy_optional(s: &Option<String>) -> (r: Option<String>)
    ensures
        router::optional(r) == router::optional(*s),
{
    match s {
        Some(t) => Some(t.as_str().to_owned()),
        None => None,
    }
}

/// Marks an account that failed: as a whole, or for the model.
fn punish(pool: &mut AccountPool, slug: &str, model: &str, tier_gate: bool, now: u128)
    ensures
        final(pool)@ == punished(old(pool)@, slug@, model@, tier_gate, now),
{
    if tier_gate {
        pool.cooldown_model_at(slug, model, now);
    } else {
        pool.cooldown_at(slug, now);
    }
}

/// The text of an error in place of an answer.
fn fail(message: &'static str) -> (r: RouteNext)
    ensures
        r@ == NextView::Fail(ApiErrorView::Internal(message@)),
{
    RouteNext::Fail(ApiError::Internal(message))
}

/// What opening a run gave, in mathematical form.
pub open spec fn run_view(r: Result<RouteRun, ApiError>) -> Result<RunView, ApiErrorView> {
    match r {
        Ok(run) => Ok(run@),
        Err(e) => Err(e@),
    }
}

impl RouteRun {
    /// The run in mathematical form.
    pub open spec fn view(&self) -> RunView {
        RunView {
            conversation_key: router::optional(self.conversation_key),
            fingerprint: self.fingerprint@,
            model: self.model@,
            has_store: self.has_store,
            stage: self.stage@,
        }
    }

    /// A run at its start, for a request that was parsed.
    pub fn start(headers: &Headers, request: &Json, has_store: bool) -> (r: Self)
        ensures
            r@ == started(headers@, request@, has_store),
    {
        let conversation_key: Option<String> = match conversation::resolve_conversation_key(
            headers,
            request,
        ) {
            Some(c) => Some(c.key),
            None => None,
        };
        let fingerprint: String = match &conversation_key {
            Some(k) => digest::hash_to_uuid(k.as_str()),
            None => String::new(),
        };
        let model: String = match request.get_str("model") {
            Some(m) => m.to_owned(),
            None => String::new(),
        };
        RouteRun { conversation_key, fingerprint, model, has_store, stage: RouteStage::Lookup }
    }

    /// Takes in a request. It needs a pool of accounts, the key that the pods
    /// share and a body that can be parsed.
    pub fn open(
        has_pool: bool,
        admin_key: Option<&str>,
        has_store: bool,
        headers: &Headers,
        body: &[u8],
    ) -> (r: Result<Self, ApiError>)
        ensures
            run_view(r) == opened(
                has_pool,
                admin_key is Some,
                has_store,
                headers@,
                json::json_parse(body@),
            ),
    {
        if !has_pool {
            return Err(ApiError::Internal("router mode: no account pool configured"));
        }
        if admin_key.is_none() {
            return Err(ApiError::AdminNotConfigured);
        }
        match json::parse(body) {
            Ok(request) => Ok(RouteRun::start(headers, &request, has_store)),
            Err(_) => Err(ApiError::BadRequest("Failed to parse request body".to_owned())),
        }
    }

    /// The key under which to look for a pin, and to keep one.
    pub fn pin_key(&self) -> (r: Option<String>)
        ensures
            router::optional(r) == pin_key(self@),
    {
        if self.has_store {
            copy_optional(&self.conversation_key)
        } else {
            None
        }
    }

    /// The pin of the conversation to an account, where pins are kept.
    fn new_pin(&self, slug: &str) -> (r: Option<(String, Pin)>)
        ensures
            match r {
                Some((k, p)) => new_pin(self@, slug@) == Some((k@, p@)),
                None => new_pin(self@, slug@) is None,
            },
    {
        match self.pin_key() {
            Some(k) => Some(
                (k, Pin { slug: slug.to_owned(), model: self.model.as_str().to_owned() }),
            ),
            None => None,
        }
    }

    /// Takes in the slug of the pin, if there is one, and chooses the first
    /// account.
    pub fn send_first(&mut self, pool: &mut AccountPool, pinned_slug: Option<&str>, now: u128) -> (r:
        RouteAction)
        requires
            old(self)@.stage is Lookup,
        ensures
            (final(self)@, final(pool)@, r@) == chosen(
                old(self)@,
                old(pool)@,
                router::excluded(pinned_slug),
                now,
            ),
    {
        let live: Option<Account> = match pinned_slug {
            Some(s) => pool.pinned_at(s, self.model.as_str(), now),
            None => None,
        };
        let (account, source): (Account, RouteSource) = match live {
            Some(a) => (a, RouteSource::Pinned),
            None => match pool.pick_at(None, self.model.as_str(), now) {
                Some(a) => (
                    a,
                    if self.has_store {
                        RouteSource::New
                    } else {
                        RouteSource::Fallback
                    },
                ),
                None => {
                    self.stage = RouteStage::Over;
                    return RouteAction {
                        clear: None,
                        put: None,
                        next: fail("router mode: account pool is empty"),
                    };
                },
            },
        };
        let target = account.clone();
        self.stage = RouteStage::First { account, source };
        RouteAction { clear: None, put: None, next: RouteNext::Send(target) }
    }

    /// What follows the first account.
    fn settle_first(
        &mut self,
        account: Account,
        source: RouteSource,
        pool: &mut AccountPool,
        outcome: Primary,
        now: u128,
    ) -> (r: RouteAction)
        ensures
            (final(self)@, final(pool)@, r@) == after_first(
                old(self)@,
                account@,
                source,
                old(pool)@,
                outcome,
                now,
            ),
    {
        match outcome {
            Primary::Terminal => {
                let put: Option<(String, Pin)> = if source == RouteSource::Fallback {
                    None
                } else {
                    self.new_pin(account.slug.as_str())
                };
                self.stage = RouteStage::Over;
                RouteAction {
                    clear: None,
                    put,
                    next: RouteNext::Answer { which: Which::First, slug: account.slug, source },
                }
            },
            Primary::Retry { answered, tier_gate } => {
                let slug = account.slug;
                let model = self.model.as_str();
                punish(pool, slug.as_str(), model, tier_gate, now);
                let clear: Option<String> = self.pin_key();
                match pool.pick_at(Some(slug.as_str()), model, now) {
                    Some(alt) => {
                        if !crate::text::same(alt.slug.as_str(), slug.as_str()) {
                            let target = alt.clone();
                            self.stage = RouteStage::Second {
                                first_slug: slug,
                                answered,
                                account: alt,
                            };
                            return RouteAction {
                                clear,
                                put: None,
                                next: RouteNext::Send(target),
                            };
                        }
                    },
                    None => {},
                }
                self.stage = RouteStage::Over;
                let next: RouteNext = if answered {
                    RouteNext::Answer { which: Which::First, slug, source: RouteSource::Single }
                } else {
                    fail("router: codex account unreachable")
                };
                RouteAction { clear, put: None, next }
            },
        }
    }

    /// What follows the second account.
    fn settle_second(
        &mut self,
        first_slug: String,
        first_answered: bool,
        account: Account,
        pool: &mut AccountPool,
        outcome: Primary,
        now: u128,
    ) -> (r: RouteAction)
        ensures
            (final(self)@, final(pool)@, r@) == after_second(
                old(self)@,
                first_slug@,
                first_answered,
                account@,
                old(pool)@,
                outcome,
                now,
            ),
    {
        match outcome {
            Primary::Terminal => {
                let put: Option<(String, Pin)> = self.new_pin(account.slug.as_str());
                self.stage = RouteStage::Over;
                RouteAction {
                    clear: None,
                    put,
                    next: RouteNext::Answer {
                        which: Which::Second,
                        slug: account.slug,
                        source: RouteSource::Repinned,
                    },
                }
            },
            Primary::Retry { answered, tier_gate } => {
                if answered {
                    punish(pool, account.slug.as_str(), self.model.as_str(), tier_gate, now);
                }
                self.stage = RouteStage::Over;
                let next: RouteNext = if answered {
                    RouteNext::Answer {
                        which: Which::Second,
                        slug: account.slug,
                        source: RouteSource::RepinFailed,
                    }
                } else if first_answered {
                    RouteNext::Answer {
                        which: Which::First,
                        slug: first_slug,
                        source: RouteSource::RepinFailed,
                    }
                } else {
                    fail("router: all codex accounts unreachable")
                };
                RouteAction { clear: None, put: None, next }
            },
        }
    }

    /// Takes in what came of the account that was tried last.
    pub fn settle(&mut self, pool: &mut AccountPool, attempt: Attempt, now: u128) -> (r:
        RouteAction)
        requires
            old(self)@.stage is First || old(self)@.stage is Second,
        ensures
            (final(self)@, final(pool)@, r@) == attempted(old(self)@, old(pool)@, attempt, now),
    {
        let outcome = classify(attempt);
        let mut stage = RouteStage::Over;
        std::mem::swap(&mut stage, &mut self.stage);
        match stage {
            RouteStage::First { account, source } => self.settle_first(
                account,
                source,
                pool,
                outcome,
                now,
            ),
            RouteStage::Second { first_slug, answered, account } => self.settle_second(
                first_slug,
                answered,
                account,
                pool,
                outcome,
                now,
            ),
            _ => RouteAction { clear: None, put: None, next: fail("router: no request is open") },
        }
    }
}

/// After the second account there is no third.
pub proof fn law_two_attempts_at_most(run: RunView, pool: PoolView, attempt: Attempt, now: u128)
    requires
        run.stage is Second,
    ensures
        !(attempted(run, pool, attempt, now).2.next is Send),
        attempted(run, pool, attempt, now).0.stage is Over,
{
}

/// A run is over exactly when it has an answer or an error for the client.
pub proof fn law_run_ends_with_an_answer(run: RunView, pool: PoolView, attempt: Attempt, now: u128)
    requires
        run.stage is First || run.stage is Second,
    ensures
        attempted(run, pool, attempt, now).0.stage is Over <==> !(attempted(
            run,
            pool,
            attempt,
            now,
        ).2.next is Send),
{
}

/// The second account is another one than the first, and one of the pool.
pub proof fn law_second_account_is_another(
    run: RunView,
    pool: PoolView,
    attempt: Attempt,
    now: u128,
)
    requires
        run.stage is First,
        pool.accounts.len() > 0,
        attempted(run, pool, attempt, now).2.next is Send,
    ensures
        ({
            let alt = attempted(run, pool, attempt, now).2.next->Send_0;
            alt.slug != run.stage->First_account.slug && pool.accounts.contains(alt)
        }),
{
    let first = run.stage->First_account;
    match meaning(attempt) {
        Primary::Retry { answered, tier_gate } => {
            let failed = punished(pool, first.slug, run.model, tier_gate, now);
            router::law_pick_finds_an_account(failed, Some(first.slug), run.model, now);
        },
        _ => {},
    }
}

/// Only the account of a final response is pinned, and never without a store.
pub proof fn law_only_final_responses_pin(
    run: RunView,
    pool: PoolView,
    attempt: Attempt,
    now: u128,
)
    requires
        run.stage is First || run.stage is Second,
        attempted(run, pool, attempt, now).2.put is Some,
    ensures
        meaning(attempt) is Terminal,
        run.has_store,
        ({
            let slug = if run.stage is First {
                run.stage->First_account.slug
            } else {
                run.stage->Second_account.slug
            };
            attempted(run, pool, attempt, now).2.put->Some_0 == (
                run.conversation_key->Some_0,
                PinView { slug, model: run.model },
            )
        }),
{
}

/// An account that failed first is marked, and its pin is dropped.
pub proof fn law_failed_account_loses_its_pin(
    run: RunView,
    pool: PoolView,
    attempt: Attempt,
    now: u128,
)
    requires
        run.stage is First,
        meaning(attempt) is Retry,
        now + router::COOLDOWN <= u128::MAX,
    ensures
        ({
            let slug = run.stage->First_account.slug;
            let (_, after, action) = attempted(run, pool, attempt, now);
            &&& action.clear == pin_key(run)
            &&& action.put is None
            &&& run.model.len() > 0 || !meaning(attempt)->tier_gate ==> router::pinned_account(
                after,
                slug,
                run.model,
                now,
            ) is None
        }),
{
}

/// A missing model does not count against the account as a whole.
pub proof fn law_missing_model_is_no_illness(
    run: RunView,
    pool: PoolView,
    status: u16,
    now: u128,
)
    requires
        run.stage is First || run.stage is Second,
        status == BAD_REQUEST,
    ensures
        attempted(
            run,
            pool,
            Attempt::Answered { status, tier_gate: true },
            now,
        ).1.cooling == pool.cooling,
{
}

/// A live pin is followed, and the turn of the others does not move.
pub proof fn law_live_pin_is_followed(
    run: RunView,
    pool: PoolView,
    slug: Seq<char>,
    now: u128,
)
    requires
        router::pinned_account(pool, slug, run.model, now) is Some,
    ensures
        ({
            let account = router::pinned_account(pool, slug, run.model, now)->Some_0;
            let (_, after, action) = chosen(run, pool, Some(slug), now);
            action.next == NextView::Send(account) && after == pool
        }),
{
}

/// A conversation stays where it was answered: the pin that a final response
/// leaves leads the next request of the conversation to the same account, as
/// long as that one is skipped neither as a whole nor for the model.
pub proof fn law_conversation_stays_on_its_account(
    run: RunView,
    pool: PoolView,
    account: AccountView,
    attempt: Attempt,
    now: u128,
    next_run: RunView,
    later: u128,
)
    requires
        router::well_formed(pool),
        pool.accounts.contains(account),
        match run.stage {
            StageView::First { account: a, source } => a == account,
            StageView::Second { first_slug, answered, account: a } => a == account,
            _ => false,
        },
        attempted(run, pool, attempt, now).2.put is Some,
        !router::is_cooling(pool, account.slug, later),
        !router::is_model_cooling(pool, account.slug, next_run.model, later),
    ensures
        ({
            let (_, after, action) = attempted(run, pool, attempt, now);
            let pin = action.put->Some_0.1;
            chosen(next_run, after, Some(pin.slug), later).2.next == NextView::Send(account)
        }),
{
    router::lemma_account_is_found(pool.accounts, account);
}

/// A request is never dropped for want of an account, whatever the store says.
pub proof fn law_request_is_sent(
    run: RunView,
    pool: PoolView,
    pinned_slug: Option<Seq<char>>,
    now: u128,
)
    requires
        pool.accounts.len() > 0,
    ensures
        chosen(run, pool, pinned_slug, now).2.next is Send,
{
}

} // verus!
