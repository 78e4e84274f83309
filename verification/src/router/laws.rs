//! What holds of a request on its way through the router.
//!
//! The laws speak of statuses, of points in time in nanoseconds, and of what a
//! pool holds: its accounts and the times until which they are left alone.
use super::proxy;
use super::proxy::ActionView;
use super::proxy::Attempt;
use super::proxy::NextView;
use super::proxy::RouteSource;
use super::proxy::RunView;
use super::proxy::StageView;
use super::proxy::Which;
use super::AccountErrorView;
use super::AccountView;
use super::PoolView;
use super::UrlView;
use crate::affinity::PinView;
use crate::conversation;
use crate::digest;
use crate::headers::HeaderView;
use crate::json;
use crate::json::JsonView;
use crate::router;
use crate::server::error::ApiErrorView;
use crate::text;
use vstd::prelude::*;
use vstd::utf8::encode_utf8;

verus! {

/// The account is left alone at this point in time.
pub open spec fn is_resting(p: PoolView, slug: Seq<char>, now: u128) -> bool {
    p.cooling.dom().contains(slug) && now < p.cooling[slug]
}

/// The account is not asked for this model at this point in time.
pub open spec fn lacks(p: PoolView, slug: Seq<char>, model: Seq<char>, now: u128) -> bool {
    model.len() > 0 && p.cooling_models.dom().contains((slug, model)) && now
        < p.cooling_models[(slug, model)]
}

/// The account is another one than `exclude` and may have the model.
pub open spec fn may_serve(
    p: PoolView,
    a: AccountView,
    exclude: Option<Seq<char>>,
    model: Seq<char>,
    now: u128,
) -> bool {
    exclude != Some(a.slug) && !lacks(p, a.slug, model, now)
}

/// The account whose turn comes `k` turns from now.
pub open spec fn turn(p: PoolView, k: int) -> AccountView {
    p.accounts[(p.next + k) % (p.accounts.len() as int)]
}

/// The first account in turn that will do is found.
proof fn lemma_first(
    p: PoolView,
    i: int,
    k: int,
    will_do: spec_fn(AccountView) -> bool,
)
    requires
        0 <= i <= k < p.accounts.len(),
        will_do(turn(p, k)),
        forall|j: int| i <= j < k ==> !will_do(#[trigger] turn(p, j)),
    ensures
        router::first_in_turn(p.accounts, p.next, i, will_do) == Some(turn(p, k)),
    decreases k - i,
{
    assert(turn(p, i) == router::in_turn(p.accounts, p.next, i));
    if i < k {
        assert(!will_do(turn(p, i)));
        lemma_first(p, i + 1, k, will_do);
    }
}

/// Where none will do, none is found.
proof fn lemma_none(p: PoolView, i: int, will_do: spec_fn(AccountView) -> bool)
    requires
        0 <= i,
        forall|j: int| i <= j < p.accounts.len() ==> !will_do(#[trigger] turn(p, j)),
    ensures
        router::first_in_turn(p.accounts, p.next, i, will_do) is None,
    decreases p.accounts.len() - i,
{
    if i < p.accounts.len() {
        assert(turn(p, i) == router::in_turn(p.accounts, p.next, i));
        assert(!will_do(turn(p, i)));
        lemma_none(p, i + 1, will_do);
    }
}

/// The account that is picked is the first in turn that may serve the model and
/// is not left alone.
pub proof fn law_next_free_account_is_picked(
    p: PoolView,
    exclude: Option<Seq<char>>,
    model: Seq<char>,
    now: u128,
    k: int,
)
    requires
        0 <= k < p.accounts.len(),
        may_serve(p, turn(p, k), exclude, model, now) && !is_resting(p, turn(p, k).slug, now),
        forall|j: int|
            0 <= j < k ==> !(may_serve(p, #[trigger] turn(p, j), exclude, model, now)
                && !is_resting(p, turn(p, j).slug, now)),
    ensures
        router::picked(p, exclude, model, now) == Some(turn(p, k)),
{
    lemma_first(p, 0, k, |a: AccountView| router::is_healthy(p, a, exclude, model, now));
}

/// Where every account that may serve the model is left alone, the first of
/// them in turn is picked all the same.
pub proof fn law_resting_account_is_better_than_none(
    p: PoolView,
    exclude: Option<Seq<char>>,
    model: Seq<char>,
    now: u128,
    k: int,
)
    requires
        0 <= k < p.accounts.len(),
        may_serve(p, turn(p, k), exclude, model, now),
        forall|j: int|
            0 <= j < p.accounts.len() ==> may_serve(
                p,
                #[trigger] turn(p, j),
                exclude,
                model,
                now,
            ) ==> is_resting(p, turn(p, j).slug, now),
        forall|j: int|
            0 <= j < k ==> !may_serve(p, #[trigger] turn(p, j), exclude, model, now),
    ensures
        router::picked(p, exclude, model, now) == Some(turn(p, k)),
{
    lemma_none(p, 0, |a: AccountView| router::is_healthy(p, a, exclude, model, now));
    lemma_first(p, 0, k, |a: AccountView| router::is_suitable(p, a, exclude, model, now));
}

/// Where no account may serve the model, the first of the pool is picked; an
/// empty pool has none. After every pick the next account has its turn.
pub proof fn law_some_account_is_picked(
    p: PoolView,
    exclude: Option<Seq<char>>,
    model: Seq<char>,
    now: u128,
)
    ensures
        p.accounts.len() == 0 ==> router::picked(p, exclude, model, now) is None,
        p.accounts.len() > 0 && (forall|j: int|
            0 <= j < p.accounts.len() ==> !may_serve(
                p,
                #[trigger] turn(p, j),
                exclude,
                model,
                now,
            )) ==> router::picked(p, exclude, model, now) == Some(p.accounts[0]),
        ({
            let after = router::after_pick(p);
            &&& after.accounts == p.accounts
            &&& after.cooling == p.cooling
            &&& after.cooling_models == p.cooling_models
            &&& after.started == p.started
            &&& p.accounts.len() > 0 && p.next < usize::MAX ==> after.next == p.next + 1
        }),
{
    if p.accounts.len() > 0 && (forall|j: int|
        0 <= j < p.accounts.len() ==> !may_serve(p, #[trigger] turn(p, j), exclude, model, now)) {
        lemma_none(p, 0, |a: AccountView| router::is_healthy(p, a, exclude, model, now));
        lemma_none(p, 0, |a: AccountView| router::is_suitable(p, a, exclude, model, now));
    }
}

/// An account that failed is left alone for a minute, for everything; nothing
/// else of the pool changes.
pub proof fn law_failed_account_rests_a_minute(p: PoolView, slug: Seq<char>, now: u128)
    requires
        now + 60_000_000_000 <= u128::MAX,
    ensures
        router::cooled(p, slug, now) == (PoolView {
            cooling: p.cooling.insert(slug, (now + 60_000_000_000) as u128),
            ..p
        }),
{
}

/// An account whose plan lacks a model is not asked for it for a minute, and
/// nothing else changes; without a model there is nothing to mark.
pub proof fn law_missing_model_rests_a_minute(
    p: PoolView,
    slug: Seq<char>,
    model: Seq<char>,
    now: u128,
)
    requires
        now + 60_000_000_000 <= u128::MAX,
    ensures
        router::model_cooled(p, slug, model, now) == (if model.len() == 0 {
            p
        } else {
            PoolView {
                cooling_models: p.cooling_models.insert(
                    (slug, model),
                    (now + 60_000_000_000) as u128,
                ),
                ..p
            }
        }),
{
}

/// A pin leads to its account where the pool has it, unless the account is left
/// alone as a whole or for the model.
pub proof fn law_pin_leads_to_its_account(
    p: PoolView,
    account: AccountView,
    model: Seq<char>,
    now: u128,
)
    requires
        router::well_formed(p),
        p.accounts.contains(account),
    ensures
        router::pinned_account(p, account.slug, model, now) == (if is_resting(p, account.slug, now)
            || lacks(p, account.slug, model, now) {
            None
        } else {
            Some(account)
        }),
{
    router::lemma_account_is_found(p.accounts, account);
}

/// A pin to an account that the pool does not have leads nowhere.
pub proof fn law_unknown_pin_leads_nowhere(
    p: PoolView,
    slug: Seq<char>,
    model: Seq<char>,
    now: u128,
)
    requires
        forall|i: int| 0 <= i < p.accounts.len() ==> (#[trigger] p.accounts[i]).slug != slug,
    ensures
        router::pinned_account(p, slug, model, now) is None,
{
    lemma_unknown(p.accounts, slug);
}

/// No account has this slug.
proof fn lemma_unknown(accounts: Seq<AccountView>, slug: Seq<char>)
    requires
        forall|i: int| 0 <= i < accounts.len() ==> (#[trigger] accounts[i]).slug != slug,
    ensures
        router::account_of(accounts, slug) is None,
    decreases accounts.len(),
{
    if accounts.len() > 0 {
        let rest = accounts.skip(1);
        assert forall|i: int| 0 <= i < rest.len() implies (#[trigger] rest[i]).slug != slug by {
            assert(rest[i] == accounts[i + 1]);
        }
        assert(accounts[0].slug != slug);
        lemma_unknown(rest, slug);
    }
}

/// A status that tells of trouble with the account: too many requests, or a
/// failure of the server.
pub open spec fn is_trouble(status: u16) -> bool {
    status == 429 || (500 <= status && status <= 599)
}

/// The key under which a run keeps a pin.
pub open spec fn kept_under(run: RunView) -> Option<Seq<char>> {
    if run.has_store {
        run.conversation_key
    } else {
        None
    }
}

/// What follows a first account in trouble: the account is marked, its pin is
/// dropped, none is put, and the request goes to another account that may serve
/// it, where the pool has one. Otherwise the client gets what there is.
pub open spec fn moves_on(
    run: RunView,
    account: AccountView,
    marked: PoolView,
    now: u128,
    step: (RunView, PoolView, ActionView),
    otherwise: NextView,
) -> bool {
    let (after, pool, action) = step;
    let others = exists|a: AccountView|
        marked.accounts.contains(a) && #[trigger] may_serve(
            marked,
            a,
            Some(account.slug),
            run.model,
            now,
        );
    &&& pool.accounts == marked.accounts
    &&& pool.cooling == marked.cooling
    &&& pool.cooling_models == marked.cooling_models
    &&& action.put is None
    &&& action.clear == kept_under(run)
    &&& others ==> (action.next matches NextView::Send(alt) && {
        &&& marked.accounts.contains(alt)
        &&& alt.slug != account.slug
        &&& !lacks(marked, alt.slug, run.model, now)
        &&& after.stage is Second
        &&& after.stage->Second_account == alt
        &&& after.stage->first_slug == account.slug
    })
    &&& !(action.next is Send) ==> action.next == otherwise && after.stage is Over
}

/// What is picked for a run that moves on.
proof fn lemma_moves_on(
    run: RunView,
    account: AccountView,
    source: RouteSource,
    pool: PoolView,
    attempt: Attempt,
    now: u128,
    marked: PoolView,
    answered: bool,
    tier_gate: bool,
)
    requires
        run.stage == (StageView::First { account, source }),
        proxy::meaning(attempt) == (proxy::Primary::Retry { answered, tier_gate }),
        marked == proxy::punished(pool, account.slug, run.model, tier_gate, now),
    ensures
        moves_on(
            run,
            account,
            marked,
            now,
            proxy::attempted(run, pool, attempt, now),
            if answered {
                NextView::Answer {
                    which: Which::First,
                    slug: account.slug,
                    source: RouteSource::Single,
                }
            } else {
                NextView::Fail(ApiErrorView::Internal("router: codex account unreachable"@))
            },
        ),
{
    if exists|a: AccountView|
        marked.accounts.contains(a) && #[trigger] may_serve(
            marked,
            a,
            Some(account.slug),
            run.model,
            now,
        ) {
        let a = choose|a: AccountView|
            marked.accounts.contains(a) && #[trigger] may_serve(
                marked,
                a,
                Some(account.slug),
                run.model,
                now,
            );
        router::law_pick_keeps_to_suitable_accounts(
            marked,
            Some(account.slug),
            run.model,
            now,
            a,
        );
        router::law_pick_finds_an_account(marked, Some(account.slug), run.model, now);
    }
}

/// A first answer that tells of trouble with the account is not final: the
/// account is left alone for a minute, no pin is put, and the request goes to
/// another account where one may serve it.
pub proof fn law_trouble_moves_the_request_on(
    run: RunView,
    account: AccountView,
    source: RouteSource,
    pool: PoolView,
    status: u16,
    tier_gate: bool,
    now: u128,
)
    requires
        run.stage == (StageView::First { account, source }),
        is_trouble(status),
        now + 60_000_000_000 <= u128::MAX,
    ensures
        moves_on(
            run,
            account,
            PoolView {
                cooling: pool.cooling.insert(account.slug, (now + 60_000_000_000) as u128),
                ..pool
            },
            now,
            proxy::attempted(run, pool, Attempt::Answered { status, tier_gate }, now),
            NextView::Answer {
                which: Which::First,
                slug: account.slug,
                source: RouteSource::Single,
            },
        ),
{
    let marked = PoolView {
        cooling: pool.cooling.insert(account.slug, (now + 60_000_000_000) as u128),
        ..pool
    };
    lemma_moves_on(
        run,
        account,
        source,
        pool,
        Attempt::Answered { status, tier_gate },
        now,
        marked,
        true,
        false,
    );
}

/// A first account that cannot be reached is in trouble too; where there is no
/// other, the client is told so.
pub proof fn law_unreachable_account_moves_the_request_on(
    run: RunView,
    account: AccountView,
    source: RouteSource,
    pool: PoolView,
    now: u128,
)
    requires
        run.stage == (StageView::First { account, source }),
        now + 60_000_000_000 <= u128::MAX,
    ensures
        moves_on(
            run,
            account,
            PoolView {
                cooling: pool.cooling.insert(account.slug, (now + 60_000_000_000) as u128),
                ..pool
            },
            now,
            proxy::attempted(run, pool, Attempt::Unreachable, now),
            NextView::Fail(ApiErrorView::Internal("router: codex account unreachable"@)),
        ),
{
    let marked = PoolView {
        cooling: pool.cooling.insert(account.slug, (now + 60_000_000_000) as u128),
        ..pool
    };
    lemma_moves_on(
        run,
        account,
        source,
        pool,
        Attempt::Unreachable,
        now,
        marked,
        false,
        false,
    );
}

/// A bad request because the account's plan lacks the model moves the request
/// on as well, but counts against the account for that model only.
pub proof fn law_missing_model_moves_the_request_on(
    run: RunView,
    account: AccountView,
    source: RouteSource,
    pool: PoolView,
    now: u128,
)
    requires
        run.stage == (StageView::First { account, source }),
        now + 60_000_000_000 <= u128::MAX,
        run.model.len() > 0,
    ensures
        moves_on(
            run,
            account,
            PoolView {
                cooling_models: pool.cooling_models.insert(
                    (account.slug, run.model),
                    (now + 60_000_000_000) as u128,
                ),
                ..pool
            },
            now,
            proxy::attempted(
                run,
                pool,
                Attempt::Answered { status: 400, tier_gate: true },
                now,
            ),
            NextView::Answer {
                which: Which::First,
                slug: account.slug,
                source: RouteSource::Single,
            },
        ),
{
    let marked = PoolView {
        cooling_models: pool.cooling_models.insert(
            (account.slug, run.model),
            (now + 60_000_000_000) as u128,
        ),
        ..pool
    };
    lemma_moves_on(
        run,
        account,
        source,
        pool,
        Attempt::Answered { status: 400, tier_gate: true },
        now,
        marked,
        true,
        true,
    );
}

/// An answer that is final, whatever it says: neither trouble with the account
/// nor a model that its plan lacks.
pub open spec fn is_final(status: u16, tier_gate: bool) -> bool {
    !is_trouble(status) && !(status == 400 && tier_gate)
}

/// The pin of a run's conversation to an account.
pub open spec fn pin_to(run: RunView, slug: Seq<char>) -> Option<(Seq<char>, PinView)> {
    match kept_under(run) {
        Some(k) => Some((k, PinView { slug, model: run.model })),
        None => None,
    }
}

/// A first answer that is final goes to the client and ends the run. It leaves
/// the pool as it is and pins the conversation to the account, where pins are
/// kept.
pub proof fn law_final_answer_goes_to_the_client(
    run: RunView,
    account: AccountView,
    source: RouteSource,
    pool: PoolView,
    status: u16,
    tier_gate: bool,
    now: u128,
)
    requires
        run.stage == (StageView::First { account, source }),
        is_final(status, tier_gate),
    ensures
        ({
            let (after, left, action) = proxy::attempted(
                run,
                pool,
                Attempt::Answered { status, tier_gate },
                now,
            );
            &&& after.stage is Over
            &&& left == pool
            &&& action.clear is None
            &&& action.put == (if source is Fallback {
                None
            } else {
                pin_to(run, account.slug)
            })
            &&& action.next == (NextView::Answer {
                which: Which::First,
                slug: account.slug,
                source,
            })
        }),
{
}

/// A second answer goes to the client whatever it says. A final one pins the
/// conversation to the second account; one that tells of trouble marks that
/// account and pins nothing.
pub proof fn law_second_answer_goes_to_the_client(
    run: RunView,
    first_slug: Seq<char>,
    answered: bool,
    account: AccountView,
    pool: PoolView,
    status: u16,
    tier_gate: bool,
    now: u128,
)
    requires
        run.stage == (StageView::Second { first_slug, answered, account }),
        now + 60_000_000_000 <= u128::MAX,
    ensures
        ({
            let (after, left, action) = proxy::attempted(
                run,
                pool,
                Attempt::Answered { status, tier_gate },
                now,
            );
            &&& after.stage is Over
            &&& action.clear is None
            &&& action.next == (NextView::Answer {
                which: Which::Second,
                slug: account.slug,
                source: if is_final(status, tier_gate) {
                    RouteSource::Repinned
                } else {
                    RouteSource::RepinFailed
                },
            })
            &&& action.put == (if is_final(status, tier_gate) {
                pin_to(run, account.slug)
            } else {
                None
            })
            &&& is_final(status, tier_gate) ==> left == pool
            &&& is_trouble(status) ==> left == (PoolView {
                cooling: pool.cooling.insert(account.slug, (now + 60_000_000_000) as u128),
                ..pool
            })
            &&& status == 400 && tier_gate && run.model.len() > 0 ==> left == (PoolView {
                cooling_models: pool.cooling_models.insert(
                    (account.slug, run.model),
                    (now + 60_000_000_000) as u128,
                ),
                ..pool
            })
        }),
{
}

/// Where the second account cannot be reached, the client gets the answer of the
/// first, if there was one, and else an error. The pool stays as it is.
pub proof fn law_unreachable_second_account(
    run: RunView,
    first_slug: Seq<char>,
    answered: bool,
    account: AccountView,
    pool: PoolView,
    now: u128,
)
    requires
        run.stage == (StageView::Second { first_slug, answered, account }),
    ensures
        ({
            let (after, left, action) = proxy::attempted(run, pool, Attempt::Unreachable, now);
            &&& after.stage is Over
            &&& left == pool
            &&& action.clear is None
            &&& action.put is None
            &&& action.next == (if answered {
                NextView::Answer {
                    which: Which::First,
                    slug: first_slug,
                    source: RouteSource::RepinFailed,
                }
            } else {
                NextView::Fail(ApiErrorView::Internal("router: all codex accounts unreachable"@))
            })
        }),
{
}

/// A request goes first to the account of its pin, where that can be used, and
/// else to the account that is picked. Nothing is pinned or dropped yet.
pub proof fn law_first_account(
    run: RunView,
    pool: PoolView,
    pinned_slug: Option<Seq<char>>,
    now: u128,
)
    requires
        pool.accounts.len() > 0,
    ensures
        ({
            let (after, left, action) = proxy::chosen(run, pool, pinned_slug, now);
            let live = match pinned_slug {
                Some(s) => router::pinned_account(pool, s, run.model, now),
                None => None,
            };
            &&& action.clear is None
            &&& action.put is None
            &&& match live {
                Some(a) => {
                    &&& action.next == NextView::Send(a)
                    &&& left == pool
                    &&& after.stage == (StageView::First {
                        account: a,
                        source: RouteSource::Pinned,
                    })
                },
                None => router::picked(pool, None, run.model, now) matches Some(a) && {
                    &&& action.next == NextView::Send(a)
                    &&& left == router::after_pick(pool)
                    &&& after.stage == (StageView::First {
                        account: a,
                        source: if run.has_store {
                            RouteSource::New
                        } else {
                            RouteSource::Fallback
                        },
                    })
                },
            }
            &&& after.conversation_key == run.conversation_key
            &&& after.model == run.model
            &&& after.has_store == run.has_store
        }),
{
    router::law_pick_finds_an_account(pool, None, run.model, now);
}

/// A request is taken in only with a pool, a key for the pods and a body that is
/// JSON; it belongs to the conversation that it names or begins, and asks for
/// the model of its body.
pub proof fn law_request_is_taken_in(
    has_pool: bool,
    has_admin_key: bool,
    has_store: bool,
    h: Seq<HeaderView>,
    parsed: Result<JsonView, Seq<char>>,
)
    ensures
        match proxy::opened(has_pool, has_admin_key, has_store, h, parsed) {
            Ok(run) => {
                &&& has_pool && has_admin_key && parsed is Ok
                &&& run.stage is Lookup
                &&& run.has_store == has_store
                &&& run.model == (match json::text_field(parsed->Ok_0, "model"@) {
                    Some(m) => m,
                    None => Seq::empty(),
                })
                &&& match conversation::conversation_key(h, parsed->Ok_0) {
                    Some((k, _)) => run.conversation_key == Some(k) && run.fingerprint
                        == digest::text_uuid(k),
                    None => run.conversation_key is None && run.fingerprint.len() == 0,
                }
            },
            Err(e) => {
                &&& !has_pool ==> e == ApiErrorView::Internal(
                    "router mode: no account pool configured"@,
                )
                &&& has_pool && !has_admin_key ==> e == ApiErrorView::AdminNotConfigured
                &&& has_pool && has_admin_key ==> parsed is Err && e == ApiErrorView::BadRequest(
                    "Failed to parse request body"@,
                )
            },
        },
{
}

/// The first value of a header that a request has.
pub open spec fn value_of(h: Seq<HeaderView>, name: Seq<char>) -> Option<Seq<u8>> {
    let all = h.filter(|x: HeaderView| x.name == name);
    if all.len() > 0 {
        Some(all[0].value)
    } else {
        None
    }
}

/// The first value of a header is that of the first header with its name.
pub proof fn lemma_value_of(h: Seq<HeaderView>, name: Seq<char>)
    ensures
        crate::headers::first_value(h, name) == value_of(h, name),
    decreases h.len(),
{
    let f = |x: HeaderView| x.name == name;
    if h.len() > 0 {
        lemma_value_of(h.skip(1), name);
        lemma_filter_head(h, f);
    } else {
        reveal(Seq::filter);
    }
}

/// The first item is kept first, or not at all.
proof fn lemma_filter_head(s: Seq<HeaderView>, f: spec_fn(HeaderView) -> bool)
    requires
        s.len() > 0,
    ensures
        s.filter(f) == (if f(s[0]) {
            seq![s[0]] + s.skip(1).filter(f)
        } else {
            s.skip(1).filter(f)
        }),
    decreases s.len(),
{
    reveal(Seq::filter);
    let want = if f(s[0]) {
        seq![s[0]] + s.skip(1).filter(f)
    } else {
        s.skip(1).filter(f)
    };
    if s.len() == 1 {
        assert(s.skip(1) =~= Seq::empty());
        assert(s.drop_last() =~= Seq::empty());
        assert(s.filter(f) =~= want);
    } else {
        lemma_filter_head(s.drop_last(), f);
        assert(s.drop_last().skip(1) =~= s.skip(1).drop_last());
        assert(s.skip(1).last() == s.last());
        assert(s.filter(f) =~= want);
    }
}

/// A pod gets the key that the pods share and the trace of the request, and
/// nothing else of what the client sent: neither its key nor its cookies.
pub proof fn law_pod_gets_its_own_headers(bearer: Seq<char>, inbound: Seq<HeaderView>)
    ensures
        ({
            let out = proxy::pod_header_list(bearer, inbound);
            &&& value_of(out, "authorization"@) == Some(encode_utf8("Bearer "@ + bearer))
            &&& value_of(out, "content-type"@) == Some(encode_utf8("application/json"@))
            &&& value_of(out, "traceparent"@) == value_of(inbound, "traceparent"@)
            &&& value_of(out, "tracestate"@) == value_of(inbound, "tracestate"@)
            &&& forall|i: int|
                0 <= i < out.len() ==> (#[trigger] out[i]).name == "authorization"@
                    || out[i].name == "content-type"@ || out[i].name == "traceparent"@
                    || out[i].name == "tracestate"@
        }),
{
    reveal_strlit("authorization");
    reveal_strlit("content-type");
    reveal_strlit("traceparent");
    reveal_strlit("tracestate");
    assert("authorization"@.len() == 13);
    assert("content-type"@.len() == 12);
    assert("traceparent"@.len() == 11);
    assert("tracestate"@.len() == 10);
    let out = proxy::pod_header_list(bearer, inbound);
    let names = seq!["traceparent"@, "tracestate"@];
    assert(names.drop_last() =~= seq!["traceparent"@]);
    assert(seq!["traceparent"@].drop_last() =~= Seq::<Seq<char>>::empty());
    reveal_with_fuel(proxy::forwarded, 3);
    lemma_value_of(out, "authorization"@);
    lemma_value_of(out, "content-type"@);
    lemma_value_of(out, "traceparent"@);
    lemma_value_of(out, "tracestate"@);
    lemma_value_of(inbound, "traceparent"@);
    lemma_value_of(inbound, "tracestate"@);
    reveal_with_fuel(crate::headers::first_value, 5);
    assert(out.skip(1).skip(1) =~= out.skip(2));
    assert(out.skip(1)[0] == out[1]);
    if out.len() > 2 {
        assert(out.skip(1).skip(1).skip(1) =~= out.skip(3));
        assert(out.skip(2)[0] == out[2]);
    }
    if out.len() > 3 {
        assert(out.skip(3)[0] == out[3]);
    }
}

/// The account that an entry `slug=url` names: both without white space around
/// them, the url without slashes at its end.
pub open spec fn named_account(slug: Seq<char>, url: Seq<char>) -> AccountView {
    AccountView { slug: text::trimmed(slug), url: text::without_last(text::trimmed(url), '/') }
}

/// A url that has nothing behind its host.
pub open spec fn is_bare(p: UrlView) -> bool {
    p.path == "/"@ && p.query is None && p.fragment is None
}

/// The web's two schemes.
pub open spec fn is_web(scheme: Seq<char>) -> bool {
    scheme == "http"@ || scheme == "https"@
}

/// A blank entry of a list is skipped.
pub proof fn law_blank_entry_is_skipped(accounts: Seq<AccountView>, raw: Seq<char>)
    requires
        text::trimmed(raw).len() == 0,
    ensures
        router::with_entry(accounts, raw) == Ok::<Seq<AccountView>, AccountErrorView>(accounts),
{
}

/// An entry is taken in after the others where it names a slug and a bare web
/// url, and neither is taken yet; otherwise it is refused, and the error tells
/// what is wrong with it.
pub proof fn law_entry_is_taken_in(
    accounts: Seq<AccountView>,
    raw: Seq<char>,
    slug: Seq<char>,
    url: Seq<char>,
)
    requires
        !slug.contains('='),
        text::trimmed(raw) == slug + seq!['='] + url,
    ensures
        ({
            let a = named_account(slug, url);
            let entry = text::trimmed(raw);
            let after = router::with_entry(accounts, raw);
            if a.slug.len() == 0 || a.url.len() == 0 {
                after == Err::<Seq<AccountView>, AccountErrorView>(
                    AccountErrorView::EmptyPart(entry),
                )
            } else {
                match router::url_parts(a.url) {
                    Err(message) => after == Err::<Seq<AccountView>, AccountErrorView>(
                        AccountErrorView::BadUrl { message, entry },
                    ),
                    Ok(p) => {
                        &&& !is_web(p.scheme) ==> after == Err::<
                            Seq<AccountView>,
                            AccountErrorView,
                        >(AccountErrorView::BadScheme { scheme: p.scheme, entry })
                        &&& is_web(p.scheme) && !is_bare(p) ==> after == Err::<
                            Seq<AccountView>,
                            AccountErrorView,
                        >(AccountErrorView::NotOrigin(entry))
                        &&& is_web(p.scheme) && is_bare(p) ==> {
                            &&& after is Ok <==> forall|i: int|
                                0 <= i < accounts.len() ==> (#[trigger] accounts[i]).slug != a.slug
                                    && accounts[i].url != a.url
                            &&& after matches Ok(more) ==> more == accounts.push(a)
                            &&& after matches Err(e) ==> e == AccountErrorView::DuplicateSlug(
                                a.slug,
                            ) || e == AccountErrorView::DuplicateUrl(a.url)
                        }
                    },
                }
            }
        }),
{
    text::laws::law_split_at_a_separator(slug, url, '=');
}

/// An entry without `=` is refused.
pub proof fn law_entry_without_url_is_refused(accounts: Seq<AccountView>, raw: Seq<char>)
    requires
        text::trimmed(raw).len() > 0,
        !text::trimmed(raw).contains('='),
    ensures
        router::with_entry(accounts, raw) == Err::<Seq<AccountView>, AccountErrorView>(
            AccountErrorView::NotSlugUrl(text::trimmed(raw)),
        ),
{
    text::laws::law_split_at_a_separator(text::trimmed(raw), Seq::empty(), '=');
}

/// Entries are taken in one after the other, and the first that is refused ends
/// it.
pub proof fn law_entries_are_taken_in_turn(
    accounts: Seq<AccountView>,
    entries: Seq<Seq<char>>,
    raw: Seq<char>,
)
    ensures
        router::with_entries(accounts, Seq::empty()) == Ok::<Seq<AccountView>, AccountErrorView>(
            accounts,
        ),
        router::with_entries(accounts, entries.push(raw)) == (match router::with_entries(
            accounts,
            entries,
        ) {
            Ok(more) => router::with_entry(more, raw),
            Err(e) => Err(e),
        }),
    decreases entries.len(),
{
    let all = entries.push(raw);
    if entries.len() == 0 {
        reveal_with_fuel(router::with_entries, 2);
        assert(all.skip(1) =~= Seq::<Seq<char>>::empty());
    } else {
        assert(all.skip(1) =~= entries.skip(1).push(raw));
        match router::with_entry(accounts, entries[0]) {
            Ok(more) => {
                law_entries_are_taken_in_turn(more, entries.skip(1), raw);
            },
            Err(_) => {},
        }
    }
}

/// A list is its entries between commas, and names at least one account.
pub proof fn law_list_names_accounts(list: Seq<char>)
    ensures
        match router::with_entries(Seq::empty(), text::split(list, ',')) {
            Err(e) => router::listed(list) == Err::<Seq<AccountView>, AccountErrorView>(e),
            Ok(accounts) => if accounts.len() > 0 {
                router::listed(list) == Ok::<Seq<AccountView>, AccountErrorView>(accounts)
            } else {
                router::listed(list) == Err::<Seq<AccountView>, AccountErrorView>(
                    AccountErrorView::NoAccounts,
                )
            },
        },
{
}

/// An error of a list tells the entry and what is wrong with it.
pub proof fn law_list_error_is_told(t: Seq<char>, entry: Seq<char>)
    ensures
        router::error_text(AccountErrorView::NotSlugUrl(entry))
            == "invalid account entry (want slug=url): "@ + entry,
        router::error_text(AccountErrorView::EmptyPart(entry))
            == "invalid account entry (empty slug or url): "@ + entry,
        router::error_text(AccountErrorView::BadUrl { message: t, entry })
            == "invalid account url ("@ + t + "): "@ + entry,
        router::error_text(AccountErrorView::BadScheme { scheme: t, entry })
            == "account url scheme must be http/https, got "@ + t + ": "@ + entry,
        router::error_text(AccountErrorView::NotOrigin(entry))
            == "account url must be a bare origin (no path/query/fragment): "@ + entry,
        router::error_text(AccountErrorView::DuplicateSlug(t)) == "duplicate account slug: "@ + t,
        router::error_text(AccountErrorView::NoAccounts)
            == "CODEX_PROXY_ACCOUNTS must list at least one slug=url account"@,
{
}

/// A pick moves the turn on by one account, from the last number to zero, and
/// changes nothing else; a pool without accounts stays as it is.
pub proof fn law_pick_moves_the_turn_on(p: PoolView)
    ensures
        p.accounts.len() == 0 ==> router::after_pick(p) == p,
        p.accounts.len() > 0 && p.next < usize::MAX ==> router::after_pick(p) == (PoolView {
            next: (p.next + 1) as usize,
            ..p
        }),
        p.accounts.len() > 0 && p.next == usize::MAX ==> router::after_pick(p) == (PoolView {
            next: 0,
            ..p
        }),
{
}

} // verus!
