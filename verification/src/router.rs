//! Routing over several accounts.
//!
//! Each account has a pod of its own that serves it. A new conversation gets
//! the next healthy account in turn; an account that fails is left alone for a
//! while, and one whose plan lacks a model is left alone for that model only.
pub mod laws;
pub mod proxy;

use crate::text;
use std::time::{Duration, Instant};
use vstd::hash_map::StringHashMap;
use vstd::prelude::*;

verus! {

/// How long an account is skipped after it failed, in nanoseconds.
pub const COOLDOWN: u128 = 60_000_000_000;

/// An account and the pod that serves it.
#[derive(Debug)]
pub struct Account {
    pub slug: String,
    /// The origin of the account's pod, without a slash at its end.
    pub url: String,
}

/// An account in mathematical form.
pub struct AccountView {
    pub slug: Seq<char>,
    pub url: Seq<char>,
}

impl Account {
    /// The account in mathematical form.
    pub open spec fn view(&self) -> AccountView {
        AccountView { slug: self.slug@, url: self.url@ }
    }
}

impl Clone for Account {
    fn clone(&self) -> (r: Self)
        ensures
            r@ == self@,
    {
        Account { slug: self.slug.as_str().to_owned(), url: self.url.as_str().to_owned() }
    }
}

/// Accounts in mathematical form.
pub open spec fn account_views(v: Seq<Account>) -> Seq<AccountView> {
    v.map_values(|a: Account| a@)
}

/// Why a list of accounts is not accepted.
#[derive(Debug)]
pub enum AccountError {
    /// An entry has no `=`.
    NotSlugUrl(String),
    /// An entry has an empty slug or url.
    EmptyPart(String),
    /// The url of an entry is none; with the message of the parser.
    BadUrl { message: String, entry: String },
    /// The url of an entry is not http or https.
    BadScheme { scheme: String, entry: String },
    /// The url of an entry is more than an origin.
    NotOrigin(String),
    /// Two entries have one slug, which a pin could not tell apart.
    DuplicateSlug(String),
    /// Two entries have one pod, and failing over would reach it again.
    DuplicateUrl(String),
    /// There are no entries.
    NoAccounts,
}

/// An error in mathematical form.
pub enum AccountErrorView {
    NotSlugUrl(Seq<char>),
    EmptyPart(Seq<char>),
    BadUrl { message: Seq<char>, entry: Seq<char> },
    BadScheme { scheme: Seq<char>, entry: Seq<char> },
    NotOrigin(Seq<char>),
    DuplicateSlug(Seq<char>),
    DuplicateUrl(Seq<char>),
    NoAccounts,
}

/// The message of an error.
pub open spec fn error_text(e: AccountErrorView) -> Seq<char> {
    match e {
        AccountErrorView::NotSlugUrl(entry) => {
            "invalid account entry (want slug=url): "@ + entry
        },
        AccountErrorView::EmptyPart(entry) => {
            "invalid account entry (empty slug or url): "@ + entry
        },
        AccountErrorView::BadUrl { message, entry } => {
            "invalid account url ("@ + message + "): "@ + entry
        },
        AccountErrorView::BadScheme { scheme, entry } => {
            "account url scheme must be http/https, got "@ + scheme + ": "@ + entry
        },
        AccountErrorView::NotOrigin(entry) => {
            "account url must be a bare origin (no path/query/fragment): "@ + entry
        },
        AccountErrorView::DuplicateSlug(slug) => "duplicate account slug: "@ + slug,
        AccountErrorView::DuplicateUrl(url) => {
            "duplicate account url ("@ + url + ") — slugs must point at distinct pods"@
        },
        AccountErrorView::NoAccounts => {
            "CODEX_PROXY_ACCOUNTS must list at least one slug=url account"@
        },
    }
}

/// Two texts in a row.
fn concat(a: &str, b: &str) -> (r: String)
    ensures
        r@ == a@ + b@,
{
    let mut out: String = a.to_owned();
    out.append(b);
    out
}

impl AccountError {
    /// The error in mathematical form.
    pub open spec fn view(&self) -> AccountErrorView {
        match self {
            AccountError::NotSlugUrl(e) => AccountErrorView::NotSlugUrl(e@),
            AccountError::EmptyPart(e) => AccountErrorView::EmptyPart(e@),
            AccountError::BadUrl { message, entry } => AccountErrorView::BadUrl {
                message: message@,
                entry: entry@,
            },
            AccountError::BadScheme { scheme, entry } => AccountErrorView::BadScheme {
                scheme: scheme@,
                entry: entry@,
            },
            AccountError::NotOrigin(e) => AccountErrorView::NotOrigin(e@),
            AccountError::DuplicateSlug(s) => AccountErrorView::DuplicateSlug(s@),
            AccountError::DuplicateUrl(u) => AccountErrorView::DuplicateUrl(u@),
            AccountError::NoAccounts => AccountErrorView::NoAccounts,
        }
    }

    /// The message of the error.
    pub fn message(&self) -> (r: String)
        ensures
            r@ == error_text(self@),
    {
        match self {
            AccountError::NotSlugUrl(e) => {
                concat("invalid account entry (want slug=url): ", e.as_str())
            },
            AccountError::EmptyPart(e) => {
                concat("invalid account entry (empty slug or url): ", e.as_str())
            },
            AccountError::BadUrl { message, entry } => {
                let mut out = concat("invalid account url (", message.as_str());
                out.append("): ");
                out.append(entry.as_str());
                out
            },
            AccountError::BadScheme { scheme, entry } => {
                let mut out = concat(
                    "account url scheme must be http/https, got ",
                    scheme.as_str(),
                );
                out.append(": ");
                out.append(entry.as_str());
                out
            },
            AccountError::NotOrigin(e) => {
                concat(
                    "account url must be a bare origin (no path/query/fragment): ",
                    e.as_str(),
                )
            },
            AccountError::DuplicateSlug(s) => concat("duplicate account slug: ", s.as_str()),
            AccountError::DuplicateUrl(u) => {
                let mut out = concat("duplicate account url (", u.as_str());
                out.append(") — slugs must point at distinct pods");
                out
            },
            AccountError::NoAccounts => {
                "CODEX_PROXY_ACCOUNTS must list at least one slug=url account".to_owned()
            },
        }
    }
}

/// The parts of a url that decide whether it is an origin.
#[derive(Debug)]
pub struct UrlParts {
    pub scheme: String,
    pub path: String,
    pub query: Option<String>,
    pub fragment: Option<String>,
}

/// Those parts in mathematical form.
pub struct UrlView {
    pub scheme: Seq<char>,
    pub path: Seq<char>,
    pub query: Option<Seq<char>>,
    pub fragment: Option<Seq<char>>,
}

/// The text of an optional string.
pub open spec fn optional(s: Option<String>) -> Option<Seq<char>> {
    match s {
        Some(t) => Some(t@),
        None => None,
    }
}

impl UrlParts {
    /// The parts in mathematical form.
    pub open spec fn view(&self) -> UrlView {
        UrlView {
            scheme: self.scheme@,
            path: self.path@,
            query: optional(self.query),
            fragment: optional(self.fragment),
        }
    }
}

/// What `Url::parse` makes of a text: its scheme, path, query and fragment, or
/// the message of its error.
pub uninterp spec fn url_parts(s: Seq<char>) -> Result<UrlView, Seq<char>>;

/// What a parser made of a text, in mathematical form.
pub open spec fn parts_view(r: Result<UrlParts, String>) -> Result<UrlView, Seq<char>> {
    match r {
        Ok(p) => Ok(p@),
        Err(m) => Err(m@),
    }
}

/// `reqwest::Url::parse`: the scheme, path, query and fragment that the parsed
/// url shows, or the text of the error. They depend on the text alone.
#[verifier::external_body]
fn parse_url(s: &str) -> (r: Result<UrlParts, String>)
    ensures
        parts_view(r) == url_parts(s@),
{
    match reqwest::Url::parse(s) {
        Ok(u) => Ok(UrlParts {
            scheme: u.scheme().to_string(),
            path: u.path().to_string(),
            query: u.query().map(|q| q.to_string()),
            fragment: u.fragment().map(|f| f.to_string()),
        }),
        Err(e) => Err(e.to_string()),
    }
}

/// A url that is nothing but an http or https origin.
pub open spec fn is_origin(p: UrlView) -> bool {
    &&& p.scheme == "http"@ || p.scheme == "https"@
    &&& p.path == "/"@
    &&& p.query is None
    &&& p.fragment is None
}

/// Some account has this slug.
pub open spec fn has_slug(accounts: Seq<AccountView>, slug: Seq<char>) -> bool {
    exists|i: int| 0 <= i < accounts.len() && (#[trigger] accounts[i]).slug == slug
}

/// Some account has this url.
pub open spec fn has_url(accounts: Seq<AccountView>, url: Seq<char>) -> bool {
    exists|i: int| 0 <= i < accounts.len() && (#[trigger] accounts[i]).url == url
}

/// Why an account is not taken in after others; `None` where it is. The url is
/// to be an origin, for the path of a request is appended to it.
pub open spec fn refusal(
    accounts: Seq<AccountView>,
    entry: Seq<char>,
    account: AccountView,
    parts: Result<UrlView, Seq<char>>,
) -> Option<AccountErrorView> {
    match parts {
        Err(message) => Some(AccountErrorView::BadUrl { message, entry }),
        Ok(p) => if p.scheme != "http"@ && p.scheme != "https"@ {
            Some(AccountErrorView::BadScheme { scheme: p.scheme, entry })
        } else if !is_origin(p) {
            Some(AccountErrorView::NotOrigin(entry))
        } else if has_slug(accounts, account.slug) {
            Some(AccountErrorView::DuplicateSlug(account.slug))
        } else if has_url(accounts, account.url) {
            Some(AccountErrorView::DuplicateUrl(account.url))
        } else {
            None
        },
    }
}

/// The slug and url of an entry, or why it has none.
pub open spec fn entry_account(entry: Seq<char>) -> Result<AccountView, AccountErrorView> {
    match text::split_first(entry, '=') {
        None => Err(AccountErrorView::NotSlugUrl(entry)),
        Some((s, u)) => {
            let slug = text::trimmed(s);
            let url = text::without_last(text::trimmed(u), '/');
            if slug.len() == 0 || url.len() == 0 {
                Err(AccountErrorView::EmptyPart(entry))
            } else {
                Ok(AccountView { slug, url })
            }
        },
    }
}

/// The accounts once an entry was taken in. A blank entry is skipped.
pub open spec fn with_entry(accounts: Seq<AccountView>, raw: Seq<char>) -> Result<
    Seq<AccountView>,
    AccountErrorView,
> {
    let entry = text::trimmed(raw);
    if entry.len() == 0 {
        Ok(accounts)
    } else {
        match entry_account(entry) {
            Err(e) => Err(e),
            Ok(a) => match refusal(accounts, entry, a, url_parts(a.url)) {
                Some(e) => Err(e),
                None => Ok(accounts.push(a)),
            },
        }
    }
}

/// The accounts once all entries were taken in; the first error ends it.
pub open spec fn with_entries(accounts: Seq<AccountView>, entries: Seq<Seq<char>>) -> Result<
    Seq<AccountView>,
    AccountErrorView,
>
    decreases entries.len(),
{
    if entries.len() == 0 {
        Ok(accounts)
    } else {
        match with_entry(accounts, entries[0]) {
            Err(e) => Err(e),
            Ok(more) => with_entries(more, entries.skip(1)),
        }
    }
}

/// The accounts of a list `slug=url,slug=url`, or why it is not accepted.
pub open spec fn listed(spec_text: Seq<char>) -> Result<Seq<AccountView>, AccountErrorView> {
    match with_entries(Seq::empty(), text::split(spec_text, ',')) {
        Err(e) => Err(e),
        Ok(accounts) => if accounts.len() == 0 {
            Err(AccountErrorView::NoAccounts)
        } else {
            Ok(accounts)
        },
    }
}

/// Whether some account has this slug.
fn slug_is_taken(accounts: &Vec<Account>, slug: &str) -> (r: bool)
    ensures
        r == has_slug(account_views(accounts@), slug@),
{
    let ghost views = account_views(accounts@);
    let mut i: usize = 0;
    while i < accounts.len()
        invariant
            i <= accounts@.len(),
            views == account_views(accounts@),
            forall|j: int| 0 <= j < i ==> (#[trigger] views[j]).slug != slug@,
        decreases accounts@.len() - i,
    {
        if text::same(accounts[i].slug.as_str(), slug) {
            proof {
                assert(views[i as int].slug == slug@);
            }
            return true;
        }
        i += 1;
    }
    false
}

/// Whether some account has this url.
fn url_is_taken(accounts: &Vec<Account>, url: &str) -> (r: bool)
    ensures
        r == has_url(account_views(accounts@), url@),
{
    let ghost views = account_views(accounts@);
    let mut i: usize = 0;
    while i < accounts.len()
        invariant
            i <= accounts@.len(),
            views == account_views(accounts@),
            forall|j: int| 0 <= j < i ==> (#[trigger] views[j]).url != url@,
        decreases accounts@.len() - i,
    {
        if text::same(accounts[i].url.as_str(), url) {
            proof {
                assert(views[i as int].url == url@);
            }
            return true;
        }
        i += 1;
    }
    false
}

/// An optional error in mathematical form.
pub open spec fn optional_error(e: Option<AccountError>) -> Option<AccountErrorView> {
    match e {
        Some(x) => Some(x@),
        None => None,
    }
}

/// Why an account is not taken in after others, given the parts of its url.
pub fn refuse(
    accounts: &Vec<Account>,
    entry: &str,
    account: &Account,
    parts: Result<UrlParts, String>,
) -> (r: Option<AccountError>)
    ensures
        optional_error(r) == refusal(
            account_views(accounts@),
            entry@,
            account@,
            parts_view(parts),
        ),
{
    match parts {
        Err(message) => Some(AccountError::BadUrl { message, entry: entry.to_owned() }),
        Ok(p) => {
            if !text::same(p.scheme.as_str(), "http") && !text::same(p.scheme.as_str(), "https") {
                return Some(AccountError::BadScheme { scheme: p.scheme, entry: entry.to_owned() });
            }
            let bare: bool = text::same(p.path.as_str(), "/") && p.query.is_none()
                && p.fragment.is_none();
            if !bare {
                Some(AccountError::NotOrigin(entry.to_owned()))
            } else if slug_is_taken(accounts, account.slug.as_str()) {
                Some(AccountError::DuplicateSlug(account.slug.as_str().to_owned()))
            } else if url_is_taken(accounts, account.url.as_str()) {
                Some(AccountError::DuplicateUrl(account.url.as_str().to_owned()))
            } else {
                None
            }
        },
    }
}

/// The slug and url of an entry, or why it has none.
fn read_entry(entry: &str) -> (r: Result<Account, AccountError>)
    ensures
        match r {
            Ok(a) => entry_account(entry@) == Ok::<AccountView, AccountErrorView>(a@),
            Err(e) => entry_account(entry@) == Err::<AccountView, AccountErrorView>(e@),
        },
{
    match text::split_once(entry, '=') {
        None => Err(AccountError::NotSlugUrl(entry.to_owned())),
        Some((s, u)) => {
            let slug = text::trim(s.as_str());
            let url = text::trim_end_of(text::trim(u.as_str()).as_str(), '/');
            if slug.as_str().is_empty() || url.as_str().is_empty() {
                Err(AccountError::EmptyPart(entry.to_owned()))
            } else {
                Ok(Account { slug, url })
            }
        },
    }
}

/// What accounts are listed, in mathematical form.
pub open spec fn listed_view(r: Result<Vec<Account>, AccountError>) -> Result<
    Seq<AccountView>,
    AccountErrorView,
> {
    match r {
        Ok(v) => Ok(account_views(v@)),
        Err(e) => Err(e@),
    }
}

/// The accounts of a list.
fn read_accounts(spec_text: &str) -> (r: Result<Vec<Account>, AccountError>)
    ensures
        listed_view(r) == listed(spec_text@),
{
    let entries: Vec<String> = text::split_on(spec_text, ',');
    let mut accounts: Vec<Account> = Vec::new();
    let ghost all = text::views(entries@);
    let mut i: usize = 0;
    proof {
        assert(account_views(accounts@) =~= Seq::empty());
        assert(all.skip(0) =~= all);
    }
    while i < entries.len()
        invariant
            i <= entries@.len(),
            all == text::views(entries@),
            all == text::split(spec_text@, ','),
            with_entries(Seq::empty(), all) == with_entries(
                account_views(accounts@),
                all.skip(i as int),
            ),
        decreases entries@.len() - i,
    {
        let entry = text::trim(entries[i].as_str());
        let ghost before = account_views(accounts@);
        proof {
            assert(all.skip(i as int)[0] == entries@[i as int]@);
            assert(all.skip(i as int).skip(1) =~= all.skip(i + 1));
        }
        i += 1;
        if entry.as_str().is_empty() {
            continue ;
        }
        let account: Account = match read_entry(entry.as_str()) {
            Ok(a) => a,
            Err(e) => {
                return Err(e);
            },
        };
        match refuse(&accounts, entry.as_str(), &account, parse_url(account.url.as_str())) {
            Some(e) => {
                return Err(e);
            },
            None => {},
        }
        let ghost new = account@;
        accounts.push(account);
        proof {
            assert(account_views(accounts@) =~= before.push(new));
        }
    }
    if accounts.len() == 0 {
        return Err(AccountError::NoAccounts);
    }
    Ok(accounts)
}

/// `std::time::Instant`.
#[verifier::external_type_specification]
#[verifier::external_body]
pub struct ExInstant(Instant);

/// The nanoseconds of a duration, as `Duration::as_nanos` gives them.
pub uninterp spec fn duration_nanos(d: Duration) -> u128;

/// `Instant::now`: the present, of which nothing can be said.
pub assume_specification[ Instant::now ]() -> Instant
;

/// The nanoseconds from one instant to another, as
/// `Instant::saturating_duration_since` gives the time; zero where the second
/// is the earlier one.
pub uninterp spec fn nanos_between(earlier: Instant, later: Instant) -> u128;

/// `Instant::saturating_duration_since`: the time from the other instant to
/// this one. It depends on the two instants alone.
pub assume_specification[ Instant::saturating_duration_since ](
    later: &Instant,
    earlier: Instant,
) -> (r: Duration)
    ensures
        duration_nanos(r) == nanos_between(earlier, *later),
;

/// `Duration::as_nanos`: the nanoseconds of the duration.
pub assume_specification[ Duration::as_nanos ](d: &Duration) -> (r: u128)
    ensures
        r == duration_nanos(*d),
;

/// A point in time as a pool counts it: the nanoseconds from the instant at
/// which the pool was made to another.
pub open spec fn is_moment(started: Instant, now: u128) -> bool {
    exists|t: Instant| now == #[trigger] nanos_between(started, t)
}

/// Until when a model is not asked of an account.
#[derive(Debug)]
pub struct ModelCooldown {
    pub slug: String,
    pub model: String,
    pub until: u128,
}

/// The account and model that a cooldown is about.
pub open spec fn pair(c: ModelCooldown) -> (Seq<char>, Seq<char>) {
    (c.slug@, c.model@)
}

/// The cooldowns by account and model. A later one replaces an earlier one.
pub open spec fn model_cooldowns(s: Seq<ModelCooldown>) -> Map<(Seq<char>, Seq<char>), u128>
    decreases s.len(),
{
    if s.len() == 0 {
        Map::empty()
    } else {
        model_cooldowns(s.drop_last()).insert(pair(s.last()), s.last().until)
    }
}

/// The accounts that requests can go to, with what is known of their health.
/// Points in time are nanoseconds since the pool was made.
pub struct AccountPool {
    pub accounts: Vec<Account>,
    /// The turn of the next pick.
    pub next: usize,
    /// Until when an account is skipped.
    pub cooldown_until: StringHashMap<u128>,
    /// Until when a model is not asked of an account. That an account's plan
    /// lacks a model says nothing of its other models.
    pub model_cooldown_until: Vec<ModelCooldown>,
    /// When the pool was made.
    pub started: Instant,
}

/// A pool in mathematical form.
pub struct PoolView {
    pub accounts: Seq<AccountView>,
    pub next: usize,
    pub cooling: Map<Seq<char>, u128>,
    pub cooling_models: Map<(Seq<char>, Seq<char>), u128>,
    /// The instant from which all points in time are counted.
    pub started: Instant,
}

/// A pool of accounts that can be told apart by slug and by pod.
pub open spec fn well_formed(p: PoolView) -> bool {
    &&& p.accounts.len() > 0
    &&& forall|i: int|
        0 <= i < p.accounts.len() ==> (#[trigger] p.accounts[i]).slug.len() > 0
            && p.accounts[i].url.len() > 0
    &&& forall|i: int, j: int|
        0 <= i < j < p.accounts.len() ==> (#[trigger] p.accounts[i]).slug != (
        #[trigger] p.accounts[j]).slug && p.accounts[i].url != p.accounts[j].url
}

/// The pool of these accounts, all healthy, made at an instant.
pub open spec fn fresh_pool(accounts: Seq<AccountView>, started: Instant) -> PoolView {
    PoolView { accounts, next: 0, cooling: Map::empty(), cooling_models: Map::empty(), started }
}

/// Whether an account is skipped at a point in time.
pub open spec fn is_cooling(p: PoolView, slug: Seq<char>, now: u128) -> bool {
    p.cooling.dom().contains(slug) && p.cooling[slug] > now
}

/// Whether a model is not asked of an account at a point in time.
pub open spec fn is_model_cooling(
    p: PoolView,
    slug: Seq<char>,
    model: Seq<char>,
    now: u128,
) -> bool {
    &&& model.len() > 0
    &&& p.cooling_models.dom().contains((slug, model))
    &&& p.cooling_models[(slug, model)] > now
}

/// When a cooldown ends that starts now.
pub open spec fn cooldown_end(now: u128) -> u128 {
    if now + COOLDOWN > u128::MAX {
        u128::MAX
    } else {
        (now + COOLDOWN) as u128
    }
}

/// The pool once an account failed.
pub open spec fn cooled(p: PoolView, slug: Seq<char>, now: u128) -> PoolView {
    PoolView { cooling: p.cooling.insert(slug, cooldown_end(now)), ..p }
}

/// The pool once an account turned out to lack a model.
pub open spec fn model_cooled(
    p: PoolView,
    slug: Seq<char>,
    model: Seq<char>,
    now: u128,
) -> PoolView {
    if model.len() == 0 {
        p
    } else {
        PoolView {
            cooling_models: p.cooling_models.insert((slug, model), cooldown_end(now)),
            ..p
        }
    }
}

/// The first account with this slug.
pub open spec fn account_of(accounts: Seq<AccountView>, slug: Seq<char>) -> Option<AccountView>
    decreases accounts.len(),
{
    if accounts.len() == 0 {
        None
    } else if accounts[0].slug == slug {
        Some(accounts[0])
    } else {
        account_of(accounts.skip(1), slug)
    }
}

/// The account of a pin: known, and skipped neither as a whole nor for the
/// model.
pub open spec fn pinned_account(
    p: PoolView,
    slug: Seq<char>,
    model: Seq<char>,
    now: u128,
) -> Option<AccountView> {
    if is_cooling(p, slug, now) || is_model_cooling(p, slug, model, now) {
        None
    } else {
        account_of(p.accounts, slug)
    }
}

/// The account whose turn it is after `i` others.
pub open spec fn in_turn(accounts: Seq<AccountView>, start: usize, i: int) -> AccountView
    recommends
        accounts.len() > 0,
{
    accounts[(start + i) % (accounts.len() as int)]
}

/// The first account that will do, from the `i`th turn on, in one round.
pub open spec fn first_in_turn(
    accounts: Seq<AccountView>,
    start: usize,
    i: int,
    will_do: spec_fn(AccountView) -> bool,
) -> Option<AccountView>
    decreases accounts.len() - i,
{
    if i >= accounts.len() {
        None
    } else if will_do(in_turn(accounts, start, i)) {
        Some(in_turn(accounts, start, i))
    } else {
        first_in_turn(accounts, start, i + 1, will_do)
    }
}

/// An account that may have the model and is not excluded.
pub open spec fn is_suitable(
    p: PoolView,
    a: AccountView,
    exclude: Option<Seq<char>>,
    model: Seq<char>,
    now: u128,
) -> bool {
    exclude != Some(a.slug) && !is_model_cooling(p, a.slug, model, now)
}

/// A suitable account that is not skipped.
pub open spec fn is_healthy(
    p: PoolView,
    a: AccountView,
    exclude: Option<Seq<char>>,
    model: Seq<char>,
    now: u128,
) -> bool {
    is_suitable(p, a, exclude, model, now) && !is_cooling(p, a.slug, now)
}

/// The account that is picked: the next healthy one in turn, else the next
/// suitable one, else the first of all. Only an empty pool has none.
pub open spec fn picked(
    p: PoolView,
    exclude: Option<Seq<char>>,
    model: Seq<char>,
    now: u128,
) -> Option<AccountView> {
    if p.accounts.len() == 0 {
        None
    } else {
        match first_in_turn(
            p.accounts,
            p.next,
            0,
            |a: AccountView| is_healthy(p, a, exclude, model, now),
        ) {
            Some(a) => Some(a),
            None => match first_in_turn(
                p.accounts,
                p.next,
                0,
                |a: AccountView| is_suitable(p, a, exclude, model, now),
            ) {
                Some(a) => Some(a),
                None => Some(p.accounts[0]),
            },
        }
    }
}

/// The pool after a pick: the turn moves on.
pub open spec fn after_pick(p: PoolView) -> PoolView {
    if p.accounts.len() == 0 {
        p
    } else {
        PoolView {
            next: if p.next == usize::MAX {
                0
            } else {
                (p.next + 1) as usize
            },
            ..p
        }
    }
}

/// The text of an optional string slice.
pub open spec fn excluded(s: Option<&str>) -> Option<Seq<char>> {
    match s {
        Some(t) => Some(t@),
        None => None,
    }
}

/// An optional account in mathematical form.
pub open spec fn optional_account(a: Option<Account>) -> Option<AccountView> {
    match a {
        Some(x) => Some(x@),
        None => None,
    }
}

/// Cooldowns none of which is about a pair have none for it.
proof fn lemma_cooldowns_absent(s: Seq<ModelCooldown>, key: (Seq<char>, Seq<char>))
    requires
        forall|i: int| 0 <= i < s.len() ==> pair(#[trigger] s[i]) != key,
    ensures
        !model_cooldowns(s).dom().contains(key),
    decreases s.len(),
{
    if s.len() > 0 {
        lemma_cooldowns_absent(s.drop_last(), key);
        assert(pair(s[s.len() - 1]) != key);
    }
}

/// Cooldowns one of which is the only one about a pair show that one.
proof fn lemma_cooldown_found(s: Seq<ModelCooldown>, key: (Seq<char>, Seq<char>), k: int)
    requires
        0 <= k < s.len(),
        pair(s[k]) == key,
        forall|i: int| k < i < s.len() ==> pair(#[trigger] s[i]) != key,
    ensures
        model_cooldowns(s).dom().contains(key),
        model_cooldowns(s)[key] == s[k].until,
    decreases s.len(),
{
    if k < s.len() - 1 {
        assert(pair(s[s.len() - 1]) != key);
        lemma_cooldown_found(s.drop_last(), key, k);
    }
}

impl AccountPool {
    /// The pool in mathematical form.
    pub open spec fn view(&self) -> PoolView {
        PoolView {
            accounts: account_views(self.accounts@),
            next: self.next,
            cooling: self.cooldown_until@,
            cooling_models: model_cooldowns(self.model_cooldown_until@),
            started: self.started,
        }
    }

    /// The pool of a list `slug=url,slug=url`. Spaces around the parts and
    /// slashes at the end of a url do not count.
    pub fn parse(spec_text: &str) -> (r: Result<Self, AccountError>)
        ensures
            match r {
                Ok(p) => listed(spec_text@) matches Ok(accounts) && p@ == fresh_pool(
                    accounts,
                    p@.started,
                ) && well_formed(p@),
                Err(e) => listed(spec_text@) == Err::<Seq<AccountView>, AccountErrorView>(e@),
            },
    {
        match read_accounts(spec_text) {
            Ok(accounts) => {
                let p = AccountPool {
                    accounts,
                    next: 0,
                    cooldown_until: StringHashMap::new(),
                    model_cooldown_until: Vec::new(),
                    started: Instant::now(),
                };
                proof {
                    law_listed_accounts_are_distinct(spec_text@, p.started);
                }
                Ok(p)
            },
            Err(e) => Err(e),
        }
    }

    /// How many accounts there are.
    pub fn len(&self) -> (r: usize)
        ensures
            r == self@.accounts.len(),
    {
        self.accounts.len()
    }

    /// Whether there are none.
    pub fn is_empty(&self) -> (r: bool)
        ensures
            r == (self@.accounts.len() == 0),
    {
        self.accounts.len() == 0
    }

    /// The present moment: the nanoseconds of the time since the pool was made.
    fn now(&self) -> (r: u128)
        ensures
            is_moment(self.started, r),
    {
        let t: Instant = Instant::now();
        let passed: Duration = t.saturating_duration_since(self.started);
        passed.as_nanos()
    }

    /// Whether an account is skipped.
    fn is_cooling(&self, slug: &str, now: u128) -> (r: bool)
        ensures
            r == is_cooling(self@, slug@, now),
    {
        match self.cooldown_until.get(slug) {
            Some(until) => *until > now,
            None => false,
        }
    }

    /// Whether a model is not asked of an account.
    fn is_model_cooling(&self, slug: &str, model: &str, now: u128) -> (r: bool)
        ensures
            r == is_model_cooling(self@, slug@, model@, now),
    {
        if model.is_empty() {
            return false;
        }
        let ghost list = self.model_cooldown_until@;
        let mut i: usize = self.model_cooldown_until.len();
        while i > 0
            invariant
                i <= list.len(),
                list == self.model_cooldown_until@,
                model@.len() > 0,
                forall|j: int| i <= j < list.len() ==> pair(#[trigger] list[j]) != (slug@, model@),
            decreases i,
        {
            let c = &self.model_cooldown_until[i - 1];
            if text::same(c.slug.as_str(), slug) && text::same(c.model.as_str(), model) {
                proof {
                    lemma_cooldown_found(list, (slug@, model@), i - 1);
                }
                return c.until > now;
            }
            i -= 1;
        }
        proof {
            lemma_cooldowns_absent(list, (slug@, model@));
        }
        false
    }

    /// Skips an account for a while, as it failed just now.
    pub fn cooldown_at(&mut self, slug: &str, now: u128)
        ensures
            final(self)@ == cooled(old(self)@, slug@, now),
    {
        self.cooldown_until.insert(slug.to_owned(), now.saturating_add(COOLDOWN));
    }

    /// Skips an account for a while, as it failed at the present moment.
    pub fn cooldown(&mut self, slug: &str)
        ensures
            exists|now: u128|
                is_moment(old(self)@.started, now) && final(self)@ == #[trigger] cooled(old(self)@, slug@, now),
    {
        let now: u128 = self.now();
        self.cooldown_at(slug, now);
    }

    /// Stops asking an account for a model for a while. Without a model there
    /// is nothing to stop.
    pub fn cooldown_model_at(&mut self, slug: &str, model: &str, now: u128)
        ensures
            final(self)@ == model_cooled(old(self)@, slug@, model@, now),
    {
        if model.is_empty() {
            return ;
        }
        let ghost key = (slug@, model@);
        let ghost whole = self@;
        let mut kept: Vec<ModelCooldown> = Vec::new();
        let mut old: Vec<ModelCooldown> = Vec::new();
        std::mem::swap(&mut old, &mut self.model_cooldown_until);
        let ghost list = old@;
        proof {
            assert(list.take(0) =~= Seq::empty());
            assert(model_cooldowns(kept@) =~= model_cooldowns(list.take(0)).remove(key));
        }
        for c in it: old
            invariant
                it.seq() == list,
                key == (slug@, model@),
                model_cooldowns(kept@) == model_cooldowns(list.take(it.index() as int)).remove(key),
        {
            let ghost k = it.index() as int;
            let ghost before = kept@;
            proof {
                assert(c == list[k]);
                assert(list.take(k + 1).drop_last() =~= list.take(k));
                assert(list.take(k + 1).last() == c);
            }
            if !(text::same(c.slug.as_str(), slug) && text::same(c.model.as_str(), model)) {
                let ghost item = c;
                kept.push(c);
                proof {
                    assert(kept@.drop_last() =~= before);
                    assert(pair(item) != key);
                    assert(model_cooldowns(kept@) =~= model_cooldowns(list.take(k + 1)).remove(
                        key,
                    ));
                }
            } else {
                proof {
                    assert(model_cooldowns(kept@) =~= model_cooldowns(list.take(k + 1)).remove(
                        key,
                    ));
                }
            }
        }
        let ghost before = kept@;
        proof {
            assert(list.take(list.len() as int) =~= list);
        }
        kept.push(
            ModelCooldown {
                slug: slug.to_owned(),
                model: model.to_owned(),
                until: now.saturating_add(COOLDOWN),
            },
        );
        proof {
            assert(kept@.drop_last() =~= before);
            assert(model_cooldowns(kept@) =~= whole.cooling_models.insert(
                key,
                cooldown_end(now),
            ));
        }
        self.model_cooldown_until = kept;
    }

    /// Stops asking an account for a model for a while from the present moment
    /// on.
    pub fn cooldown_model(&mut self, slug: &str, model: &str)
        ensures
            exists|now: u128|
                is_moment(old(self)@.started, now) && final(self)@ == #[trigger] model_cooled(
                    old(self)@,
                    slug@,
                    model@,
                    now,
                ),
    {
        let now: u128 = self.now();
        self.cooldown_model_at(slug, model, now);
    }

    /// The account of a pin, where it can be used now.
    pub fn pinned_at(&self, slug: &str, model: &str, now: u128) -> (r: Option<Account>)
        ensures
            optional_account(r) == pinned_account(self@, slug@, model@, now),
    {
        if self.is_cooling(slug, now) || self.is_model_cooling(slug, model, now) {
            return None;
        }
        let ghost all = account_views(self.accounts@);
        let mut i: usize = 0;
        proof {
            assert(all.skip(0) =~= all);
        }
        while i < self.accounts.len()
            invariant
                i <= self.accounts@.len(),
                all == account_views(self.accounts@),
                !is_cooling(self@, slug@, now),
                !is_model_cooling(self@, slug@, model@, now),
                account_of(all, slug@) == account_of(all.skip(i as int), slug@),
            decreases self.accounts@.len() - i,
        {
            proof {
                assert(all.skip(i as int)[0] == self.accounts@[i as int]@);
                assert(all.skip(i as int).skip(1) =~= all.skip(i + 1));
            }
            if text::same(self.accounts[i].slug.as_str(), slug) {
                return Some(self.accounts[i].clone());
            }
            i += 1;
        }
        None
    }

    /// The account of a pin, where it can be used at the present moment.
    pub fn pinned(&self, slug: &str, model: &str) -> (r: Option<Account>)
        ensures
            exists|now: u128|
                is_moment(self@.started, now) && optional_account(r) == #[trigger] pinned_account(
                    self@,
                    slug@,
                    model@,
                    now,
                ),
    {
        let now: u128 = self.now();
        self.pinned_at(slug, model, now)
    }

    /// Whether an account may have the model and is not excluded, and, where
    /// that counts, is not skipped.
    fn will_do(
        &self,
        i: usize,
        exclude: Option<&str>,
        model: &str,
        now: u128,
        skip_cooling: bool,
    ) -> (r: bool)
        requires
            i < self@.accounts.len(),
        ensures
            r == (if skip_cooling {
                is_healthy(self@, self@.accounts[i as int], excluded(exclude), model@, now)
            } else {
                is_suitable(self@, self@.accounts[i as int], excluded(exclude), model@, now)
            }),
    {
        let slug = self.accounts[i].slug.as_str();
        let is_excluded: bool = match exclude {
            Some(e) => text::same(e, slug),
            None => false,
        };
        !is_excluded && !(skip_cooling && self.is_cooling(slug, now)) && !self.is_model_cooling(
            slug,
            model,
            now,
        )
    }

    /// The first account in turn that will do, in one round.
    fn first_that_will_do(
        &self,
        start: usize,
        exclude: Option<&str>,
        model: &str,
        now: u128,
        skip_cooling: bool,
    ) -> (r: Option<usize>)
        requires
            self@.accounts.len() > 0,
        ensures
            ({
                let found = first_in_turn(
                    self@.accounts,
                    start,
                    0,
                    if skip_cooling {
                        |a: AccountView| is_healthy(self@, a, excluded(exclude), model@, now)
                    } else {
                        |a: AccountView| is_suitable(self@, a, excluded(exclude), model@, now)
                    },
                );
                match r {
                    Some(i) => i < self@.accounts.len() && found == Some(
                        self@.accounts[i as int],
                    ),
                    None => found is None,
                }
            }),
    {
        let n: usize = self.accounts.len();
        let ghost accounts = self@.accounts;
        let ghost test = if skip_cooling {
            |a: AccountView| is_healthy(self@, a, excluded(exclude), model@, now)
        } else {
            |a: AccountView| is_suitable(self@, a, excluded(exclude), model@, now)
        };
        let mut i: usize = 0;
        let mut at: usize = start % n;
        while i < n
            invariant
                n == accounts.len(),
                n > 0,
                accounts == self@.accounts,
                i <= n,
                at < n,
                at == (start + i) % (n as int),
                test == (if skip_cooling {
                    |a: AccountView| is_healthy(self@, a, excluded(exclude), model@, now)
                } else {
                    |a: AccountView| is_suitable(self@, a, excluded(exclude), model@, now)
                }),
                first_in_turn(accounts, start, 0, test) == first_in_turn(
                    accounts,
                    start,
                    i as int,
                    test,
                ),
            decreases n - i,
        {
            if self.will_do(at, exclude, model, now, skip_cooling) {
                return Some(at);
            }
            proof {
                lemma_next_turn(start as int, i as int, n as int);
            }
            i += 1;
            at = if at + 1 == n {
                0
            } else {
                at + 1
            };
        }
        None
    }

    /// Picks an account for a conversation.
    pub fn pick_at(&mut self, exclude: Option<&str>, model: &str, now: u128) -> (r: Option<
        Account,
    >)
        ensures
            optional_account(r) == picked(old(self)@, excluded(exclude), model@, now),
            final(self)@ == after_pick(old(self)@),
    {
        if self.accounts.len() == 0 {
            return None;
        }
        let start: usize = self.next;
        let found: usize = match self.first_that_will_do(start, exclude, model, now, true) {
            Some(i) => i,
            None => match self.first_that_will_do(start, exclude, model, now, false) {
                Some(i) => i,
                None => 0,
            },
        };
        self.next = if start == usize::MAX {
            0
        } else {
            start + 1
        };
        Some(self.accounts[found].clone())
    }

    /// Picks an account for a conversation at the present moment.
    pub fn pick(&mut self, exclude: Option<&str>, model: &str) -> (r: Option<Account>)
        ensures
            exists|now: u128|
                is_moment(old(self)@.started, now) && optional_account(r) == #[trigger] picked(
                    old(self)@,
                    excluded(exclude),
                    model@,
                    now,
                ),
            final(self)@ == after_pick(old(self)@),
    {
        let now: u128 = self.now();
        self.pick_at(exclude, model, now)
    }
}

/// The place of the next turn.
proof fn lemma_next_turn(start: int, i: int, n: int)
    requires
        n > 0,
        start >= 0,
        i >= 0,
    ensures
        (start + i + 1) % n == (if (start + i) % n + 1 == n {
            0
        } else {
            (start + i) % n + 1
        }),
{
    let m = start + i;
    vstd::arithmetic::div_mod::lemma_fundamental_div_mod(m, n);
    let q = m / n;
    let r = m % n;
    if r + 1 == n {
        assert(m + 1 == (q + 1) * n) by (nonlinear_arith)
            requires
                m == n * q + r,
                r + 1 == n,
        ;
        vstd::arithmetic::div_mod::lemma_fundamental_div_mod_converse(m + 1, n, q + 1, 0);
    } else {
        assert(m + 1 == q * n + (r + 1)) by (nonlinear_arith)
            requires
                m == n * q + r,
        ;
        vstd::arithmetic::div_mod::lemma_fundamental_div_mod_converse(m + 1, n, q, r + 1);
    }
}

/// What holds of the accounts that were taken in so far.
spec fn taken_in(accounts: Seq<AccountView>) -> bool {
    &&& forall|i: int|
        0 <= i < accounts.len() ==> (#[trigger] accounts[i]).slug.len() > 0
            && accounts[i].url.len() > 0 && (url_parts(accounts[i].url) matches Ok(p) && is_origin(
            p,
        ))
    &&& forall|i: int, j: int|
        0 <= i < j < accounts.len() ==> (#[trigger] accounts[i]).slug != (
        #[trigger] accounts[j]).slug && accounts[i].url != accounts[j].url
}

/// One more entry keeps what holds of the accounts.
proof fn lemma_taken_in_entry(accounts: Seq<AccountView>, raw: Seq<char>)
    requires
        taken_in(accounts),
        with_entry(accounts, raw) is Ok,
    ensures
        taken_in(with_entry(accounts, raw)->Ok_0),
{
    let entry = text::trimmed(raw);
    if entry.len() > 0 {
        let a = entry_account(entry)->Ok_0;
        let more = accounts.push(a);
        assert(with_entry(accounts, raw)->Ok_0 == more);
        assert forall|i: int, j: int| 0 <= i < j < more.len() implies (#[trigger] more[i]).slug
            != (#[trigger] more[j]).slug && more[i].url != more[j].url by {
            assert(more[i] == accounts[i]);
            if j < accounts.len() {
                assert(more[j] == accounts[j]);
            }
        }
    }
}

/// More entries keep what holds of the accounts.
proof fn lemma_taken_in(accounts: Seq<AccountView>, entries: Seq<Seq<char>>)
    requires
        taken_in(accounts),
        with_entries(accounts, entries) is Ok,
    ensures
        taken_in(with_entries(accounts, entries)->Ok_0),
    decreases entries.len(),
{
    if entries.len() > 0 {
        lemma_taken_in_entry(accounts, entries[0]);
        lemma_taken_in(with_entry(accounts, entries[0])->Ok_0, entries.skip(1));
    }
}

/// The accounts of a list have slugs and pods of their own, and each pod is an
/// http or https origin.
pub proof fn law_listed_accounts_are_distinct(spec_text: Seq<char>, started: Instant)
    ensures
        listed(spec_text) matches Ok(accounts) ==> well_formed(fresh_pool(accounts, started))
            && forall|i: int|
            0 <= i < accounts.len() ==> (url_parts((#[trigger] accounts[i]).url) matches Ok(p)
                && is_origin(p)),
{
    if listed(spec_text) is Ok {
        lemma_taken_in(Seq::empty(), text::split(spec_text, ','));
    }
}

/// Of accounts with slugs of their own, each is found by its slug.
pub(crate) proof fn lemma_account_is_found(accounts: Seq<AccountView>, account: AccountView)
    requires
        accounts.contains(account),
        forall|i: int, j: int|
            0 <= i < j < accounts.len() ==> (#[trigger] accounts[i]).slug != (
            #[trigger] accounts[j]).slug,
    ensures
        account_of(accounts, account.slug) == Some(account),
    decreases accounts.len(),
{
    let k = accounts.index_of(account);
    if k > 0 {
        let rest = accounts.skip(1);
        assert(accounts[0].slug != accounts[k].slug);
        assert(rest[k - 1] == account);
        assert forall|i: int, j: int| 0 <= i < j < rest.len() implies (#[trigger] rest[i]).slug != (
        #[trigger] rest[j]).slug by {
            assert(rest[i] == accounts[i + 1]);
            assert(rest[j] == accounts[j + 1]);
        }
        lemma_account_is_found(rest, account);
    }
}

/// An account that failed is no pin until a minute has passed, and then is what
/// it would have been.
pub proof fn law_failed_account_is_no_pin(
    p: PoolView,
    slug: Seq<char>,
    model: Seq<char>,
    now: u128,
    later: u128,
)
    requires
        now + COOLDOWN <= u128::MAX,
    ensures
        later < now + COOLDOWN ==> pinned_account(cooled(p, slug, now), slug, model, later) is None,
        later >= now + COOLDOWN ==> !is_cooling(cooled(p, slug, now), slug, later),
        later >= now + COOLDOWN && !is_cooling(p, slug, later) ==> pinned_account(
            cooled(p, slug, now),
            slug,
            model,
            later,
        ) == pinned_account(p, slug, model, later),
{
}

/// A cooldown lasts a minute by the clock: it is counted from the instant of
/// the failure, and leaves the pool's own origin and accounts as they are.
pub proof fn law_cooldown_lasts_a_minute(
    p: PoolView,
    slug: Seq<char>,
    model: Seq<char>,
    failed: Instant,
    later: Instant,
)
    requires
        nanos_between(p.started, failed) + COOLDOWN <= u128::MAX,
    ensures
        ({
            let q = cooled(p, slug, nanos_between(p.started, failed));
            let passed = nanos_between(q.started, later) - nanos_between(q.started, failed);
            &&& q.started == p.started && q.accounts == p.accounts
            &&& passed < COOLDOWN ==> pinned_account(
                q,
                slug,
                model,
                nanos_between(q.started, later),
            ) is None
            &&& passed >= COOLDOWN ==> !is_cooling(q, slug, nanos_between(q.started, later))
        }),
{
}

/// An account that failed changes nothing for the others.
pub proof fn law_other_accounts_stay_pins(
    p: PoolView,
    slug: Seq<char>,
    other: Seq<char>,
    model: Seq<char>,
    now: u128,
    later: u128,
)
    requires
        other != slug,
    ensures
        pinned_account(cooled(p, slug, now), other, model, later) == pinned_account(
            p,
            other,
            model,
            later,
        ),
{
}

/// An account that lacks a model stays what it is for every other one.
pub proof fn law_other_models_stay_pins(
    p: PoolView,
    slug: Seq<char>,
    model: Seq<char>,
    other: Seq<char>,
    now: u128,
    later: u128,
)
    requires
        other != model,
    ensures
        pinned_account(model_cooled(p, slug, model, now), slug, other, later) == pinned_account(
            p,
            slug,
            other,
            later,
        ),
{
}

/// An account that lacks a model is no pin for it until a minute has passed.
pub proof fn law_lacking_account_is_no_pin(
    p: PoolView,
    slug: Seq<char>,
    model: Seq<char>,
    now: u128,
    later: u128,
)
    requires
        model.len() > 0,
        later < now + COOLDOWN <= u128::MAX,
    ensures
        pinned_account(model_cooled(p, slug, model, now), slug, model, later) is None,
{
}

/// What is found in turn is an account that will do.
proof fn lemma_found_in_turn(
    accounts: Seq<AccountView>,
    start: usize,
    i: int,
    will_do: spec_fn(AccountView) -> bool,
)
    requires
        0 <= i,
        accounts.len() > 0,
    ensures
        first_in_turn(accounts, start, i, will_do) matches Some(a) ==> will_do(a)
            && accounts.contains(a),
    decreases accounts.len() - i,
{
    if i < accounts.len() {
        let at = (start + i) % (accounts.len() as int);
        assert(0 <= at < accounts.len());
        assert(accounts.contains(accounts[at]));
        lemma_found_in_turn(accounts, start, i + 1, will_do);
    }
}

/// Nothing is found in turn only where no account will do.
proof fn lemma_none_in_turn(
    accounts: Seq<AccountView>,
    start: usize,
    i: int,
    k: int,
    will_do: spec_fn(AccountView) -> bool,
)
    requires
        0 <= i <= k < accounts.len(),
        first_in_turn(accounts, start, i, will_do) is None,
    ensures
        !will_do(in_turn(accounts, start, k)),
    decreases k - i,
{
    if i < k {
        lemma_none_in_turn(accounts, start, i + 1, k, will_do);
    }
}

/// Every account has its turn in a round.
proof fn lemma_turn_of(start: int, j: int, n: int) -> (k: int)
    requires
        0 <= j < n,
        start >= 0,
    ensures
        0 <= k < n,
        (start + k) % n == j,
{
    let r = start % n;
    vstd::arithmetic::div_mod::lemma_fundamental_div_mod(start, n);
    let q = start / n;
    if r <= j {
        let k = j - r;
        assert(start + k == q * n + j) by (nonlinear_arith)
            requires
                start == n * q + r,
                k == j - r,
        ;
        vstd::arithmetic::div_mod::lemma_fundamental_div_mod_converse(start + k, n, q, j);
        k
    } else {
        let k = j - r + n;
        assert(start + k == (q + 1) * n + j) by (nonlinear_arith)
            requires
                start == n * q + r,
                k == j - r + n,
        ;
        vstd::arithmetic::div_mod::lemma_fundamental_div_mod_converse(start + k, n, q + 1, j);
        k
    }
}

/// An account that will do is found by someone's turn at the latest.
proof fn lemma_some_in_turn(
    accounts: Seq<AccountView>,
    start: usize,
    a: AccountView,
    will_do: spec_fn(AccountView) -> bool,
)
    requires
        accounts.contains(a),
        will_do(a),
    ensures
        first_in_turn(accounts, start, 0, will_do) is Some,
{
    let j = choose|j: int| 0 <= j < accounts.len() && accounts[j] == a;
    let k = lemma_turn_of(start as int, j, accounts.len() as int);
    if first_in_turn(accounts, start, 0, will_do) is None {
        lemma_none_in_turn(accounts, start, 0, k, will_do);
    }
}

/// A request is never dropped for want of an account: a pool that has one
/// picks one of its own.
pub proof fn law_pick_finds_an_account(
    p: PoolView,
    exclude: Option<Seq<char>>,
    model: Seq<char>,
    now: u128,
)
    requires
        p.accounts.len() > 0,
    ensures
        picked(p, exclude, model, now) matches Some(a) && p.accounts.contains(a),
{
    lemma_found_in_turn(
        p.accounts,
        p.next,
        0,
        |a: AccountView| is_healthy(p, a, exclude, model, now),
    );
    lemma_found_in_turn(
        p.accounts,
        p.next,
        0,
        |a: AccountView| is_suitable(p, a, exclude, model, now),
    );
    assert(p.accounts.contains(p.accounts[0]));
}

/// Where some account is healthy, a healthy one is picked.
pub proof fn law_pick_prefers_healthy_accounts(
    p: PoolView,
    exclude: Option<Seq<char>>,
    model: Seq<char>,
    now: u128,
    healthy: AccountView,
)
    requires
        p.accounts.contains(healthy),
        is_healthy(p, healthy, exclude, model, now),
    ensures
        picked(p, exclude, model, now) matches Some(a) && is_healthy(p, a, exclude, model, now),
{
    let test = |a: AccountView| is_healthy(p, a, exclude, model, now);
    lemma_some_in_turn(p.accounts, p.next, healthy, test);
    lemma_found_in_turn(p.accounts, p.next, 0, test);
}

/// Where some account may have the model and is not excluded, no other kind of
/// account is picked: a cooldown is ignored before a missing model is.
pub proof fn law_pick_keeps_to_suitable_accounts(
    p: PoolView,
    exclude: Option<Seq<char>>,
    model: Seq<char>,
    now: u128,
    suitable: AccountView,
)
    requires
        p.accounts.contains(suitable),
        is_suitable(p, suitable, exclude, model, now),
    ensures
        picked(p, exclude, model, now) matches Some(a) && is_suitable(p, a, exclude, model, now),
{
    let healthy = |a: AccountView| is_healthy(p, a, exclude, model, now);
    let test = |a: AccountView| is_suitable(p, a, exclude, model, now);
    lemma_some_in_turn(p.accounts, p.next, suitable, test);
    lemma_found_in_turn(p.accounts, p.next, 0, healthy);
    lemma_found_in_turn(p.accounts, p.next, 0, test);
}

/// While all accounts are healthy, picks go round: each takes the account
/// whose turn it is.
pub proof fn law_healthy_accounts_take_turns(p: PoolView, model: Seq<char>, now: u128)
    requires
        p.accounts.len() > 0,
        forall|i: int|
            0 <= i < p.accounts.len() ==> is_healthy(
                p,
                #[trigger] p.accounts[i],
                None,
                model,
                now,
            ),
    ensures
        picked(p, None, model, now) == Some(in_turn(p.accounts, p.next, 0)),
{
    let at = (p.next + 0) % (p.accounts.len() as int);
    assert(0 <= at < p.accounts.len());
    assert(is_healthy(p, p.accounts[at], None, model, now));
}

/// The pool after a number of picks.
pub open spec fn after_picks(p: PoolView, n: nat) -> PoolView
    decreases n,
{
    if n == 0 {
        p
    } else {
        after_pick(after_picks(p, (n - 1) as nat))
    }
}

/// Picks move nothing but the turn.
proof fn lemma_after_picks(p: PoolView, n: nat)
    requires
        p.accounts.len() > 0,
        p.next + n <= usize::MAX,
    ensures
        after_picks(p, n) == (PoolView { next: (p.next + n) as usize, ..p }),
    decreases n,
{
    if n > 0 {
        lemma_after_picks(p, (n - 1) as nat);
    }
}

/// An account has its turn in a round of picks.
pub open spec fn has_its_turn(p: PoolView, account: AccountView) -> bool {
    exists|k: int|
        0 <= k < p.accounts.len() && #[trigger] in_turn(p.accounts, p.next, k) == account
}

/// Every account of a pool has its turn in a round.
proof fn lemma_has_its_turn(p: PoolView, j: int)
    requires
        0 <= j < p.accounts.len(),
    ensures
        has_its_turn(p, p.accounts[j]),
{
    let k = lemma_turn_of(p.next as int, j, p.accounts.len() as int);
    assert(in_turn(p.accounts, p.next, k) == p.accounts[j]);
}

/// While all accounts are healthy, as many picks in a row as there are accounts
/// take them one after the other, each of them once. `moments` are the points in
/// time of the picks.
pub proof fn law_picks_in_a_row_visit_every_account(
    p: PoolView,
    model: Seq<char>,
    moments: Seq<u128>,
)
    requires
        p.accounts.len() > 0,
        moments.len() == p.accounts.len(),
        p.next + p.accounts.len() <= usize::MAX,
        forall|i: int, k: int|
            0 <= i < p.accounts.len() && 0 <= k < moments.len() ==> is_healthy(
                p,
                #[trigger] p.accounts[i],
                None,
                model,
                #[trigger] moments[k],
            ),
    ensures
        forall|k: int|
            0 <= k < moments.len() ==> picked(
                after_picks(p, k as nat),
                None,
                model,
                #[trigger] moments[k],
            ) == Some(in_turn(p.accounts, p.next, k)),
        forall|j: int| 0 <= j < p.accounts.len() ==> has_its_turn(p, #[trigger] p.accounts[j]),
{
    assert forall|k: int| 0 <= k < moments.len() implies picked(
        after_picks(p, k as nat),
        None,
        model,
        #[trigger] moments[k],
    ) == Some(in_turn(p.accounts, p.next, k)) by {
        lemma_after_picks(p, k as nat);
        let q = after_picks(p, k as nat);
        assert forall|i: int| 0 <= i < q.accounts.len() implies is_healthy(
            q,
            #[trigger] q.accounts[i],
            None,
            model,
            moments[k],
        ) by {
            assert(is_healthy(p, p.accounts[i], None, model, moments[k]));
        }
        law_healthy_accounts_take_turns(q, model, moments[k]);
    }
    assert forall|j: int| 0 <= j < p.accounts.len() implies has_its_turn(
        p,
        #[trigger] p.accounts[j],
    ) by {
        lemma_has_its_turn(p, j);
    }
}

} // verus!
