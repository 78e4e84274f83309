//! Configuration.
use crate::text;
use std::path::PathBuf;
use vstd::prelude::*;

pub mod laws;

verus! {

/// Where credentials come from.
#[derive(Debug, Clone, Copy, PartialEq, Eq, Structural)]
pub enum CredsStore {
    /// A static token from the environment.
    Env,
    /// `auth.json` on a writable volume, whose tokens are refreshed.
    Fs,
}

/// What the process does.
#[derive(Debug, Clone, Copy, PartialEq, Eq, Structural)]
pub enum ProxyMode {
    /// It serves one account and talks to the backend itself.
    Backend,
    /// It stands in front of such processes and picks one for each
    /// conversation.
    Router,
}

/// The configuration of the process.
#[derive(Debug)]
pub struct Config {
    /// The port to listen on.
    pub port: u16,
    /// The key that the gated routes take.
    pub admin_api_key: Option<String>,
    /// The environment, which selects the form of the logs.
    pub env: String,
    pub mode: ProxyMode,
    /// The accounts of the router, `slug=url,slug=url`.
    pub codex_accounts: String,
    /// The store of pins; without one the router keeps none.
    pub redis_url: Option<String>,
    /// How long a pin is kept, in seconds.
    pub affinity_ttl_secs: u64,
    pub creds_store: CredsStore,
    /// The path of the credentials file.
    pub creds_path: Option<PathBuf>,
    /// How long a stream may be idle before a ping is sent, in seconds.
    pub keepalive_secs: u64,
    /// The static token.
    pub anthropic_api_key: String,
    /// The static account id.
    pub claude_user_id: String,
    /// The name of the account in metrics.
    pub account: String,
}

/// The port to listen on where none is given.
pub const DEFAULT_PORT: u16 = 9879;

/// How long a pin is kept where nothing is given: one day.
pub const DEFAULT_AFFINITY_TTL_SECS: u64 = 86_400;

/// How long a stream may be idle where nothing is given, in seconds.
pub const DEFAULT_KEEPALIVE_SECS: u64 = 15;

/// The name of an account that has none.
pub const UNKNOWN_ACCOUNT: &'static str = "unknown";

/// An environment in which logs are meant to be read by people.
pub open spec fn is_development(env: Seq<char>) -> bool {
    env.len() == 0 || env == "dev"@ || env == "development"@
}

/// Whether logs are meant to be read by people.
pub fn is_dev(env: &str) -> (r: bool)
    ensures
        r == is_development(env@),
{
    env.is_empty() || text::same(env, "dev") || text::same(env, "development")
}

/// The name of an account in metrics.
pub open spec fn account_alias(account: Seq<char>) -> Seq<char> {
    if text::trimmed(account).len() == 0 {
        UNKNOWN_ACCOUNT@
    } else {
        text::trimmed(account)
    }
}

/// The name of an account in metrics: never empty, so that every series is
/// well formed.
pub fn metrics_account(account: &str) -> (r: String)
    ensures
        r@ == account_alias(account@),
{
    let trimmed = text::trim(account);
    if trimmed.as_str().is_empty() {
        UNKNOWN_ACCOUNT.to_owned()
    } else {
        trimmed
    }
}

/// A value that is given and not blank.
pub open spec fn is_given(value: Option<&str>) -> bool {
    value matches Some(v) && text::trimmed(v@).len() > 0
}

/// Whether a value is given and not blank.
fn given(value: Option<&str>) -> (r: bool)
    ensures
        r == is_given(value),
{
    match value {
        Some(v) => !text::trim(v).as_str().is_empty(),
        None => false,
    }
}

/// Whether traces are exported: where one of the two endpoints is given.
pub fn export_enabled(general_endpoint: Option<&str>, traces_endpoint: Option<&str>) -> (r: bool)
    ensures
        r == (is_given(general_endpoint) || is_given(traces_endpoint)),
{
    given(general_endpoint) || given(traces_endpoint)
}

/// An attribute that names the service.
pub open spec fn names_service(attribute: Seq<char>) -> bool {
    text::split_first(attribute, '=') matches Some((key, value)) && text::trimmed(key)
        == "service.name"@ && text::trimmed(value).len() > 0
}

/// Attributes `key=value,key=value` that name the service.
pub open spec fn declare_service_name(attrs: Seq<char>) -> bool {
    exists|i: int|
        0 <= i < text::split(attrs, ',').len() && names_service(
            #[trigger] text::split(attrs, ',')[i],
        )
}

/// Whether resource attributes already name the service.
pub fn attrs_declare_service_name(attrs: Option<&str>) -> (r: bool)
    ensures
        r == (attrs matches Some(a) && declare_service_name(a@)),
{
    match attrs {
        None => false,
        Some(a) => {
            let parts: Vec<String> = text::split_on(a, ',');
            let ghost all = text::split(a@, ',');
            let mut i: usize = 0;
            while i < parts.len()
                invariant
                    i <= parts@.len(),
                    attrs == Some(a),
                    text::views(parts@) == all,
                    all == text::split(a@, ','),
                    forall|j: int| 0 <= j < i ==> !names_service(#[trigger] all[j]),
                decreases parts@.len() - i,
            {
                proof {
                    assert(all[i as int] == parts@[i as int]@);
                }
                match text::split_once(parts[i].as_str(), '=') {
                    Some((key, value)) => {
                        let key = text::trim(key.as_str());
                        let value = text::trim(value.as_str());
                        if text::same(key.as_str(), "service.name") && !value.as_str().is_empty() {
                            proof {
                                assert(names_service(text::split(a@, ',')[i as int]));
                            }
                            return true;
                        }
                    },
                    None => {},
                }
                i += 1;
            }
            false
        },
    }
}

/// Whether the service needs a name of its own: neither of the two ways gives
/// it one.
pub fn needs_service_name(service_name: Option<&str>, attrs: Option<&str>) -> (r: bool)
    ensures
        r == !(is_given(service_name) || (attrs matches Some(a) && declare_service_name(a@))),
{
    !(given(service_name) || attrs_declare_service_name(attrs))
}

/// The directory under which the credentials file is kept by default.
#[derive(Debug, Clone, Copy, PartialEq, Eq, Structural)]
pub enum CredsBase {
    /// `$XDG_CONFIG_HOME`.
    Xdg,
    /// `$HOME/.config`.
    HomeConfig,
}

/// The directory under which the credentials file is kept, given which of the
/// two variables hold an absolute path. Rotated tokens never land in the
/// working directory: without either there is none.
pub fn default_creds_base(xdg_is_absolute: bool, home_is_absolute: bool) -> (r: Result<
    CredsBase,
    &'static str,
>)
    ensures
        match r {
            Ok(CredsBase::Xdg) => xdg_is_absolute,
            Ok(CredsBase::HomeConfig) => !xdg_is_absolute && home_is_absolute,
            Err(m) => !xdg_is_absolute && !home_is_absolute && m@
                == "--creds-path is required when neither XDG_CONFIG_HOME nor HOME is set to an absolute path"@,
        },
{
    if xdg_is_absolute {
        Ok(CredsBase::Xdg)
    } else if home_is_absolute {
        Ok(CredsBase::HomeConfig)
    } else {
        Err(
            "--creds-path is required when neither XDG_CONFIG_HOME nor HOME is set to an absolute path",
        )
    }
}

} // verus!
