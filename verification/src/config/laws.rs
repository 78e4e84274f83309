//! What the configuration means.
use crate::config;
use crate::text;
use vstd::prelude::*;

verus! {

/// An account shows under its name without white space around it, and as unknown
/// where it has none; a name is never empty.
pub proof fn law_account_has_a_name(account: Seq<char>)
    ensures
        text::trimmed(account).len() > 0 ==> config::account_alias(account) == text::trimmed(
            account,
        ),
        text::trimmed(account).len() == 0 ==> config::account_alias(account) == "unknown"@,
        config::account_alias(account).len() > 0,
{
    reveal_strlit("unknown");
}

/// People read the logs in development, which is also meant where no environment
/// is given.
pub proof fn law_development(env: Seq<char>)
    ensures
        config::is_development(env) <==> env.len() == 0 || env == "dev"@ || env == "development"@,
{
}

/// An attribute names the service where its key, without white space around it,
/// is `service.name` and its value is not blank.
pub proof fn law_service_is_named(key: Seq<char>, value: Seq<char>)
    requires
        !key.contains('='),
    ensures
        config::names_service(key + seq!['='] + value) <==> text::trimmed(key) == "service.name"@
            && text::trimmed(value).len() > 0,
        !config::names_service(key),
{
    text::laws::law_split_at_a_separator(key, value, '=');
}

/// A list of attributes names the service where one of them does.
pub proof fn law_one_attribute_is_enough(first: Seq<char>, more: Seq<char>)
    requires
        !first.contains(','),
    ensures
        config::declare_service_name(first) <==> config::names_service(first),
        config::declare_service_name(first + seq![','] + more) <==> config::names_service(first)
            || config::declare_service_name(more),
{
    text::laws::law_split_at_a_separator(first, more, ',');
    let rest = text::split(more, ',');
    let all = text::split(first + seq![','] + more, ',');
    assert(all == seq![first] + rest);
    assert(all[0] == first);
    let one = text::split(first, ',');
    assert(one[0] == first);
    if config::declare_service_name(first + seq![','] + more) && !config::names_service(first) {
        let i = choose|i: int|
            0 <= i < all.len() && config::names_service(#[trigger] all[i]);
        assert(rest[i - 1] == all[i]);
    }
    if config::declare_service_name(more) {
        let i = choose|i: int|
            0 <= i < rest.len() && config::names_service(#[trigger] rest[i]);
        assert(all[i + 1] == rest[i]);
    }
}

} // verus!
