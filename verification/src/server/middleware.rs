//! Access to the gated routes.
//!
//! A client shows the admin key as `Authorization: Bearer <key>` or as
//! `X-API-Key: <key>`.
use crate::headers;
use crate::headers::HeaderView;
use crate::headers::Headers;
use crate::server::error::ApiError;
use crate::server::error::ApiErrorView;
use crate::text;
use vstd::prelude::*;
use vstd::utf8::encode_utf8;

verus! {

/// The text of the first header with this name, where it is not empty.
pub open spec fn shown(h: Seq<HeaderView>, name: Seq<char>) -> Option<Seq<char>> {
    match headers::first_text(h, name) {
        Some(t) if t.len() > 0 => Some(t),
        _ => None,
    }
}

/// The key in an authorization: the second of two parts, after `bearer` in
/// whatever case.
pub open spec fn bearer_key(authorization: Seq<char>) -> Option<Seq<char>> {
    let parts = text::split(authorization, ' ');
    if parts.len() == 2 && text::lower(parts[0]) == "bearer"@ {
        Some(parts[1])
    } else {
        None
    }
}

/// The key that a client shows, or why it shows none. An authorization goes
/// before an API key.
pub open spec fn shown_key(h: Seq<HeaderView>) -> Result<Seq<char>, ApiErrorView> {
    match shown(h, "authorization"@) {
        Some(a) => match bearer_key(a) {
            Some(k) => Ok(k),
            None => Err(ApiErrorView::Unauthorized("Invalid Authorization header format"@)),
        },
        None => match shown(h, "x-api-key"@) {
            Some(k) => Ok(k),
            None => Err(ApiErrorView::Unauthorized("Unauthorized"@)),
        },
    }
}

/// Whether a client has access, or why not.
pub open spec fn access(admin_key: Option<Seq<char>>, h: Seq<HeaderView>) -> Result<
    (),
    ApiErrorView,
> {
    match admin_key {
        Some(k) if k.len() > 0 => match shown_key(h) {
            Ok(provided) => if provided == k {
                Ok(())
            } else {
                Err(ApiErrorView::Unauthorized("Unauthorized"@))
            },
            Err(e) => Err(e),
        },
        _ => Err(ApiErrorView::AdminNotConfigured),
    }
}

/// The text of an optional string.
pub open spec fn optional(s: Option<&str>) -> Option<Seq<char>> {
    match s {
        Some(t) => Some(t@),
        None => None,
    }
}

/// Whether two keys are the same. It looks at every byte, so that the time it
/// takes does not tell how many of the first bytes are right.
fn same_key(a: &str, b: &str) -> (r: bool)
    ensures
        r == (a@ == b@),
{
    let x = a.as_bytes();
    let y = b.as_bytes();
    if x.len() != y.len() {
        return false;
    }
    let mut acc: u8 = 0;
    let mut i: usize = 0;
    while i < x.len()
        invariant
            i <= x@.len(),
            x@.len() == y@.len(),
            acc == 0 <==> forall|j: int| 0 <= j < i ==> x@[j] == y@[j],
        decreases x@.len() - i,
    {
        let p: u8 = x[i];
        let q: u8 = y[i];
        proof {
            assert((acc | (p ^ q)) == 0 <==> acc == 0 && p == q) by (bit_vector);
        }
        acc = acc | (p ^ q);
        i += 1;
    }
    proof {
        if acc == 0 {
            assert(x@ =~= y@);
            text::lemma_encoding_injective(a@, b@);
        }
    }
    acc == 0
}

/// The text of the first header with this name, where it is not empty.
fn shown_text(h: &Headers, name: &str) -> (r: Option<String>)
    ensures
        match r {
            Some(t) => shown(h@, name@) == Some(t@),
            None => shown(h@, name@) is None,
        },
{
    match h.get_str(name) {
        Some(t) => if t.as_str().is_empty() {
            None
        } else {
            Some(t)
        },
        None => None,
    }
}

/// The key that a client shows, or why it shows none.
fn provided_key(h: &Headers) -> (r: Result<String, ApiError>)
    ensures
        match r {
            Ok(k) => shown_key(h@) == Ok::<Seq<char>, ApiErrorView>(k@),
            Err(e) => shown_key(h@) == Err::<Seq<char>, ApiErrorView>(e@),
        },
{
    match shown_text(h, "authorization") {
        Some(a) => {
            let mut parts: Vec<String> = text::split_on(a.as_str(), ' ');
            let ghost views = text::views(parts@);
            if parts.len() == 2 {
                proof {
                    assert(views[0] == parts@[0]@);
                    assert(views[1] == parts@[1]@);
                }
                if text::same(text::to_lower(parts[0].as_str()).as_str(), "bearer") {
                    let key: String = parts.remove(1);
                    return Ok(key);
                }
            }
            Err(ApiError::Unauthorized("Invalid Authorization header format"))
        },
        None => match shown_text(h, "x-api-key") {
            Some(k) => Ok(k),
            None => Err(ApiError::Unauthorized("Unauthorized")),
        },
    }
}

/// Whether a client with these headers has access to the gated routes.
pub fn admin_auth(admin_key: Option<&str>, h: &Headers) -> (r: Result<(), ApiError>)
    ensures
        match r {
            Ok(()) => access(optional(admin_key), h@) == Ok::<(), ApiErrorView>(()),
            Err(e) => access(optional(admin_key), h@) == Err::<(), ApiErrorView>(e@),
        },
{
    match admin_key {
        Some(k) => {
            if k.is_empty() {
                return Err(ApiError::AdminNotConfigured);
            }
            match provided_key(h) {
                Ok(provided) => if same_key(provided.as_str(), k) {
                    Ok(())
                } else {
                    Err(ApiError::Unauthorized("Unauthorized"))
                },
                Err(e) => Err(e),
            }
        },
        None => Err(ApiError::AdminNotConfigured),
    }
}

/// Access takes the key: the client shows it in one of the two headers.
pub proof fn law_only_the_key_opens(admin_key: Option<Seq<char>>, h: Seq<HeaderView>)
    requires
        access(admin_key, h) is Ok,
    ensures
        admin_key matches Some(k) && k.len() > 0 && (match shown(h, "authorization"@) {
            Some(a) => bearer_key(a) == Some(k),
            None => headers::first_text(h, "x-api-key"@) == Some(k),
        }),
{
}

/// Without a configured key there is no access at all.
pub proof fn law_no_key_no_access(h: Seq<HeaderView>)
    ensures
        access(None, h) == Err::<(), ApiErrorView>(ApiErrorView::AdminNotConfigured),
        access(Some(Seq::empty()), h) == Err::<(), ApiErrorView>(
            ApiErrorView::AdminNotConfigured,
        ),
{
}

/// A client that shows the key as an API key, and no authorization, has
/// access.
pub proof fn law_api_key_opens(key: Seq<char>, h: Seq<HeaderView>)
    requires
        key.len() > 0,
        shown(h, "authorization"@) is None,
        headers::first_text(h, "x-api-key"@) == Some(key),
    ensures
        access(Some(key), h) is Ok,
{
}

} // verus!
