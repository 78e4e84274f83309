//! Responses that are made of responses of the backend.
use crate::headers;
use crate::headers::Header;
use crate::headers::HeaderView;
use crate::headers::Headers;
use crate::json;
use crate::server::error;
use crate::text;
use vstd::prelude::*;
use vstd::utf8::encode_utf8;

verus! {

/// Which relay takes in the backend's stream.
#[derive(Debug)]
pub enum RelayMode {
    /// Chat completion chunks are made of its events.
    Rewrite { model: String },
    /// Its events are passed on.
    PassThrough,
}

/// A response with its whole body.
#[derive(Debug)]
pub struct Reply {
    pub status: u16,
    pub headers: Headers,
    pub body: Vec<u8>,
}

/// A response in mathematical form.
pub struct ReplyView {
    pub status: u16,
    pub headers: Seq<HeaderView>,
    pub body: Seq<u8>,
}

impl Reply {
    /// The response in mathematical form.
    pub open spec fn view(&self) -> ReplyView {
        ReplyView { status: self.status, headers: self.headers@, body: self.body@ }
    }
}

/// The headers that are not passed on. The first three belong to one
/// connection and its framing, cookies are the backend's own, and the body is
/// passed on decoded.
pub const DROPPED_HEADERS: [&'static str; 5] = [
    "content-length",
    "transfer-encoding",
    "connection",
    "set-cookie",
    "content-encoding",
];

/// The media type of an event stream.
pub const EVENT_STREAM: &'static str = "text/event-stream";

/// The content type of a relayed stream.
pub const RELAYED_CONTENT_TYPE: &'static str = "text/event-stream; charset=utf-8";

/// The status where the backend's body cannot be read.
pub const BAD_GATEWAY: u16 = 502;

/// A name of a header that is not passed on.
pub open spec fn is_dropped(name: Seq<char>) -> bool {
    exists|i: int| 0 <= i < DROPPED_HEADERS@.len() && #[trigger] DROPPED_HEADERS@[i]@ == name
}

/// The headers that are passed on, in their order.
pub open spec fn passed_on(s: Seq<HeaderView>) -> Seq<HeaderView> {
    s.filter(|h: HeaderView| !is_dropped(h.name))
}

/// Whether a header of this name is not passed on.
fn name_is_dropped(name: &str) -> (r: bool)
    ensures
        r == is_dropped(name@),
{
    let mut i: usize = 0;
    while i < DROPPED_HEADERS.len()
        invariant
            i <= DROPPED_HEADERS@.len(),
            forall|j: int| 0 <= j < i ==> #[trigger] DROPPED_HEADERS@[j]@ != name@,
        decreases DROPPED_HEADERS@.len() - i,
    {
        if text::same(DROPPED_HEADERS[i], name) {
            proof {
                assert(DROPPED_HEADERS@[i as int]@ == name@);
            }
            return true;
        }
        i += 1;
    }
    false
}

/// The headers of a backend response that are passed on.
pub fn sanitized_headers(upstream: &Headers) -> (r: Headers)
    ensures
        r@ == passed_on(upstream@),
{
    let ghost all = upstream@;
    let ghost keep = |h: HeaderView| !is_dropped(h.name);
    let mut list: Vec<Header> = Vec::new();
    let mut i: usize = 0;
    proof {
        reveal(Seq::filter);
        assert(all.take(0).filter(keep) =~= headers::views(list@));
    }
    while i < upstream.list.len()
        invariant
            i <= upstream.list@.len(),
            all == upstream@,
            keep == (|h: HeaderView| !is_dropped(h.name)),
            headers::views(list@) == all.take(i as int).filter(keep),
        decreases upstream.list@.len() - i,
    {
        let ghost before = list@;
        if !name_is_dropped(upstream.list[i].name.as_str()) {
            list.push(headers::copy_header(&upstream.list[i]));
            proof {
                assert(headers::views(list@) =~= headers::views(before).push(all[i as int]));
            }
        }
        proof {
            reveal(Seq::filter);
            assert(all.take(i + 1).drop_last() =~= all.take(i as int));
        }
        i += 1;
    }
    proof {
        assert(all.take(i as int) =~= all);
    }
    Headers { list }
}

/// The media type in a content type: what comes before its parameters.
pub open spec fn media_type(content_type: Seq<char>) -> Seq<char> {
    text::lower(text::trimmed(text::split(content_type, ';')[0]))
}

/// Headers of an event stream.
pub open spec fn streams_events(h: Seq<HeaderView>) -> bool {
    headers::first_text(h, "content-type"@) matches Some(t) && media_type(t) == EVENT_STREAM@
}

/// Whether a response with these headers is an event stream.
pub fn is_event_stream(upstream: &Headers) -> (r: bool)
    ensures
        r == streams_events(upstream@),
{
    match upstream.get_str("content-type") {
        Some(t) => {
            let parts: Vec<String> = text::split_on(t.as_str(), ';');
            let first: String = text::trim(parts[0].as_str());
            proof {
                assert(text::views(parts@)[0] == parts@[0]@);
            }
            text::same(text::to_lower(first.as_str()).as_str(), EVENT_STREAM)
        },
        None => false,
    }
}

/// The headers of a relayed stream.
pub open spec fn relayed_headers(h: Seq<HeaderView>) -> Seq<HeaderView> {
    headers::with_value(
        headers::with_value(
            passed_on(h),
            "content-type"@,
            encode_utf8(RELAYED_CONTENT_TYPE@),
        ),
        "cache-control"@,
        encode_utf8("no-cache"@),
    )
}

/// The headers of a relayed stream.
pub fn relay_headers(upstream: &Headers) -> (r: Headers)
    ensures
        r@ == relayed_headers(upstream@),
{
    let mut h = sanitized_headers(upstream);
    h.insert("content-type", crate::bytes::copy(RELAYED_CONTENT_TYPE.as_bytes()));
    h.insert("cache-control", crate::bytes::copy("no-cache".as_bytes()));
    h
}

/// The response that a buffered backend response becomes: the same where its
/// body could be read, else a gateway error and not an empty body under the
/// old status.
pub open spec fn mirrored(status: u16, h: Seq<HeaderView>, body: Option<Seq<u8>>) -> ReplyView {
    match body {
        Some(b) => ReplyView { status, headers: passed_on(h), body: b },
        None => ReplyView {
            status: BAD_GATEWAY,
            headers: seq![
                HeaderView {
                    name: "content-type"@,
                    value: encode_utf8("application/json"@),
                },
            ],
            body: encode_utf8(
                json::json_text(error::error_body("Failed to read upstream response body"@)),
            ),
        },
    }
}

/// The body that was read, in mathematical form.
pub open spec fn body_view(body: Option<Vec<u8>>) -> Option<Seq<u8>> {
    match body {
        Some(b) => Some(b@),
        None => None,
    }
}

/// The response that a buffered backend response becomes. The body is `None`
/// where it could not be read.
pub fn mirror_response(status: u16, upstream: &Headers, body: Option<Vec<u8>>) -> (r: Reply)
    ensures
        r@ == mirrored(status, upstream@, body_view(body)),
{
    match body {
        Some(b) => Reply { status, headers: sanitized_headers(upstream), body: b },
        None => {
            let mut h = Headers::new();
            h.insert("content-type", crate::bytes::copy("application/json".as_bytes()));
            let text = error::make_error_body("Failed to read upstream response body").to_text();
            let r = Reply {
                status: BAD_GATEWAY,
                headers: h,
                body: crate::bytes::copy(text.as_str().as_bytes()),
            };
            proof {
                reveal(Seq::filter);
                assert(r.headers@ =~= seq![
                    HeaderView {
                        name: "content-type"@,
                        value: encode_utf8("application/json"@),
                    },
                ]);
            }
            r
        },
    }
}

/// What is kept was there before.
proof fn lemma_kept_was_there(s: Seq<HeaderView>, keep: spec_fn(HeaderView) -> bool, i: int)
    requires
        0 <= i < s.filter(keep).len(),
    ensures
        s.contains(s.filter(keep)[i]),
    decreases s.len(),
{
    reveal(Seq::filter);
    let head = s.drop_last();
    if i < head.filter(keep).len() {
        lemma_kept_was_there(head, keep, i);
        let j = choose|j: int| 0 <= j < head.len() && head[j] == head.filter(keep)[i];
        assert(s[j] == s.filter(keep)[i]);
    } else {
        assert(s[s.len() - 1] == s.filter(keep)[i]);
    }
}

/// No header that is to be dropped is passed on, and every other one is.
pub proof fn law_headers_passed_on(s: Seq<HeaderView>, h: HeaderView)
    ensures
        passed_on(s).contains(h) <==> s.contains(h) && !is_dropped(h.name),
{
    broadcast use vstd::seq_lib::group_filter_ensures;

    let keep = |x: HeaderView| !is_dropped(x.name);
    assert(passed_on(s) == s.filter(keep));
    if passed_on(s).contains(h) {
        let i = choose|i: int| 0 <= i < s.filter(keep).len() && s.filter(keep)[i] == h;
        assert(keep(s.filter(keep)[i]));
        lemma_kept_was_there(s, keep, i);
    }
    if s.contains(h) && !is_dropped(h.name) {
        let i = choose|i: int| 0 <= i < s.len() && s[i] == h;
        assert(keep(s[i]));
        assert(s.filter(keep).contains(s[i]));
    }
}

/// No cookie of the backend reaches the client.
pub proof fn law_no_cookie_is_passed_on(s: Seq<HeaderView>, i: int)
    requires
        0 <= i < passed_on(s).len(),
    ensures
        passed_on(s)[i].name != "set-cookie"@,
{
    broadcast use vstd::seq_lib::group_filter_ensures;

    let keep = |x: HeaderView| !is_dropped(x.name);
    assert(passed_on(s) == s.filter(keep));
    assert(keep(s.filter(keep)[i]));
    assert(DROPPED_HEADERS@[3]@ == "set-cookie"@);
}

/// A name that was given one value has that value.
proof fn lemma_with_value(s: Seq<HeaderView>, name: Seq<char>, value: Seq<u8>)
    ensures
        headers::first_value(headers::with_value(s, name, value), name) == Some(value),
{
    let kept = headers::without_name(s, name);
    let keep = |h: HeaderView| h.name != name;
    assert forall|i: int| 0 <= i < kept.len() implies (#[trigger] kept[i]).name != name by {
        broadcast use vstd::seq_lib::group_filter_ensures;

        assert(keep(s.filter(keep)[i]));
    }
    lemma_first_after(kept, HeaderView { name, value });
}

/// The first value of a name that only the last header has.
proof fn lemma_first_after(kept: Seq<HeaderView>, last: HeaderView)
    requires
        forall|i: int| 0 <= i < kept.len() ==> (#[trigger] kept[i]).name != last.name,
    ensures
        headers::first_value(kept.push(last), last.name) == Some(last.value),
    decreases kept.len(),
{
    let all = kept.push(last);
    if kept.len() == 0 {
        assert(all[0] == last);
    } else {
        assert(all[0] == kept[0]);
        assert(all.skip(1) =~= kept.skip(1).push(last));
        lemma_first_after(kept.skip(1), last);
    }
}

/// A header of another name does not change what comes first.
proof fn lemma_first_before(kept: Seq<HeaderView>, last: HeaderView, name: Seq<char>)
    requires
        last.name != name,
    ensures
        headers::first_value(kept.push(last), name) == headers::first_value(kept, name),
    decreases kept.len(),
{
    let all = kept.push(last);
    if kept.len() == 0 {
        assert(all[0] == last);
        assert(all.skip(1) =~= Seq::<HeaderView>::empty());
        assert(headers::first_value(all.skip(1), name) is None);
    } else {
        assert(all[0] == kept[0]);
        assert(all.skip(1) =~= kept.skip(1).push(last));
        lemma_first_before(kept.skip(1), last, name);
    }
}

/// The first value of one name does not change where another is taken out.
proof fn lemma_first_without(s: Seq<HeaderView>, other: Seq<char>, name: Seq<char>)
    requires
        other != name,
    ensures
        headers::first_value(headers::without_name(s, other), name) == headers::first_value(
            s,
            name,
        ),
    decreases s.len(),
{
    let keep = |h: HeaderView| h.name != other;
    reveal(Seq::filter);
    if s.len() > 0 {
        let head = s.drop_last();
        let last = s.last();
        lemma_first_without(head, other, name);
        assert(s =~= head.push(last));
        assert(headers::without_name(s, other) == s.filter(keep));
        assert(headers::without_name(head, other) == head.filter(keep));
        if last.name == name {
            lemma_first_pushed(head, last);
            lemma_first_pushed(head.filter(keep), last);
        } else {
            lemma_first_before(head, last, name);
            if last.name != other {
                lemma_first_before(head.filter(keep), last, name);
            }
        }
    }
}

/// A header that is added comes first only where its name is new.
proof fn lemma_first_pushed(s: Seq<HeaderView>, last: HeaderView)
    ensures
        headers::first_value(s.push(last), last.name) == (match headers::first_value(
            s,
            last.name,
        ) {
            Some(v) => Some(v),
            None => Some(last.value),
        }),
    decreases s.len(),
{
    let all = s.push(last);
    if s.len() == 0 {
        assert(all[0] == last);
    } else {
        assert(all[0] == s[0]);
        assert(all.skip(1) =~= s.skip(1).push(last));
        lemma_first_pushed(s.skip(1), last);
    }
}

/// A relayed stream is an event stream that is not cached, whatever the
/// backend says.
pub proof fn law_relayed_headers(h: Seq<HeaderView>)
    ensures
        headers::first_value(relayed_headers(h), "content-type"@) == Some(
            encode_utf8(RELAYED_CONTENT_TYPE@),
        ),
        headers::first_value(relayed_headers(h), "cache-control"@) == Some(
            encode_utf8("no-cache"@),
        ),
{
    reveal_strlit("content-type");
    reveal_strlit("cache-control");
    assert("content-type"@.len() != "cache-control"@.len());
    let one = headers::with_value(
        passed_on(h),
        "content-type"@,
        encode_utf8(RELAYED_CONTENT_TYPE@),
    );
    lemma_with_value(passed_on(h), "content-type"@, encode_utf8(RELAYED_CONTENT_TYPE@));
    lemma_with_value(one, "cache-control"@, encode_utf8("no-cache"@));
    lemma_first_without(one, "cache-control"@, "content-type"@);
    lemma_first_before(
        headers::without_name(one, "cache-control"@),
        HeaderView { name: "cache-control"@, value: encode_utf8("no-cache"@) },
        "content-type"@,
    );
}

} // verus!
