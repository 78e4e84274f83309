//! Conversation identity.
//!
//! A conversation has a stable key: the `x-conversation-id` header where the
//! client sends a usable one, else a UUID of the conversation's head, its
//! system text and first user text. The model does not take part, so the key
//! survives a change of model in mid-conversation; nor does the `user` field,
//! which names a person and not a conversation.
use crate::digest;
use crate::headers;
use crate::headers::HeaderView;
use crate::headers::Headers;
use crate::json;
use crate::json::Json;
use crate::json::JsonView;
use crate::request;
use crate::text;
use vstd::prelude::*;
use vstd::utf8::encode_utf8;

pub mod laws;

verus! {

/// The header with which a client names its conversation.
pub const HEADER_NAME: &'static str = "x-conversation-id";

/// The longest key that a client may send, in bytes.
pub const MAX_EXPLICIT_KEY_LEN: usize = 256;

/// A control character.
pub open spec fn is_control(c: char) -> bool {
    c as u32 <= 0x1f || 0x7f <= c as u32 <= 0x9f
}

/// A key that a client may send: not empty, not too long, without control
/// characters.
pub open spec fn is_valid_key(s: Seq<char>) -> bool {
    &&& s.len() > 0
    &&& encode_utf8(s).len() <= MAX_EXPLICIT_KEY_LEN
    &&& forall|i: int| 0 <= i < s.len() ==> !is_control(#[trigger] s[i])
}

/// Whether a client may send this key.
pub fn valid_explicit_key(s: &str) -> (r: bool)
    ensures
        r == is_valid_key(s@),
{
    if s.is_empty() || s.as_bytes().len() > MAX_EXPLICIT_KEY_LEN {
        return false;
    }
    let cs: Vec<char> = text::chars_of(s);
    let mut i: usize = 0;
    while i < cs.len()
        invariant
            i <= cs@.len(),
            cs@ == s@,
            forall|j: int| 0 <= j < i ==> !is_control(#[trigger] cs@[j]),
        decreases cs@.len() - i,
    {
        let n: u32 = cs[i] as u32;
        if n <= 0x1f || (0x7f <= n && n <= 0x9f) {
            proof {
                assert(is_control(s@[i as int]));
            }
            return false;
        }
        i += 1;
    }
    true
}

/// How a [`ConversationKey`] was found.
#[derive(Debug, Clone, Copy, PartialEq, Eq, Structural)]
pub enum KeySource {
    /// The client sent it.
    Explicit,
    /// It was derived from the conversation's head.
    HeadHash,
}

impl KeySource {
    /// The label for logs and metrics.
    pub fn as_str(&self) -> (r: &'static str)
        ensures
            r@ == (match *self {
                KeySource::Explicit => "explicit"@,
                KeySource::HeadHash => "head_hash"@,
            }),
    {
        match self {
            KeySource::Explicit => "explicit",
            KeySource::HeadHash => "head_hash",
        }
    }
}

/// A conversation key and how it was found.
#[derive(Debug)]
pub struct ConversationKey {
    pub key: String,
    pub source: KeySource,
}

/// The text that stands for a conversation's head. Each part comes after its
/// length in bytes, so that no two heads share a text.
pub open spec fn head_payload(instructions: Seq<char>, first_user: Seq<char>) -> Seq<char> {
    "instructions:"@ + text::decimal(encode_utf8(instructions).len()) + ":"@ + instructions
        + "\nfirst_user:"@ + text::decimal(encode_utf8(first_user).len()) + ":"@ + first_user
}

/// The key that a client sent, where it is usable.
pub open spec fn explicit_key(h: Seq<HeaderView>) -> Option<Seq<char>> {
    match headers::first_text(h, HEADER_NAME@) {
        Some(v) => if is_valid_key(text::trimmed(v)) {
            Some(text::trimmed(v))
        } else {
            None
        },
        None => None,
    }
}

/// The key of a conversation's head; `None` where the head is blank.
pub open spec fn head_key(body: JsonView) -> Option<Seq<char>> {
    let i = text::trimmed(request::request_instructions(body));
    let f = text::trimmed(request::first_user_text(body));
    if i.len() == 0 && f.len() == 0 {
        None
    } else {
        Some(digest::text_uuid(head_payload(i, f)))
    }
}

/// The key of a conversation and how it is found.
pub open spec fn conversation_key(h: Seq<HeaderView>, body: JsonView) -> Option<
    (Seq<char>, KeySource),
> {
    match explicit_key(h) {
        Some(k) => Some((k, KeySource::Explicit)),
        None => match head_key(body) {
            Some(k) => Some((k, KeySource::HeadHash)),
            None => None,
        },
    }
}

/// The text that stands for a conversation's head.
fn make_head_payload(instructions: &str, first_user: &str) -> (r: String)
    ensures
        r@ == head_payload(instructions@, first_user@),
{
    let mut out: String = "instructions:".to_owned();
    out.append(text::to_decimal(instructions.as_bytes().len() as u64).as_str());
    out.append(":");
    out.append(instructions);
    out.append("\nfirst_user:");
    out.append(text::to_decimal(first_user.as_bytes().len() as u64).as_str());
    out.append(":");
    out.append(first_user);
    out
}

/// The key of the conversation that a request belongs to; `None` where it
/// neither names one nor has a head.
pub fn resolve_conversation_key(headers: &Headers, body: &Json) -> (r: Option<ConversationKey>)
    ensures
        match r {
            Some(k) => conversation_key(headers@, body@) == Some((k.key@, k.source)),
            None => conversation_key(headers@, body@) is None,
        },
{
    match headers.get_str(HEADER_NAME) {
        Some(v) => {
            let trimmed = text::trim(v.as_str());
            if valid_explicit_key(trimmed.as_str()) {
                return Some(ConversationKey { key: trimmed, source: KeySource::Explicit });
            }
        },
        None => {},
    }
    let instructions = request::extract_instructions(body);
    let instructions = text::trim(instructions.as_str());
    let first_user = request::extract_first_user_text(body);
    let first_user = text::trim(first_user.as_str());
    if instructions.as_str().is_empty() && first_user.as_str().is_empty() {
        return None;
    }
    let payload = make_head_payload(instructions.as_str(), first_user.as_str());
    Some(
        ConversationKey {
            key: digest::hash_to_uuid(payload.as_str()),
            source: KeySource::HeadHash,
        },
    )
}

/// Nothing of a body but its messages and its input counts for the key.
pub proof fn law_only_the_transcript_counts(h: Seq<HeaderView>, a: JsonView, b: JsonView)
    requires
        json::array_field(a, "messages"@) == json::array_field(b, "messages"@),
        json::array_field(a, "input"@) == json::array_field(b, "input"@),
    ensures
        conversation_key(h, a) == conversation_key(h, b),
{
}

/// A change of model does not change the key.
pub proof fn law_key_ignores_model(h: Seq<HeaderView>, body: JsonView, model: JsonView)
    ensures
        conversation_key(h, json::with_field(body, "model"@, model)) == conversation_key(h, body),
{
    reveal_strlit("model");
    reveal_strlit("messages");
    reveal_strlit("input");
    assert("model"@.len() != "messages"@.len());
    assert("model"@[0] != "input"@[0]);
    let changed = json::with_field(body, "model"@, model);
    assert(json::array_field(changed, "messages"@) == json::array_field(body, "messages"@));
    assert(json::array_field(changed, "input"@) == json::array_field(body, "input"@));
}

/// The `user` field does not change the key.
pub proof fn law_key_ignores_user(h: Seq<HeaderView>, body: JsonView, user: JsonView)
    ensures
        conversation_key(h, json::with_field(body, "user"@, user)) == conversation_key(h, body),
{
    reveal_strlit("user");
    reveal_strlit("messages");
    reveal_strlit("input");
    assert("user"@.len() != "messages"@.len());
    assert("user"@.len() != "input"@.len());
    let changed = json::with_field(body, "user"@, user);
    assert(json::array_field(changed, "messages"@) == json::array_field(body, "messages"@));
    assert(json::array_field(changed, "input"@) == json::array_field(body, "input"@));
}

/// What the items of two lists give is what the first give and then what the
/// second give.
proof fn lemma_gathered_in_two<T>(
    a: Seq<JsonView>,
    b: Seq<JsonView>,
    f: spec_fn(JsonView) -> Seq<T>,
)
    ensures
        request::gathered(a + b, f) == request::gathered(a, f) + request::gathered(b, f),
    decreases b.len(),
{
    if b.len() == 0 {
        assert(a + b =~= a);
        assert(request::gathered(a, f) + Seq::<T>::empty() =~= request::gathered(a, f));
    } else {
        assert((a + b).drop_last() =~= a + b.drop_last());
        lemma_gathered_in_two(a, b.drop_last(), f);
        assert(request::gathered(a, f) + request::gathered(b.drop_last(), f) + f(b.last())
            =~= request::gathered(a, f) + (request::gathered(b.drop_last(), f) + f(b.last())));
    }
}

/// Messages that are not from the system add nothing to the instructions.
proof fn lemma_no_system_parts(msgs: Seq<JsonView>)
    requires
        forall|i: int| 0 <= i < msgs.len() ==> !request::is_system(#[trigger] msgs[i]),
    ensures
        request::all_system_parts(msgs) == Seq::<Seq<char>>::empty(),
    decreases msgs.len(),
{
    if msgs.len() > 0 {
        lemma_no_system_parts(msgs.drop_last());
        assert(!request::is_system(msgs.last()));
        assert(request::system_parts(msgs.last()) == Seq::<Seq<char>>::empty());
        assert(request::all_system_parts(msgs) =~= Seq::<Seq<char>>::empty());
    }
}

/// A conversation keeps its key from its first user text on: later messages do
/// not change it, unless they are from the system.
pub proof fn law_later_turns_keep_the_key(
    h: Seq<HeaderView>,
    body: JsonView,
    msgs: Seq<JsonView>,
    more: Seq<JsonView>,
)
    requires
        json::array_field(body, "messages"@) == Some(msgs),
        request::user_texts(body).len() > 0,
        forall|i: int| 0 <= i < more.len() ==> !request::is_system(#[trigger] more[i]),
    ensures
        conversation_key(
            h,
            json::with_field(body, "messages"@, JsonView::Array(msgs + more)),
        ) == conversation_key(h, body),
{
    reveal_strlit("messages");
    reveal_strlit("input");
    assert("messages"@.len() != "input"@.len());
    let later = json::with_field(body, "messages"@, JsonView::Array(msgs + more));
    assert(json::array_field(later, "messages"@) == Some(msgs + more));
    assert(json::array_field(later, "input"@) == json::array_field(body, "input"@));
    lemma_gathered_in_two(msgs, more, |msg: JsonView| request::system_parts(msg));
    lemma_no_system_parts(more);
    assert(request::all_system_parts(msgs + more) =~= request::all_system_parts(msgs));
    lemma_gathered_in_two(msgs, more, |msg: JsonView| request::message_user_texts(msg));
    assert(request::all_message_texts(msgs + more) == request::all_message_texts(msgs)
        + request::all_message_texts(more));
    assert(request::user_texts(later) =~= request::user_texts(body) + request::all_message_texts(
        more,
    ));
    assert(request::user_texts(later)[0] == request::user_texts(body)[0]);
}

/// The decimal digits of a number are digits, and there is at least one.
proof fn lemma_decimal_digits(n: nat)
    ensures
        text::decimal(n).len() > 0,
        forall|i: int|
            0 <= i < text::decimal(n).len() ==> '0' <= #[trigger] text::decimal(n)[i] <= '9',
    decreases n,
{
    if n >= 10 {
        lemma_decimal_digits(n / 10);
    }
}

/// Two numbers with the same digits are the same.
proof fn lemma_decimal_injective(a: nat, b: nat)
    requires
        text::decimal(a) == text::decimal(b),
    ensures
        a == b,
    decreases a,
{
    lemma_decimal_digits(a / 10);
    lemma_decimal_digits(b / 10);
    let da = text::decimal(a);
    let db = text::decimal(b);
    if a < 10 && b < 10 {
        assert(da[0] == text::digit(a));
        assert(db[0] == text::digit(b));
    } else if a < 10 {
        assert(db.len() == text::decimal(b / 10).len() + 1);
    } else if b < 10 {
        assert(da.len() == text::decimal(a / 10).len() + 1);
    } else {
        assert(da.drop_last() =~= text::decimal(a / 10));
        assert(db.drop_last() =~= text::decimal(b / 10));
        lemma_decimal_injective(a / 10, b / 10);
        assert(da.last() == text::digit(a % 10));
        assert(db.last() == text::digit(b % 10));
    }
}

/// Where two texts begin with digits and a colon and are equal, the numbers
/// and what follows are.
proof fn lemma_length_prefix(a: nat, x: Seq<char>, b: nat, y: Seq<char>)
    requires
        text::decimal(a) + ":"@ + x == text::decimal(b) + ":"@ + y,
    ensures
        a == b,
        x == y,
{
    reveal_strlit(":");
    lemma_decimal_digits(a);
    lemma_decimal_digits(b);
    let da = text::decimal(a);
    let db = text::decimal(b);
    let s = da + ":"@ + x;
    let t = db + ":"@ + y;
    assert(s[da.len() as int] == ':');
    assert(t[db.len() as int] == ':');
    if da.len() < db.len() {
        assert(t[da.len() as int] == db[da.len() as int]);
        assert(false);
    }
    if db.len() < da.len() {
        assert(s[db.len() as int] == da[db.len() as int]);
        assert(false);
    }
    assert(da =~= db) by {
        assert forall|i: int| 0 <= i < da.len() implies da[i] == db[i] by {
            assert(s[i] == da[i]);
            assert(t[i] == db[i]);
        }
    }
    lemma_decimal_injective(a, b);
    assert(x =~= s.skip(da.len() as int + 1));
    assert(y =~= t.skip(db.len() as int + 1));
}

/// The encoding of a text that goes on is longer.
proof fn lemma_encoding_grows(a: Seq<char>, c: Seq<char>)
    ensures
        encode_utf8(a + c).len() == encode_utf8(a).len() + encode_utf8(c).len(),
        c.len() > 0 ==> encode_utf8(c).len() > 0,
    decreases a.len(),
{
    if a.len() == 0 {
        assert(a + c =~= c);
    } else {
        assert((a + c).drop_first() =~= a.drop_first() + c);
        lemma_encoding_grows(a.drop_first(), c);
    }
}

/// Two texts of the same length in bytes that begin one text are the same.
proof fn lemma_same_length_prefix(a: Seq<char>, x: Seq<char>, b: Seq<char>, y: Seq<char>)
    requires
        a + x == b + y,
        encode_utf8(a).len() == encode_utf8(b).len(),
    ensures
        a == b,
        x == y,
{
    let s = a + x;
    if a.len() < b.len() {
        let c = b.skip(a.len() as int);
        assert(b =~= a + c) by {
            assert forall|i: int| 0 <= i < a.len() implies a[i] == b[i] by {
                assert(s[i] == a[i]);
                assert((b + y)[i] == b[i]);
            }
        }
        lemma_encoding_grows(a, c);
        assert(false);
    }
    if b.len() < a.len() {
        let c = a.skip(b.len() as int);
        assert(a =~= b + c) by {
            assert forall|i: int| 0 <= i < b.len() implies b[i] == a[i] by {
                assert(s[i] == a[i]);
                assert((b + y)[i] == b[i]);
            }
        }
        lemma_encoding_grows(b, c);
        assert(false);
    }
    assert(a =~= b) by {
        assert forall|i: int| 0 <= i < a.len() implies a[i] == b[i] by {
            assert(s[i] == a[i]);
            assert((b + y)[i] == b[i]);
        }
    }
    assert(x =~= s.skip(a.len() as int));
    assert(y =~= (b + y).skip(b.len() as int));
}

/// The parts of a head's text, grouped as they are read.
proof fn lemma_regroup(
    a: Seq<char>,
    b: Seq<char>,
    c: Seq<char>,
    d: Seq<char>,
    e: Seq<char>,
    f: Seq<char>,
    g: Seq<char>,
)
    ensures
        a + b + c + d + e + f + c + g == a + (b + c + (d + (e + (f + c + g)))),
{
    assert(a + b + c + d + e + f + c + g =~= a + (b + c + (d + (e + (f + c + g)))));
}

/// What follows one start is the same where the whole is.
proof fn lemma_same_start(a: Seq<char>, x: Seq<char>, y: Seq<char>)
    requires
        a + x == a + y,
    ensures
        x == y,
{
    assert(x =~= (a + x).skip(a.len() as int));
    assert(y =~= (a + y).skip(a.len() as int));
}

/// No two heads share the text that stands for them, whatever newlines or
/// labels they hold.
pub proof fn law_heads_do_not_collide(
    i1: Seq<char>,
    f1: Seq<char>,
    i2: Seq<char>,
    f2: Seq<char>,
)
    requires
        head_payload(i1, f1) == head_payload(i2, f2),
    ensures
        i1 == i2,
        f1 == f2,
{
    let start = "instructions:"@;
    let mid = "\nfirst_user:"@;
    let n1 = encode_utf8(i1).len();
    let n2 = encode_utf8(i2).len();
    let m1 = encode_utf8(f1).len();
    let m2 = encode_utf8(f2).len();
    let end1 = text::decimal(m1) + ":"@ + f1;
    let end2 = text::decimal(m2) + ":"@ + f2;
    lemma_regroup(start, text::decimal(n1), ":"@, i1, mid, text::decimal(m1), f1);
    lemma_regroup(start, text::decimal(n2), ":"@, i2, mid, text::decimal(m2), f2);
    lemma_same_start(
        start,
        text::decimal(n1) + ":"@ + (i1 + (mid + end1)),
        text::decimal(n2) + ":"@ + (i2 + (mid + end2)),
    );
    lemma_length_prefix(n1, i1 + (mid + end1), n2, i2 + (mid + end2));
    lemma_same_length_prefix(i1, mid + end1, i2, mid + end2);
    lemma_same_start(mid, end1, end2);
    lemma_length_prefix(m1, f1, m2, f2);
}

} // verus!
