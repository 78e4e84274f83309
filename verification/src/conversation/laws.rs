//! How a conversation is told from others.
//!
//! The laws speak of the header and of the texts that make the key.
use super::KeySource;
use crate::conversation;
use crate::digest;
use crate::headers;
use crate::headers::HeaderView;
use crate::json;
use crate::json::JsonView;
use crate::request;
use crate::text;
use vstd::prelude::*;
use vstd::utf8::encode_utf8;

verus! {

/// A text that can name a conversation: at most so many bytes, with no control
/// character among them.
pub open spec fn can_name(t: Seq<char>) -> bool {
    &&& 0 < encode_utf8(t).len() <= 256
    &&& t.len() > 0
    &&& forall|i: int|
        0 <= i < t.len() ==> !((#[trigger] t[i] as u32) < 0x20 || 0x7f <= t[i] as u32 <= 0x9f)
}

/// The name that a client gave its conversation.
pub open spec fn given_name(h: Seq<HeaderView>) -> Option<Seq<char>> {
    match headers::first_text(h, "x-conversation-id"@) {
        Some(v) => if can_name(text::trimmed(v)) {
            Some(text::trimmed(v))
        } else {
            None
        },
        None => None,
    }
}

/// A conversation that the client names has that name for its key, whatever is
/// said in it.
pub proof fn law_given_name_is_the_key(h: Seq<HeaderView>, body: JsonView, name: Seq<char>)
    requires
        given_name(h) == Some(name),
    ensures
        conversation::conversation_key(h, body) == Some((name, KeySource::Explicit)),
{
    lemma_valid(name);
}

/// The conditions on a name.
proof fn lemma_valid(t: Seq<char>)
    ensures
        conversation::is_valid_key(t) <==> can_name(t),
{
    if t.len() > 0 {
        vstd::utf8::encode_utf8_first_scalar(t);
    }
    if can_name(t) {
        assert(forall|i: int| 0 <= i < t.len() ==> !conversation::is_control(#[trigger] t[i]));
    }
    if conversation::is_valid_key(t) {
        assert(forall|i: int| 0 <= i < t.len() ==> !conversation::is_control(#[trigger] t[i]));
    }
}

/// The key of any other conversation is the UUID of its head: the text of its
/// system messages and what the user said first, each after its length in bytes.
/// A conversation without either has no key.
pub proof fn law_head_is_the_key(h: Seq<HeaderView>, body: JsonView)
    requires
        given_name(h) is None,
    ensures
        ({
            let system = text::trimmed(request::request_instructions(body));
            let user = text::trimmed(request::first_user_text(body));
            let head = "instructions:"@ + text::decimal(encode_utf8(system).len()) + ":"@ + system
                + "\nfirst_user:"@ + text::decimal(encode_utf8(user).len()) + ":"@ + user;
            conversation::conversation_key(h, body) == (if system.len() == 0 && user.len() == 0 {
                None
            } else {
                Some((digest::text_uuid(head), KeySource::HeadHash))
            })
        }),
{
    match headers::first_text(h, "x-conversation-id"@) {
        Some(v) => {
            lemma_valid(text::trimmed(v));
        },
        None => {},
    }
}

} // verus!
