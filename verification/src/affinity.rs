//! Which account a conversation is pinned to.
//!
//! Every turn of a conversation is to reach the same account. A store of pins
//! is best effort: one that fails shows no pin, and the next turn picks an
//! account anew.
use vstd::hash_map::StringHashMap;
use vstd::prelude::*;

pub mod laws;

verus! {

/// What a conversation is pinned to. The model is kept for the record and does
/// not steer the routing.
#[derive(Debug)]
pub struct Pin {
    pub slug: String,
    pub model: String,
}

/// A pin in mathematical form.
pub struct PinView {
    pub slug: Seq<char>,
    pub model: Seq<char>,
}

impl Pin {
    /// The pin in mathematical form.
    pub open spec fn view(&self) -> PinView {
        PinView { slug: self.slug@, model: self.model@ }
    }
}

impl Clone for Pin {
    fn clone(&self) -> (r: Self)
        ensures
            r@ == self@,
    {
        Pin { slug: self.slug.as_str().to_owned(), model: self.model.as_str().to_owned() }
    }
}

/// A store of pins. It never fails: what goes wrong behind it is swallowed.
pub trait AffinityStore {
    /// The pin of a conversation; `None` where it has none or the store cannot
    /// tell.
    fn get(&self, conversation_key: &str) -> Option<Pin>;

    /// Pins a conversation.
    fn put(&mut self, conversation_key: &str, pin: &Pin);

    /// Drops the pin of a conversation.
    fn clear(&mut self, conversation_key: &str);
}

/// The key under which a shared store keeps the pin of a conversation.
pub open spec fn stored_under(conversation_key: Seq<char>) -> Seq<char> {
    "conv:"@ + conversation_key
}

/// The key under which a shared store keeps the pin of a conversation.
pub fn redis_key(conversation_key: &str) -> (r: String)
    ensures
        r@ == stored_under(conversation_key@),
{
    let mut out: String = "conv:".to_owned();
    out.append(conversation_key);
    out
}

/// A store in memory, for one process.
pub struct InMemoryAffinityStore {
    pub map: StringHashMap<Pin>,
}

/// The pins of a store.
pub open spec fn pins(m: Map<Seq<char>, Pin>) -> Map<Seq<char>, PinView> {
    m.map_values(|p: Pin| p@)
}

impl InMemoryAffinityStore {
    /// The pins by conversation.
    pub open spec fn view(&self) -> Map<Seq<char>, PinView> {
        pins(self.map@)
    }

    /// A store without pins.
    pub fn new() -> (r: Self)
        ensures
            r@ == Map::<Seq<char>, PinView>::empty(),
    {
        let r = InMemoryAffinityStore { map: StringHashMap::new() };
        proof {
            assert(r@ =~= Map::<Seq<char>, PinView>::empty());
        }
        r
    }
}

impl Default for InMemoryAffinityStore {
    fn default() -> (r: Self)
        ensures
            r@ == Map::<Seq<char>, PinView>::empty(),
    {
        InMemoryAffinityStore::new()
    }
}

/// The pin of a conversation, if it has one.
pub open spec fn pin_of(m: Map<Seq<char>, PinView>, key: Seq<char>) -> Option<PinView> {
    if m.dom().contains(key) {
        Some(m[key])
    } else {
        None
    }
}

impl AffinityStore for InMemoryAffinityStore {
    fn get(&self, conversation_key: &str) -> (r: Option<Pin>)
        ensures
            match r {
                Some(p) => pin_of(self@, conversation_key@) == Some(p@),
                None => pin_of(self@, conversation_key@) is None,
            },
    {
        match self.map.get(conversation_key) {
            Some(p) => Some(p.clone()),
            None => None,
        }
    }

    fn put(&mut self, conversation_key: &str, pin: &Pin)
        ensures
            final(self)@ == old(self)@.insert(conversation_key@, pin@),
    {
        let ghost before = self@;
        let copy = pin.clone();
        self.map.insert(conversation_key.to_owned(), copy);
        proof {
            assert(self@ =~= before.insert(conversation_key@, pin@));
        }
    }

    fn clear(&mut self, conversation_key: &str)
        ensures
            final(self)@ == old(self)@.remove(conversation_key@),
    {
        let ghost before = self@;
        self.map.remove(conversation_key);
        proof {
            assert(self@ =~= before.remove(conversation_key@));
        }
    }
}

/// A conversation that was pinned has that pin, and the others keep theirs.
pub proof fn law_pin_is_found(m: Map<Seq<char>, PinView>, key: Seq<char>, pin: PinView, other: Seq<char>)
    ensures
        pin_of(m.insert(key, pin), key) == Some(pin),
        other != key ==> pin_of(m.insert(key, pin), other) == pin_of(m, other),
{
}

/// A conversation whose pin was dropped has none, and the others keep theirs.
pub proof fn law_dropped_pin_is_gone(m: Map<Seq<char>, PinView>, key: Seq<char>, other: Seq<char>)
    ensures
        pin_of(m.remove(key), key) is None,
        other != key ==> pin_of(m.remove(key), other) == pin_of(m, other),
{
}

/// No two conversations share a place in a shared store.
pub proof fn law_stored_apart(a: Seq<char>, b: Seq<char>)
    requires
        stored_under(a) == stored_under(b),
    ensures
        a == b,
{
    assert(a =~= stored_under(a).skip("conv:"@.len() as int));
    assert(b =~= stored_under(b).skip("conv:"@.len() as int));
}

} // verus!
