//! Where pins are kept.
use crate::affinity;
use vstd::prelude::*;

verus! {

/// A shared store keeps the pin of a conversation under its key with a prefix.
pub proof fn law_pin_is_kept_under_its_key(key: Seq<char>)
    ensures
        affinity::stored_under(key) == "conv:"@ + key,
{
}

} // verus!
