//! How members are found, set and written.
use super::JsonView;
use super::NumView;
use crate::json;
use crate::text;
use vstd::prelude::*;

verus! {

/// A member is what an object has under its key; nothing else has members.
pub proof fn law_member_is_found(v: JsonView, key: Seq<char>)
    ensures
        json::field(v, key) == (match v {
            JsonView::Object(m) => if m.dom().contains(key) {
                Some(m[key])
            } else {
                None
            },
            _ => None,
        }),
{
}

/// A member is a text, a list, an object or a truth value only where it is one
/// itself.
pub proof fn law_member_keeps_its_kind(
    v: JsonView,
    key: Seq<char>,
    t: Seq<char>,
    a: Seq<JsonView>,
    m: Map<Seq<char>, JsonView>,
    b: bool,
)
    ensures
        json::text_field(v, key) == Some(t) <==> json::field(v, key) == Some(JsonView::Text(t)),
        json::array_field(v, key) == Some(a) <==> json::field(v, key) == Some(JsonView::Array(a)),
        json::object_field(v, key) == Some(JsonView::Object(m)) <==> json::field(v, key) == Some(
            JsonView::Object(m),
        ),
        json::bool_field(v, key) == Some(b) <==> json::field(v, key) == Some(JsonView::Bool(b)),
{
}

/// A member that is set is found, one that is taken out is not, and the other
/// members stay.
pub proof fn law_set_member_is_found(
    v: JsonView,
    key: Seq<char>,
    x: JsonView,
    other: Seq<char>,
)
    requires
        v is Object,
    ensures
        json::field(json::with_field(v, key, x), other) == (if other == key {
            Some(x)
        } else {
            json::field(v, other)
        }),
        json::field(json::without_field(v, key), other) == (if other == key {
            None
        } else {
            json::field(v, other)
        }),
{
}

/// What is no object is not changed by setting a member or taking one out.
pub proof fn law_only_objects_have_members(v: JsonView, key: Seq<char>, x: JsonView)
    requires
        !(v is Object),
    ensures
        json::with_field(v, key, x) == v,
        json::without_field(v, key) == v,
{
}

/// A count is an integer in range; `null` is no count, and everything else is
/// refused.
pub proof fn law_counts_are_read(v: JsonView)
    ensures
        json::as_unsigned(v) == Ok::<Option<u64>, Seq<char>>(None) <==> v is Null,
        json::as_unsigned(v) matches Ok(Some(n)) ==> v == JsonView::Num(NumView::Int(n as int)),
        forall|n: u64|
            v == JsonView::Num(NumView::Int(n as int)) ==> #[trigger] json::as_unsigned(v) == Ok::<
                Option<u64>,
                Seq<char>,
            >(Some(n)),
        json::as_signed(v) == Ok::<Option<i64>, Seq<char>>(None) <==> v is Null,
        json::as_signed(v) matches Ok(Some(n)) ==> v == JsonView::Num(NumView::Int(n as int)),
        forall|n: i64|
            v == JsonView::Num(NumView::Int(n as int)) ==> #[trigger] json::as_signed(v) == Ok::<
                Option<i64>,
                Seq<char>,
            >(Some(n)),
{
}

/// A text is read as itself, and nothing else is read as a text.
pub proof fn law_texts_are_read(v: JsonView, t: Seq<char>)
    ensures
        json::as_text(v) == Ok::<Seq<char>, Seq<char>>(t) <==> v == JsonView::Text(t),
{
}

/// The members of an object are written in the order of the keys that are
/// listed.
pub proof fn law_members_keep_the_order(
    m: Map<Seq<char>, JsonView>,
    order: Seq<Seq<char>>,
    key: Seq<char>,
)
    ensures
        json::present(m, Seq::empty()) == Seq::<Seq<char>>::empty(),
        json::present(m, order.push(key)) == (if m.dom().contains(key) {
            json::present(m, order).push(key)
        } else {
            json::present(m, order)
        }),
{
    assert(order.push(key).drop_last() =~= order);
}

/// Every key that is listed is one of the object.
proof fn lemma_present(m: Map<Seq<char>, JsonView>, order: Seq<Seq<char>>)
    ensures
        forall|i: int|
            0 <= i < json::present(m, order).len() ==> m.dom().contains(
                #[trigger] json::present(m, order)[i],
            ),
    decreases order.len(),
{
    if order.len() > 0 {
        let before = json::present(m, order.drop_last());
        lemma_present(m, order.drop_last());
        assert forall|i: int| 0 <= i < json::present(m, order).len() implies m.dom().contains(
            #[trigger] json::present(m, order)[i],
        ) by {
            if i < before.len() {
                assert(json::present(m, order)[i] == before[i]);
            }
        }
    }
}

/// An object is written in braces, each member as its key, a colon and its value,
/// with commas between them.
pub proof fn law_object_is_written(m: Map<Seq<char>, JsonView>, order: Seq<Seq<char>>)
    requires
        m.dom().finite(),
    ensures
        json::ordered_text(JsonView::Object(m), order) == "{"@ + text::joined(
            Seq::new(
                json::present(m, order).len(),
                |i: int|
                    json::json_text(JsonView::Text(json::present(m, order)[i])) + ":"@
                        + json::ordered_text(m[json::present(m, order)[i]], order),
            ),
            ","@,
        ) + "}"@,
{
    lemma_present(m, order);
    let keys = json::present(m, order);
    assert(json::ordered_members(m, order) =~= Seq::new(
        keys.len(),
        |i: int|
            json::json_text(JsonView::Text(keys[i])) + ":"@ + json::ordered_text(m[keys[i]], order),
    ));
}

/// A list is written in brackets, its items in their order with commas between
/// them; everything else is written as it always is.
pub proof fn law_list_is_written(a: Seq<JsonView>, v: JsonView, order: Seq<Seq<char>>)
    ensures
        json::ordered_text(JsonView::Array(a), order) == "["@ + text::joined(
            Seq::new(a.len(), |i: int| json::ordered_text(a[i], order)),
            ","@,
        ) + "]"@,
        !(v is Array) && !(v is Object) ==> json::ordered_text(v, order) == json::json_text(v),
{
    assert(json::ordered_items(a, order) =~= Seq::new(
        a.len(),
        |i: int| json::ordered_text(a[i], order),
    ));
}

} // verus!
