//! How headers are looked up and set.
use super::HeaderView;
use crate::headers;
use vstd::prelude::*;

verus! {

/// Of several headers with a name the first counts.
pub proof fn law_first_header_counts(h: HeaderView, s: Seq<HeaderView>, name: Seq<char>)
    ensures
        headers::first_value(Seq::empty(), name) is None,
        headers::first_value(seq![h] + s, name) == (if h.name == name {
            Some(h.value)
        } else {
            headers::first_value(s, name)
        }),
{
    assert((seq![h] + s).skip(1) =~= s);
}

/// A value is text where each of its bytes is visible ASCII, a space or a tab;
/// the text has a character for each byte.
pub proof fn law_visible_value_is_text(v: Seq<u8>)
    ensures
        headers::value_text(v) is Some <==> forall|i: int|
            0 <= i < v.len() ==> ' ' as u8 <= #[trigger] v[i] <= '~' as u8 || v[i] == '\t' as u8,
        headers::value_text(v) matches Some(t) ==> t.len() == v.len() && forall|i: int|
            0 <= i < v.len() ==> #[trigger] t[i] as u32 == v[i] as u32,
{
    assert(forall|i: int|
        0 <= i < v.len() ==> (headers::is_visible(#[trigger] v[i]) <==> (' ' as u8 <= v[i] <= '~'
            as u8 || v[i] == '\t' as u8)));
}

/// The text of a header is the text of its first value.
pub proof fn law_header_text(s: Seq<HeaderView>, name: Seq<char>)
    ensures
        headers::first_text(s, name) == (match headers::first_value(s, name) {
            Some(v) => headers::value_text(v),
            None => None,
        }),
{
}

/// A header that is set has this value and no other; headers of other names stay
/// as they are.
pub proof fn law_set_header_is_found(
    s: Seq<HeaderView>,
    name: Seq<char>,
    value: Seq<u8>,
    other: Seq<char>,
)
    ensures
        headers::first_value(headers::with_value(s, name, value), other) == (if other == name {
            Some(value)
        } else {
            headers::first_value(s, other)
        }),
    decreases s.len(),
{
    reveal(Seq::filter);
    let keep = |h: HeaderView| h.name != name;
    let last = HeaderView { name, value };
    if s.len() == 0 {
        assert(s =~= Seq::<HeaderView>::empty());
        assert(s.filter(keep) =~= Seq::<HeaderView>::empty());
        let one = Seq::<HeaderView>::empty().push(last);
        assert(one =~= seq![last] + Seq::<HeaderView>::empty());
        law_first_header_counts(last, Seq::empty(), other);
        assert(headers::with_value(s, name, value) =~= one);
    } else {
        let rest = s.skip(1);
        law_set_header_is_found(rest, name, value, other);
        assert(s =~= seq![s[0]] + rest);
        Seq::filter_distributes_over_add(seq![s[0]], rest, keep);
        assert(seq![s[0]].drop_last() =~= Seq::<HeaderView>::empty());
        assert(Seq::<HeaderView>::empty().filter(keep) =~= Seq::<HeaderView>::empty());
        law_first_header_counts(s[0], rest, other);
        if keep(s[0]) {
            assert(seq![s[0]].filter(keep) =~= seq![s[0]]);
            assert(headers::with_value(s, name, value) =~= seq![s[0]] + headers::with_value(
                rest,
                name,
                value,
            ));
            law_first_header_counts(s[0], headers::with_value(rest, name, value), other);
        } else {
            assert(seq![s[0]].filter(keep) =~= Seq::<HeaderView>::empty());
            assert(headers::with_value(s, name, value) =~= headers::with_value(rest, name, value));
        }
    }
}

} // verus!
