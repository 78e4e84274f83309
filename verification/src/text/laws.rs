//! What holds of text.
//!
//! The laws speak of the characters of a text and of their places.
use crate::text;
use vstd::prelude::*;

verus! {

/// Of the ASCII characters, white space is the space and what tabs, line feeds,
/// form feeds and carriage returns are; no letter, digit or mark is.
pub proof fn law_ascii_white_space(c: char)
    requires
        (c as u32) < 0x80,
    ensures
        text::is_space(c) <==> c == ' ' || c == '\t' || c == '\n' || c as u32 == 0x0b || c as u32
            == 0x0c || c == '\r',
{
}

/// The white space at the start of a text is cut off.
proof fn lemma_start(s: Seq<char>) -> (k: int)
    ensures
        0 <= k <= s.len(),
        text::trimmed_start(s) == s.skip(k),
        forall|i: int| 0 <= i < k ==> text::is_space(#[trigger] s[i]),
        k < s.len() ==> !text::is_space(s[k]),
    decreases s.len(),
{
    if s.len() > 0 && text::is_space(s[0]) {
        let rest = s.drop_first();
        let k = lemma_start(rest);
        assert(rest.skip(k) =~= s.skip(k + 1));
        assert forall|i: int| 0 <= i < k + 1 implies text::is_space(#[trigger] s[i]) by {
            if i > 0 {
                assert(rest[i - 1] == s[i]);
            }
        }
        if k + 1 < s.len() {
            assert(rest[k] == s[k + 1]);
        }
        k + 1
    } else {
        assert(s.skip(0) =~= s);
        0
    }
}

/// The white space at the end of a text is cut off.
proof fn lemma_end(s: Seq<char>) -> (k: int)
    ensures
        0 <= k <= s.len(),
        text::trimmed_end(s) == s.take(k),
        forall|i: int| k <= i < s.len() ==> text::is_space(#[trigger] s[i]),
        k > 0 ==> !text::is_space(s[k - 1]),
    decreases s.len(),
{
    if s.len() > 0 && text::is_space(s.last()) {
        let rest = s.drop_last();
        let k = lemma_end(rest);
        assert(rest.take(k) =~= s.take(k));
        assert forall|i: int| k <= i < s.len() implies text::is_space(#[trigger] s[i]) by {
            if i < s.len() - 1 {
                assert(rest[i] == s[i]);
            }
        }
        if k > 0 {
            assert(rest[k - 1] == s[k - 1]);
        }
        k
    } else {
        assert(s.take(s.len() as int) =~= s);
        s.len() as int
    }
}

/// `t` is what stands in `s` from one place to another, with nothing but white
/// space before and after it, and none at its own ends.
pub open spec fn is_core(s: Seq<char>, t: Seq<char>, from: int, to: int) -> bool {
    &&& 0 <= from <= to <= s.len()
    &&& t == s.subrange(from, to)
    &&& forall|i: int| 0 <= i < from ==> text::is_space(#[trigger] s[i])
    &&& forall|i: int| to <= i < s.len() ==> text::is_space(#[trigger] s[i])
    &&& t.len() > 0 ==> !text::is_space(t[0]) && !text::is_space(t[t.len() - 1])
}

/// Trimming takes the white space off both ends of a text, and nothing else.
pub proof fn law_trimming_takes_white_space_off(s: Seq<char>)
    ensures
        exists|from: int, to: int| is_core(s, text::trimmed(s), from, to),
{
    let a = lemma_start(s);
    let rest = s.skip(a);
    let b = lemma_end(rest);
    let t = text::trimmed(s);
    assert(t =~= s.subrange(a, a + b));
    assert forall|i: int| a + b <= i < s.len() implies text::is_space(#[trigger] s[i]) by {
        assert(rest[i - a] == s[i]);
    }
    if t.len() > 0 {
        assert(t[0] == s[a]);
        assert(rest[b - 1] == s[a + b - 1]);
        assert(t[t.len() - 1] == s[a + b - 1]);
    }
    assert(is_core(s, t, a, a + b));
}

/// Lower case changes the capitals of ASCII and keeps every other character in
/// its place.
pub proof fn law_lower_case(s: Seq<char>, i: int)
    requires
        0 <= i < s.len(),
    ensures
        text::lower(s).len() == s.len(),
        'A' <= s[i] <= 'Z' ==> text::lower(s)[i] as u32 == s[i] as u32 + ('a' as u32 - 'A' as u32),
        !('A' <= s[i] <= 'Z') ==> text::lower(s)[i] == s[i],
{
}

/// The parts of a text hold no separator, and with the separators between them
/// they are the text again.
pub proof fn law_parts_make_the_text(s: Seq<char>, c: char)
    ensures
        text::split(s, c).len() > 0,
        text::joined(text::split(s, c), seq![c]) == s,
        forall|i: int|
            0 <= i < text::split(s, c).len() ==> !(#[trigger] text::split(s, c)[i]).contains(c),
    decreases s.len(),
{
    let n = text::cut(s, c) as int;
    lemma_cut(s, c);
    let parts = text::split(s, c);
    if n >= s.len() {
        assert(s.take(n) =~= s);
        assert(parts =~= seq![s]);
    } else {
        let head = s.take(n);
        let rest = s.skip(n + 1);
        law_parts_make_the_text(rest, c);
        let more = text::split(rest, c);
        assert(parts == seq![head] + more);
        lemma_joined_head(head, more, seq![c]);
        assert(head + seq![c] + rest =~= s);
        assert forall|i: int| 0 <= i < parts.len() implies !(#[trigger] parts[i]).contains(c) by {
            if i > 0 {
                assert(parts[i] == more[i - 1]);
            }
        }
    }
}

/// What comes before the first separator holds none.
proof fn lemma_cut(s: Seq<char>, c: char)
    ensures
        text::cut(s, c) <= s.len(),
        !s.take(text::cut(s, c) as int).contains(c),
        text::cut(s, c) < s.len() ==> s[text::cut(s, c) as int] == c,
    decreases s.len(),
{
    if s.len() > 0 && s[0] != c {
        lemma_cut(s.skip(1), c);
        let n = text::cut(s, c) as int;
        let head = s.take(n);
        if head.contains(c) {
            let i = choose|i: int| 0 <= i < head.len() && head[i] == c;
            assert(s.skip(1).take(n - 1)[i - 1] == c);
        }
    }
}

/// The first part comes first.
proof fn lemma_joined_head(head: Seq<char>, more: Seq<Seq<char>>, sep: Seq<char>)
    requires
        more.len() > 0,
    ensures
        text::joined(seq![head] + more, sep) == head + sep + text::joined(more, sep),
    decreases more.len(),
{
    let all = seq![head] + more;
    if more.len() == 1 {
        assert(all.drop_last() =~= seq![head]);
        reveal_with_fuel(text::joined, 2);
    } else {
        lemma_joined_head(head, more.drop_last(), sep);
        assert(all.drop_last() =~= seq![head] + more.drop_last());
        assert(all.last() == more.last());
        let inner = text::joined(more.drop_last(), sep);
        assert(head + sep + inner + sep + more.last() =~= head + sep + (inner + sep
            + more.last()));
    }
}

/// The parts of a text before a separator come before the parts after it.
pub proof fn law_split_at_a_separator(a: Seq<char>, b: Seq<char>, c: char)
    requires
        !a.contains(c),
    ensures
        text::split(a + seq![c] + b, c) == seq![a] + text::split(b, c),
        text::split_first(a + seq![c] + b, c) == Some((a, b)),
        text::split_first(a, c) is None,
        text::split(a, c) == seq![a],
{
    let s = a + seq![c] + b;
    lemma_cut(s, c);
    lemma_cut(a, c);
    let n = text::cut(s, c) as int;
    assert(s[a.len() as int] == c);
    if n > a.len() {
        assert(s.take(n)[a.len() as int] == c);
    }
    if n < a.len() {
        assert(a[n] == c);
    }
    assert(n == a.len());
    assert(s.take(n) =~= a);
    assert(s.skip(n + 1) =~= b);
    if text::cut(a, c) < a.len() {
        assert(a.contains(a[text::cut(a, c) as int]));
    }
}

/// The digits of a number spell it.
pub proof fn law_digits_spell_the_number(n: nat)
    ensures
        text::decimal(n).len() > 0,
        forall|i: int|
            0 <= i < text::decimal(n).len() ==> '0' <= #[trigger] text::decimal(n)[i] <= '9',
        text::digits_value(text::decimal(n)) == n,
    decreases n,
{
    if n < 10 {
        let s = text::decimal(n);
        assert(s =~= seq![text::digit(n)]);
        assert(s.drop_last() =~= Seq::<char>::empty());
        reveal_with_fuel(text::digits_value, 2);
    } else {
        law_digits_spell_the_number(n / 10);
        let s = text::decimal(n);
        assert(s.drop_last() =~= text::decimal(n / 10));
        assert(s.last() == text::digit(n % 10));
        assert forall|i: int| 0 <= i < s.len() implies '0' <= #[trigger] s[i] <= '9' by {
            if i < s.len() - 1 {
                assert(s[i] == text::decimal(n / 10)[i]);
            }
        }
    }
}

/// A whole number is read back from its digits.
pub proof fn law_number_is_read_back(n: i64)
    ensures
        text::spelled_i64(text::signed_decimal(n as int)) == Some(n),
{
    let s = text::signed_decimal(n as int);
    let m: nat = if n < 0 {
        (-(n as int)) as nat
    } else {
        n as nat
    };
    law_digits_spell_the_number(m);
    let d = text::decimal(m);
    if n < 0 {
        assert(s.skip(1) =~= d);
    } else {
        assert(s == d);
        assert('0' <= d[0] <= '9');
    }
    assert(text::unsigned_part(s) == d);
    assert forall|i: int| 0 <= i < d.len() implies text::is_digit(#[trigger] d[i]) by {}
}

/// What stands in a text, at its start and at its end.
pub proof fn law_where_it_stands(a: Seq<char>, pat: Seq<char>, b: Seq<char>)
    ensures
        text::has(a + pat + b, pat),
        text::begins(pat + b, pat),
        text::ends(a + pat, pat),
        text::begins(b, pat) ==> b.len() >= pat.len() && b.take(pat.len() as int) == pat,
        text::ends(b, pat) ==> b.len() >= pat.len() && b.skip(b.len() - pat.len()) == pat,
{
    let s = a + pat + b;
    assert(s.subrange(a.len() as int, (a.len() + pat.len()) as int) =~= pat);
    assert(text::found_at(s, pat, a.len() as int));
    assert((pat + b).subrange(0, pat.len() as int) =~= pat);
    assert((a + pat).subrange(a.len() as int, (a.len() + pat.len()) as int) =~= pat);
    if text::begins(b, pat) {
        assert(b.take(pat.len() as int) =~= b.subrange(0, pat.len() as int));
    }
    if text::ends(b, pat) {
        assert(b.skip(b.len() - pat.len()) =~= b.subrange(b.len() - pat.len(), b.len() as int));
    }
}

/// Of the ends of a text that are cut off, none is left and nothing else goes.
pub proof fn law_ends_are_cut_off(s: Seq<char>, c: char)
    ensures
        text::without_last(s.push(c), c) == text::without_last(s, c),
        s.len() > 0 && s[s.len() - 1] != c ==> text::without_last(s, c) == s,
        text::without_last(Seq::empty(), c) == Seq::<char>::empty(),
{
    assert(s.push(c).drop_last() =~= s);
}

/// Where a text begins with the pattern, the replacement stands in its place and
/// the rest is replaced on its own; any other character is kept.
pub proof fn law_pattern_is_replaced(s: Seq<char>, pat: Seq<char>, to: Seq<char>)
    requires
        pat.len() > 0,
    ensures
        text::replaced(pat + s, pat, to) == to + text::replaced(s, pat, to),
        s.len() > 0 && !text::begins(s, pat) ==> text::replaced(s, pat, to) == seq![s[0]]
            + text::replaced(s.skip(1), pat, to),
        text::replaced(Seq::empty(), pat, to) == Seq::<char>::empty(),
{
    let all = pat + s;
    assert(all.subrange(0, pat.len() as int) =~= pat);
    assert(all.skip(pat.len() as int) =~= s);
}

} // verus!
