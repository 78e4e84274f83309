//! What holds of byte strings.
//!
//! The laws speak of the bytes of a string and of their places.
use crate::bytes;
use vstd::prelude::*;

verus! {

/// The white space of ASCII is the space, the tab, the newline, the form feed
/// and the carriage return.
pub proof fn law_ascii_white_space(b: u8)
    ensures
        bytes::is_ascii_space(b) <==> b == ' ' as u8 || b == '\t' as u8 || b == '\n' as u8 || b
            == 0x0c || b == '\r' as u8,
{
}

/// The white space at the start of a string is cut off.
proof fn lemma_start(s: Seq<u8>) -> (k: int)
    ensures
        0 <= k <= s.len(),
        bytes::trimmed_start(s) == s.skip(k),
        forall|i: int| 0 <= i < k ==> bytes::is_ascii_space(#[trigger] s[i]),
        k < s.len() ==> !bytes::is_ascii_space(s[k]),
    decreases s.len(),
{
    if s.len() > 0 && bytes::is_ascii_space(s[0]) {
        let rest = s.drop_first();
        let k = lemma_start(rest);
        assert(rest.skip(k) =~= s.skip(k + 1));
        assert forall|i: int| 0 <= i < k + 1 implies bytes::is_ascii_space(#[trigger] s[i]) by {
            if i > 0 {
                assert(rest[i - 1] == s[i]);
            }
        }
        if k + 1 < s.len() {
            assert(rest[k] == s[k + 1]);
        }
        k + 1
    } else {
        assert(s.skip(0) =~= s);
        0
    }
}

/// The white space at the end of a string is cut off.
proof fn lemma_end(s: Seq<u8>) -> (k: int)
    ensures
        0 <= k <= s.len(),
        bytes::trimmed_end(s) == s.take(k),
        forall|i: int| k <= i < s.len() ==> bytes::is_ascii_space(#[trigger] s[i]),
        k > 0 ==> !bytes::is_ascii_space(s[k - 1]),
    decreases s.len(),
{
    if s.len() > 0 && bytes::is_ascii_space(s.last()) {
        let rest = s.drop_last();
        let k = lemma_end(rest);
        assert(rest.take(k) =~= s.take(k));
        assert forall|i: int| k <= i < s.len() implies bytes::is_ascii_space(#[trigger] s[i]) by {
            if i < s.len() - 1 {
                assert(rest[i] == s[i]);
            }
        }
        if k > 0 {
            assert(rest[k - 1] == s[k - 1]);
        }
        k
    } else {
        assert(s.take(s.len() as int) =~= s);
        s.len() as int
    }
}

/// `t` is what stands in `s` from one place to another, with nothing but white
/// space before and after it, and none at its own ends.
pub open spec fn is_core(s: Seq<u8>, t: Seq<u8>, from: int, to: int) -> bool {
    &&& 0 <= from <= to <= s.len()
    &&& t == s.subrange(from, to)
    &&& forall|i: int| 0 <= i < from ==> bytes::is_ascii_space(#[trigger] s[i])
    &&& forall|i: int| to <= i < s.len() ==> bytes::is_ascii_space(#[trigger] s[i])
    &&& t.len() > 0 ==> !bytes::is_ascii_space(t[0]) && !bytes::is_ascii_space(t[t.len() - 1])
}

/// Trimming takes the white space off both ends of a string, and nothing else.
pub proof fn law_trimming_takes_white_space_off(s: Seq<u8>)
    ensures
        exists|from: int, to: int| is_core(s, bytes::trimmed(s), from, to),
{
    let a = lemma_start(s);
    let rest = s.skip(a);
    let b = lemma_end(rest);
    let t = bytes::trimmed(s);
    assert(t =~= s.subrange(a, a + b));
    assert forall|i: int| a + b <= i < s.len() implies bytes::is_ascii_space(#[trigger] s[i]) by {
        assert(rest[i - a] == s[i]);
    }
    if t.len() > 0 {
        assert(t[0] == s[a]);
        assert(rest[b - 1] == s[a + b - 1]);
        assert(t[t.len() - 1] == s[a + b - 1]);
    }
    assert(is_core(s, t, a, a + b));
}

/// A string of white space is trimmed to nothing.
pub proof fn law_blank_string_is_trimmed_away(s: Seq<u8>)
    requires
        forall|i: int| 0 <= i < s.len() ==> bytes::is_ascii_space(#[trigger] s[i]),
    ensures
        bytes::trimmed(s).len() == 0,
{
    let k = lemma_start(s);
    assert(bytes::trimmed_start(s).len() == 0);
}

/// Lines are joined in their order, with one newline between two of them.
pub proof fn law_lines_are_joined(lines: Seq<Seq<u8>>, line: Seq<u8>)
    ensures
        bytes::joined(Seq::empty()) == Seq::<u8>::empty(),
        bytes::joined(lines.push(line)) == (if lines.len() == 0 {
            line
        } else {
            bytes::joined(lines) + seq!['\n' as u8] + line
        }),
{
    assert(lines.push(line).drop_last() =~= lines);
    let head = bytes::joined(lines);
    assert(head.push(10) =~= head + seq!['\n' as u8]);
}

/// A string has what stands in it.
pub proof fn law_where_it_stands(a: Seq<u8>, pat: Seq<u8>, b: Seq<u8>)
    ensures
        bytes::has(a + pat + b, pat),
{
    let s = a + pat + b;
    assert(s.subrange(a.len() as int, (a.len() + pat.len()) as int) =~= pat);
    assert(bytes::found_at(s, pat, a.len() as int));
}

} // verus!
