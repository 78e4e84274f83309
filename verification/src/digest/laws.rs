//! What a UUID shows of a digest.
use crate::digest;
use vstd::prelude::*;
use vstd::utf8::encode_utf8;

verus! {

/// The UUID of a text is the first half of the digest of its bytes, with the
/// marks of version five.
pub proof fn law_uuid_shows_the_first_half(s: Seq<char>, digest: Seq<u8>)
    ensures
        digest::text_uuid(s) == digest::uuid_text(
            digest::uuid_v5_bytes(digest::sha256(encode_utf8(s)).subrange(0, 16)),
        ),
        digest::digest_uuid(digest) == digest::uuid_text(
            digest::uuid_v5_bytes(digest.subrange(0, 16)),
        ),
{
    assert(digest.take(16) =~= digest.subrange(0, 16));
    let d = digest::sha256(encode_utf8(s));
    assert(d.take(16) =~= d.subrange(0, 16));
}

/// A byte shows as two hexadecimal digits in lower case.
pub proof fn law_byte_shows_as_two_digits(b: Seq<u8>, i: int)
    requires
        0 <= i < b.len(),
    ensures
        digest::hex(b).len() == 2 * b.len(),
        digest::hex(b)[2 * i] == "0123456789abcdef"@[b[i] as int / 16],
        digest::hex(b)[2 * i + 1] == "0123456789abcdef"@[b[i] as int % 16],
{
    reveal_strlit("0123456789abcdef");
    lemma_digit(b[i] as int / 16);
    lemma_digit(b[i] as int % 16);
    assert((2 * i) % 2 == 0 && (2 * i) / 2 == i);
    assert((2 * i + 1) % 2 == 1 && (2 * i + 1) / 2 == i);
}

proof fn lemma_digit(n: int)
    requires
        0 <= n < 16,
    ensures
        digest::hex_digit(n) == "0123456789abcdef"@[n],
{
    reveal_strlit("0123456789abcdef");
    assert(n == 0 || n == 1 || n == 2 || n == 3 || n == 4 || n == 5 || n == 6 || n == 7 || n == 8
        || n == 9 || n == 10 || n == 11 || n == 12 || n == 13 || n == 14 || n == 15);
}

} // verus!
