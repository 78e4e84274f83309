//! Identifiers derived from content.
use sha2::{Digest, Sha256};
use vstd::prelude::*;
use vstd::utf8::encode_utf8;

pub mod laws;

verus! {

/// The SHA-256 digest of `bytes`, as `sha2::Sha256::digest` computes it.
pub uninterp spec fn sha256(bytes: Seq<u8>) -> Seq<u8>;

/// `sha2::Sha256::digest`: the 32 bytes of the digest.
#[verifier::external_body]
fn sha256_digest(bytes: &[u8]) -> (r: Vec<u8>)
    ensures
        r@ == sha256(bytes@),
        r@.len() == 32,
{
    Sha256::digest(bytes).to_vec()
}

/// The lower-case hexadecimal digit of `n`.
pub open spec fn hex_digit(n: int) -> char {
    if n < 10 {
        ('0' as u32 + n) as char
    } else {
        ('a' as u32 + (n - 10)) as char
    }
}

/// Two lower-case hexadecimal digits for each byte.
pub open spec fn hex(b: Seq<u8>) -> Seq<char> {
    Seq::new(
        b.len() * 2,
        |i: int|
            hex_digit(
                if i % 2 == 0 {
                    b[i / 2] as int / 16
                } else {
                    b[i / 2] as int % 16
                },
            ),
    )
}

/// Sixteen bytes marked as a version-5 UUID of the RFC 4122 variant.
pub open spec fn uuid_v5_bytes(b: Seq<u8>) -> Seq<u8> {
    b.update(6, (b[6] & 0x0f) | 0x50).update(8, (b[8] & 0x3f) | 0x80)
}

/// The hyphenated lower-case text of sixteen bytes.
pub open spec fn uuid_text(b: Seq<u8>) -> Seq<char> {
    hex(b.subrange(0, 4)) + seq!['-'] + hex(b.subrange(4, 6)) + seq!['-'] + hex(b.subrange(6, 8))
        + seq!['-'] + hex(b.subrange(8, 10)) + seq!['-'] + hex(b.subrange(10, 16))
}

/// `uuid::Builder::from_sha1_bytes(bytes).into_uuid().to_string()`: the bytes
/// marked as version 5 of the RFC 4122 variant, as hyphenated lower-case text.
#[verifier::external_body]
fn uuid_v5_text(bytes: [u8; 16]) -> (r: String)
    ensures
        r@ == uuid_text(uuid_v5_bytes(bytes@)),
{
    uuid::Builder::from_sha1_bytes(bytes).into_uuid().to_string()
}

/// The UUID of a digest: its first half in version-5 form.
pub open spec fn digest_uuid(digest: Seq<u8>) -> Seq<char> {
    uuid_text(uuid_v5_bytes(digest.take(16)))
}

/// The UUID that stands for a text: that of its SHA-256 digest.
pub open spec fn text_uuid(s: Seq<char>) -> Seq<char> {
    digest_uuid(sha256(encode_utf8(s)))
}

/// The UUID of a digest.
pub fn format_uuid(digest: &Vec<u8>) -> (r: String)
    requires
        digest@.len() >= 16,
    ensures
        r@ == digest_uuid(digest@),
        r@.len() == 36,
{
    let mut bytes: [u8; 16] = [0u8; 16];
    let mut i: usize = 0;
    while i < 16
        invariant
            i <= 16,
            digest@.len() >= 16,
            forall|j: int| 0 <= j < i ==> bytes@[j] == digest@[j],
        decreases 16 - i,
    {
        bytes[i] = digest[i];
        i += 1;
    }
    proof {
        assert(bytes@ =~= digest@.take(16));
    }
    uuid_v5_text(bytes)
}

/// The UUID that stands for `payload`.
pub fn hash_to_uuid(payload: &str) -> (r: String)
    ensures
        r@ == text_uuid(payload@),
        r@.len() == 36,
{
    format_uuid(&sha256_digest(payload.as_bytes()))
}

} // verus!
