//! Secret phrases and their verification digests.

use vstd::prelude::*;
use vstd::string::*;
use vstd::utf8::*;

verus! {

/// The SHA-256 digest of a byte string, as a sequence of bytes.
pub uninterp spec fn sha256(data: Seq<u8>) -> Seq<u8>;

/// Computes a SHA-256 digest with `sha2::Sha256::digest`.
///
/// Trusted: the 32 bytes returned are taken to be the SHA-256 digest of
/// `data`, which [`sha256`] names. Nothing else is assumed of them.
#[verifier::external_body]
fn sha256_digest(data: &[u8]) -> (out: [u8; 32])
    ensures
        out@ == sha256(data@),
{
    <sha2::Sha256 as sha2::Digest>::digest(data).into()
}

/// The sixteen digits of lowercase hexadecimal, in order of value.
pub open spec fn hex_alphabet() -> Seq<char> {
    "0123456789abcdef"@
}

/// Whether `c` is one of the sixteen lowercase hexadecimal digits.
pub open spec fn is_lower_hex(c: char) -> bool {
    ('0' <= c && c <= '9') || ('a' <= c && c <= 'f')
}

/// The lowercase hexadecimal rendering of `bytes`: two digits per byte,
/// the high half of each byte first.
pub open spec fn hex_lower(bytes: Seq<u8>) -> Seq<char> {
    Seq::new(
        2 * bytes.len(),
        |i: int|
            hex_alphabet()[if i % 2 == 0 {
                bytes[i / 2] as int / 16
            } else {
                bytes[i / 2] as int % 16
            }],
    )
}

/// The verification digest of a secret phrase: the SHA-256 digest of the
/// phrase's UTF-8 encoding, in lowercase hexadecimal.
pub open spec fn secret_digest(phrase: Seq<char>) -> Seq<char> {
    hex_lower(sha256(encode_utf8(phrase)))
}

/// Renders a digest in lowercase hexadecimal.
pub fn hex_encode(bytes: &[u8; 32]) -> (text: String)
    ensures
        text@ == hex_lower(bytes@),
        text@.len() == 64,
        forall|i: int| 0 <= i < 64 ==> is_lower_hex(#[trigger] text@[i]),
{
    let alphabet = "0123456789abcdef";
    proof {
        reveal_strlit("0123456789abcdef");
    }
    let mut text = String::new();
    let mut i: usize = 0;
    while i < 32
        invariant
            i <= 32,
            alphabet@ == hex_alphabet(),
            alphabet@.len() == 16,
            alphabet.is_ascii(),
            text@ == hex_lower(bytes@.take(i as int)),
            forall|j: int| 0 <= j < 16 ==> is_lower_hex(#[trigger] alphabet@[j]),
        decreases 32 - i,
    {
        let byte = bytes[i];
        let high: usize = (byte / 16) as usize;
        let low: usize = (byte % 16) as usize;
        let ghost before = text@;
        text.append(alphabet.substring_ascii(high, high + 1));
        text.append(alphabet.substring_ascii(low, low + 1));
        i += 1;
        assert(text@ =~= hex_lower(bytes@.take(i as int)));
    }
    assert(bytes@.take(32) =~= bytes@);
    text
}

/// Derives the verification digest of a secret phrase.
///
/// The digest depends on the phrase alone, has 64 characters, and holds
/// nothing but lowercase hexadecimal digits.
pub fn hash_secret_phrase(phrase: &str) -> (digest: String)
    ensures
        digest@ == secret_digest(phrase@),
        digest@.len() == 64,
        forall|i: int| 0 <= i < 64 ==> is_lower_hex(#[trigger] digest@[i]),
{
    let raw = sha256_digest(phrase.as_bytes());
    hex_encode(&raw)
}

/// Whether `secret_phrase` has the digest `stored_digest`.
pub fn verify_secret_phrase(secret_phrase: &str, stored_digest: &str) -> (verified: bool)
    ensures
        verified == (secret_digest(secret_phrase@) == stored_digest@),
{
    let digest = hash_secret_phrase(secret_phrase);
    let stored = stored_digest.to_owned();
    digest == stored
}

} // verus!
