//! Thumbnail naming: every source image's thumbnail is a WebP file named by the
//! SHA-256 of the image's path.

use vstd::prelude::*;
use sha2::{Digest, Sha256};
use crate::text::push_str;
use vstd::string::StringSliceAdditionalSpecFns;

verus! {

broadcast use vstd::string::group_string_axioms;

/// Longest side of a thumbnail, in pixels.
pub const THUMBNAIL_SIZE: u32 = 256;

/// The SHA-256 digest of a byte sequence.
pub uninterp spec fn sha256_digest(data: Seq<u8>) -> Seq<u8>;

/// The lowercase hexadecimal digit of a nibble.
pub open spec fn hex_digit(d: u8) -> char {
    if d < 10 { (48 + d) as char } else { (87 + d) as char }
}

/// Lowercase hexadecimal text of a byte sequence, two digits per byte, high nibble first.
pub open spec fn hex_lower(data: Seq<u8>) -> Seq<char>
    decreases data.len(),
{
    if data.len() == 0 {
        Seq::empty()
    } else {
        hex_lower(data.drop_last()) + seq![hex_digit(data.last() >> 4), hex_digit(data.last() & 0x0f)]
    }
}

/// `Sha256::digest` of the `sha2` crate. Claimed: the result is the SHA-256
/// digest of the input (named, not stated) and is 32 bytes long.
#[verifier::external_body]
fn sha256(data: &[u8]) -> (r: Vec<u8>)
    ensures
        r@ == sha256_digest(data@),
        r@.len() == 32,
{
    Sha256::digest(data).to_vec()
}

/// `hex::encode` of the `hex` crate: lowercase hexadecimal, two digits per byte.
#[verifier::external_body]
fn hex_encode(data: &[u8]) -> (r: String)
    ensures
        r@ == hex_lower(data@),
{
    hex::encode(data)
}

/// The thumbnail file name for a source image path: the lowercase hex SHA-256 of
/// the path's UTF-8 bytes, with the `.webp` extension.
pub fn thumbnail_file_name(source_path: &str) -> (r: String)
    ensures
        r@ == hex_lower(sha256_digest(source_path.spec_bytes())) + ".webp"@,
        r@.len() == 69,
{
    let digest = sha256(source_path.as_bytes());
    let mut name = hex_encode(digest.as_slice());
    proof {
        lemma_hex_len(digest@);
        reveal_strlit(".webp");
    }
    push_str(&mut name, ".webp");
    name
}

/// Hex text has two characters per byte.
pub proof fn lemma_hex_len(data: Seq<u8>)
    ensures
        hex_lower(data).len() == 2 * data.len(),
    decreases data.len(),
{
    if data.len() > 0 {
        lemma_hex_len(data.drop_last());
    }
}

} // verus!
