use vstd::prelude::*;
use md5::Digest;

verus! {

/// The md5 digest of some bytes, written as lowercase hexadecimal.
pub uninterp spec fn md5_hex_of(bytes: Seq<u8>) -> Seq<char>;

pub open spec fn is_lower_hex(c: char) -> bool {
    ('0' <= c <= '9') || ('a' <= c <= 'f')
}

/// A content hash: 32 lowercase hexadecimal digits.
pub open spec fn is_content_hash(s: Seq<char>) -> bool {
    s.len() == 32 && forall|i: int| 0 <= i < s.len() ==> is_lower_hex(#[trigger] s[i])
}

/// Relies on md-5's `Md5::digest`, whose output is sixteen bytes, and on
/// generic-array's `LowerHex`, which writes each byte as two digits of `0-9a-f`.
#[verifier::external_body]
fn md5_lower_hex(bytes: &[u8]) -> (r: String)
    ensures
        r@ == md5_hex_of(bytes@),
        is_content_hash(r@),
{
    format!("{:x}", md5::Md5::digest(bytes))
}

/// The content hash of a beatmap file: md5 over its raw bytes, lowercase hex.
pub fn content_hash(bytes: &Vec<u8>) -> (r: String)
    ensures
        r@ == md5_hex_of(bytes@),
        is_content_hash(r@),
{
    md5_lower_hex(bytes.as_slice())
}

} // verus!
