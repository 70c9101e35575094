use vstd::prelude::*;
use crypto::digest::Digest;
use crypto::md5::Md5;

verus! {

/// The MD5 digest of a text's UTF-8 bytes, written as lowercase hexadecimal.
pub uninterp spec fn md5_hex(s: Seq<char>) -> Seq<char>;

pub open spec fn is_lower_hex(c: char) -> bool {
    ('0' <= c && c <= '9') || ('a' <= c && c <= 'f')
}

/// A digest as the hasher writes it: 32 lowercase hexadecimal digits.
pub open spec fn is_hex_digest(s: Seq<char>) -> bool {
    &&& s.len() == 32
    &&& forall|i: int| 0 <= i < s.len() ==> is_lower_hex(#[trigger] s[i])
}

/// Relies on rust-crypto's Md5 (`input_str`, then `result_str`): the 128-bit
/// digest of the text's bytes, hex-encoded with the digits `0-9a-f`.
#[verifier::external_body]
fn md5_sum(data: &str) -> (r: String)
    ensures
        r@ == md5_hex(data@),
        is_hex_digest(r@),
{
    let mut hasher = Md5::new();
    hasher.input_str(data);
    hasher.result_str()
}

/// The digest used both for file content and for the check field of a name.
pub fn digest(data: &str) -> (r: String)
    ensures
        r@ == md5_hex(data@),
        is_hex_digest(r@),
{
    md5_sum(data)
}

} // verus!
