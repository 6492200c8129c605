use vstd::prelude::*;
use sha2::{Digest, Sha256};

verus! {

/// The SHA-256 digest of the UTF-8 encoding of `text`, in lower-case hexadecimal.
pub uninterp spec fn sha256_hex(text: Seq<char>) -> Seq<char>;

/// Relies on `sha2::Sha256::digest` over the UTF-8 bytes of `code`, printed with
/// the lower-hex format of its output array.
#[verifier::external_body]
pub fn content_hash(code: &str) -> (r: String)
    ensures
        r@ == sha256_hex(code@),
{
    format!("{:x}", Sha256::digest(code.as_bytes()))
}

} // verus!
