//! Checksums of contents.
//!
//! The checksum is MD5, computed by the crate `md-5`. Verus does not look
//! into that crate: this module names the checksum of a sequence of bytes,
//! and believes that the call returns it.

use md5::Digest;
use vstd::prelude::*;

verus! {

/// The MD5 checksum of a sequence of bytes, in lower-case hexadecimal digits.
pub uninterp spec fn md5_hex(bytes: Seq<u8>) -> Seq<char>;

/// `md5::Md5::digest`, formatted in lower-case hexadecimal digits: the MD5
/// checksum of the bytes.
#[verifier::external_body]
pub(crate) fn md5_hex_digest(bytes: &[u8]) -> (res: String)
    ensures
        res@ == md5_hex(bytes@),
{
    format!("{:x}", md5::Md5::digest(bytes))
}

} // verus!
