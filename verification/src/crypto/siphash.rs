//! SipHash-2-4 with a 128-bit key and a 64-bit result.

use vstd::prelude::*;

verus! {

/// What `siphasher::sip::SipHasher24`, made with `new_with_key(key)`, returns from
/// `hash(data)`.
pub uninterp spec fn siphash24(key: Seq<u8>, data: Seq<u8>) -> u64;

/// SipHash-2-4 of `data` under a 16-byte key, as `siphasher::sip::SipHasher24` computes it.
///
/// Trusted: the result of `SipHasher24::new_with_key(key).hash(data)` depends on the key
/// bytes and the data bytes alone. Nothing else is claimed of it.
#[verifier::external_body]
pub fn siphash_2_4(key: &[u8; 16], data: &[u8]) -> (hash: u64)
    ensures
        hash == siphash24(key@, data@),
{
    siphasher::sip::SipHasher24::new_with_key(key).hash(data)
}

} // verus!
