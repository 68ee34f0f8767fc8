//! The header integrity tag: the first sigma bytes of an HMAC-SHA-256 over an
//! encrypted routing buffer.

use vstd::prelude::*;

use crate::bytes::{lemma_padded_to_id, subrange_vec};
use crate::constants::HEADER_INTEGRITY_MAC_SIZE;
use crate::crypto::{compute_keyed_hmac, hmac32, hmac_sha256_tag};

verus! {

/// The tag that every header layer carries over its encrypted routing
/// information.
pub open spec fn header_mac_spec(key: Seq<u8>, data: Seq<u8>) -> Seq<u8> {
    hmac32(key, data).take(HEADER_INTEGRITY_MAC_SIZE as int)
}

/// A header integrity tag of exactly sigma bytes.
#[derive(Clone)]
pub struct HeaderIntegrityMac {
    pub value: Vec<u8>,
}

impl HeaderIntegrityMac {
    /// The tag has its fixed size.
    pub open spec fn wf(&self) -> bool {
        self.value@.len() == HEADER_INTEGRITY_MAC_SIZE
    }

    /// Computes the tag of `data` under `key`: HMAC-SHA-256, truncated to
    /// sigma bytes.
    pub fn compute(key: &Vec<u8>, data: &Vec<u8>) -> (r: Self)
        ensures
            r.value@ == header_mac_spec(key@, data@),
            r.wf(),
    {
        let full_tag = compute_keyed_hmac(key, data);
        proof {
            lemma_padded_to_id(hmac_sha256_tag(key@, data@), 32);
        }
        let truncated = subrange_vec(&full_tag, 0, HEADER_INTEGRITY_MAC_SIZE);
        assert(truncated@ =~= header_mac_spec(key@, data@));
        HeaderIntegrityMac { value: truncated }
    }

    /// The tag's bytes.
    pub fn get_value(self) -> (r: Vec<u8>)
        ensures
            r@ == self.value@,
    {
        self.value
    }

    /// A borrow of the tag's bytes.
    pub fn get_value_ref(&self) -> (r: &Vec<u8>)
        ensures
            r@ == self.value@,
    {
        &self.value
    }
}

/// A fixed tag for tests of layer encryption.
pub fn header_integrity_mac_fixture() -> (r: HeaderIntegrityMac)
    ensures
        r.value@ == Seq::new(HEADER_INTEGRITY_MAC_SIZE as nat, |i: int| 3u8),
        r.wf(),
{
    HeaderIntegrityMac { value: crate::bytes::fill_bytes(HEADER_INTEGRITY_MAC_SIZE, 3u8) }
}

} // verus!
