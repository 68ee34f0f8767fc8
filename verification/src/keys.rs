//! The key schedule: from each hop's shared group element, four routing keys
//! are derived through domain-separated applications of the keyed PRF; the
//! sender walks the route with a running scalar that it blinds at every hop.

use vstd::prelude::*;

use crate::bytes::{lemma_padded_to_id, seq_views, subrange_vec, concat_bytes};
use crate::constants::{
    BLINDING_FACTOR_SIZE, INTEGRITY_MAC_KEY_SIZE, PAYLOAD_KEY_SIZE, STREAM_CIPHER_KEY_SIZE,
};
use crate::crypto::{
    compute_keyed_hmac, hmac32, hmac_sha256_tag, montgomery_multiply, multiply_scalars,
    scalar_mul32, scalar_mul_mod_order, montgomery_scalar_mult, shared32,
};

verus! {

/// Domain tag of the stream-cipher key derivation.
pub open spec fn stream_key_tag() -> Seq<u8> {
    seq![1u8]
}

/// Domain tag of the header-integrity key derivation.
pub open spec fn mac_key_tag() -> Seq<u8> {
    seq![2u8]
}

/// Domain tag of block `j` of the payload key derivation.
pub open spec fn payload_key_tag(j: u8) -> Seq<u8> {
    seq![3u8, j]
}

/// Domain tag of the blinding-factor derivation.
pub open spec fn blinding_factor_tag() -> Seq<u8> {
    seq![4u8]
}

/// The stream-cipher key of a hop: the first 16 bytes of the PRF under the
/// hop's shared element, with the stream domain tag.
pub open spec fn kdf_stream_key(s: Seq<u8>) -> Seq<u8> {
    hmac32(s, stream_key_tag()).take(STREAM_CIPHER_KEY_SIZE as int)
}

/// The header-integrity key of a hop: the full 32-byte PRF output with the
/// integrity domain tag.
pub open spec fn kdf_mac_key(s: Seq<u8>) -> Seq<u8> {
    hmac32(s, mac_key_tag())
}

/// The payload key of a hop: six 32-byte PRF blocks with counter-separated
/// payload domain tags, concatenated to the wide-block cipher's raw key size.
pub open spec fn kdf_payload_key(s: Seq<u8>) -> Seq<u8> {
    hmac32(s, payload_key_tag(0)) + hmac32(s, payload_key_tag(1)) + hmac32(
        s,
        payload_key_tag(2),
    ) + hmac32(s, payload_key_tag(3)) + hmac32(s, payload_key_tag(4)) + hmac32(
        s,
        payload_key_tag(5),
    )
}

/// The blinding factor of a hop: the full 32-byte PRF output with the
/// blinding domain tag, used as a scalar.
pub open spec fn kdf_blinding_factor(s: Seq<u8>) -> Seq<u8> {
    hmac32(s, blinding_factor_tag())
}

/// The scalar the sender holds after blinding at hops `0 .. i`: the
/// ephemeral secret times every blinding factor derived so far.
pub open spec fn running_scalar(x0: Seq<u8>, pubs: Seq<Seq<u8>>, i: nat) -> Seq<u8>
    decreases i,
{
    if i == 0 {
        x0
    } else {
        let prev = running_scalar(x0, pubs, (i - 1) as nat);
        scalar_mul32(prev, kdf_blinding_factor(shared32(prev, pubs[i - 1])))
    }
}

/// The shared group element the sender computes for hop `i`.
pub open spec fn hop_shared_secret(x0: Seq<u8>, pubs: Seq<Seq<u8>>, i: nat) -> Seq<u8> {
    shared32(running_scalar(x0, pubs, i), pubs[i as int])
}

/// The set of keys one hop needs: stream-cipher key, header-integrity key,
/// payload key and the blinding factor that advances the group element.
#[derive(Clone)]
pub struct RoutingKeys {
    pub stream_cipher_key: Vec<u8>,
    pub header_integrity_hmac_key: Vec<u8>,
    pub payload_key: Vec<u8>,
    pub blinding_factor: Vec<u8>,
}

impl RoutingKeys {
    /// All four keys have their fixed sizes.
    pub open spec fn wf(&self) -> bool {
        &&& self.stream_cipher_key@.len() == STREAM_CIPHER_KEY_SIZE
        &&& self.header_integrity_hmac_key@.len() == INTEGRITY_MAC_KEY_SIZE
        &&& self.payload_key@.len() == PAYLOAD_KEY_SIZE
        &&& self.blinding_factor@.len() == BLINDING_FACTOR_SIZE
    }

    /// The four keys are exactly the derivations from `s`.
    pub open spec fn derived_from(&self, s: Seq<u8>) -> bool {
        &&& self.stream_cipher_key@ == kdf_stream_key(s)
        &&& self.header_integrity_hmac_key@ == kdf_mac_key(s)
        &&& self.payload_key@ == kdf_payload_key(s)
        &&& self.blinding_factor@ == kdf_blinding_factor(s)
    }

    /// Derives the four routing keys of a hop from its shared group element.
    pub fn derive(shared_key: &Vec<u8>) -> (r: Self)
        ensures
            r.derived_from(shared_key@),
            r.wf(),
    {
        let stream_tag: Vec<u8> = vec![1u8];
        let mac_tag: Vec<u8> = vec![2u8];
        let blinding_tag: Vec<u8> = vec![4u8];
        assert(stream_tag@ =~= stream_key_tag());
        assert(mac_tag@ =~= mac_key_tag());
        assert(blinding_tag@ =~= blinding_factor_tag());

        let stream_full = compute_keyed_hmac(shared_key, &stream_tag);
        proof {
            lemma_padded_to_id(hmac_sha256_tag(shared_key@, stream_key_tag()), 32);
        }
        let stream_cipher_key = subrange_vec(&stream_full, 0, STREAM_CIPHER_KEY_SIZE);
        assert(stream_cipher_key@ =~= kdf_stream_key(shared_key@));

        let header_integrity_hmac_key = compute_keyed_hmac(shared_key, &mac_tag);
        proof {
            lemma_padded_to_id(hmac_sha256_tag(shared_key@, mac_key_tag()), 32);
        }

        let payload_key = Self::derive_payload_key(shared_key);

        let blinding_factor = compute_keyed_hmac(shared_key, &blinding_tag);
        proof {
            lemma_padded_to_id(hmac_sha256_tag(shared_key@, blinding_factor_tag()), 32);
        }

        RoutingKeys { stream_cipher_key, header_integrity_hmac_key, payload_key, blinding_factor }
    }

    /// Derives the wide-block cipher's raw key: six counter-tagged PRF
    /// blocks.
    fn derive_payload_key(shared_key: &Vec<u8>) -> (r: Vec<u8>)
        ensures
            r@ == kdf_payload_key(shared_key@),
            r@.len() == PAYLOAD_KEY_SIZE,
    {
        let mut blocks: Vec<Vec<u8>> = Vec::new();
        let mut j: u8 = 0;
        while j < 6
            invariant
                j <= 6,
                blocks@.len() == j,
                forall|k: int|
                    0 <= k < j ==> blocks@[k]@ == hmac32(shared_key@, payload_key_tag(k as u8)),
            decreases 6 - j,
        {
            let tag: Vec<u8> = vec![3u8, j];
            assert(tag@ =~= payload_key_tag(j));
            let block = compute_keyed_hmac(shared_key, &tag);
            proof {
                lemma_padded_to_id(hmac_sha256_tag(shared_key@, payload_key_tag(j)), 32);
            }
            blocks.push(block);
            j = j + 1;
        }
        let mut out = concat_bytes(&blocks[0], &blocks[1]);
        out = concat_bytes(&out, &blocks[2]);
        out = concat_bytes(&out, &blocks[3]);
        out = concat_bytes(&out, &blocks[4]);
        out = concat_bytes(&out, &blocks[5]);
        assert(out@ =~= kdf_payload_key(shared_key@));
        out
    }
}

/// Derives the routing keys of every hop of a route from the sender's
/// ephemeral secret and the hops' public keys, blinding the running scalar
/// at each step.
pub fn derive_hop_keys(initial_secret: &Vec<u8>, hop_public_keys: &Vec<Vec<u8>>) -> (r: Vec<
    RoutingKeys,
>)
    requires
        initial_secret@.len() == 32,
        forall|i: int| 0 <= i < hop_public_keys@.len() ==> (#[trigger] hop_public_keys@[i])@.len()
            == 32,
    ensures
        r@.len() == hop_public_keys@.len(),
        forall|i: int|
            0 <= i < r@.len() ==> (#[trigger] r@[i]).derived_from(
                hop_shared_secret(initial_secret@, seq_views(hop_public_keys@), i as nat),
            ) && r@[i].wf(),
{
    let ghost pubs = seq_views(hop_public_keys@);
    let mut keys: Vec<RoutingKeys> = Vec::new();
    let mut cur: Vec<u8> = subrange_vec(initial_secret, 0, initial_secret.len());
    assert(cur@ =~= initial_secret@);
    let mut i: usize = 0;
    let n = hop_public_keys.len();
    while i < n
        invariant
            i <= n,
            n == hop_public_keys@.len(),
            pubs == seq_views(hop_public_keys@),
            forall|k: int| 0 <= k < n ==> (#[trigger] hop_public_keys@[k])@.len() == 32,
            cur@ == running_scalar(initial_secret@, pubs, i as nat),
            cur@.len() == 32,
            keys@.len() == i,
            forall|k: int|
                0 <= k < i ==> (#[trigger] keys@[k]).derived_from(
                    hop_shared_secret(initial_secret@, pubs, k as nat),
                ) && keys@[k].wf(),
        decreases n - i,
    {
        let hop_public = &hop_public_keys[i];
        let shared_key = montgomery_multiply(&cur, hop_public);
        proof {
            lemma_padded_to_id(montgomery_scalar_mult(cur@, hop_public@), 32);
            assert(pubs[i as int] == hop_public@);
            assert(shared_key@ == hop_shared_secret(initial_secret@, pubs, i as nat));
        }
        let hop_keys = RoutingKeys::derive(&shared_key);
        let next = multiply_scalars(&cur, &hop_keys.blinding_factor);
        proof {
            lemma_padded_to_id(scalar_mul_mod_order(cur@, hop_keys.blinding_factor@), 32);
            assert(next@ == running_scalar(initial_secret@, pubs, (i + 1) as nat));
        }
        keys.push(hop_keys);
        cur = next;
        i = i + 1;
    }
    keys
}

} // verus!
