//! The unwrap engine: one hop re-derives its keys from the packet's group
//! element, checks the header tag, peels one stream-cipher layer off the
//! routing buffer (restoring the truncated tail through the zero-pad trick),
//! peels one wide-block layer off the payload, and blinds the group element.

use vstd::prelude::*;

use crate::bytes::{
    concat_bytes, ct_eq, lemma_padded_to_id, subrange_vec, xor, xor_seq, zero_bytes, zeros,
};
use crate::constants::{
    NODE_ADDRESS_LENGTH, PAYLOAD_SIZE, ROUTING_INFO_SIZE,
    SECURITY_PARAMETER, STREAM_CIPHER_KEY_SIZE, STREAM_CIPHER_OUTPUT_LENGTH,
};
use crate::crypto::{
    generate_pseudorandom_bytes, keystream, lioness_encrypted, montgomery_multiply,
    montgomery_scalar_mult, shared32, stream_cipher_bytes, wide_block_dec,
};
use crate::header::SphinxHeader;
use crate::keys::{kdf_blinding_factor, kdf_mac_key, kdf_payload_key, kdf_stream_key, RoutingKeys};
use crate::mac::{header_mac_spec, HeaderIntegrityMac};
use crate::payload::Payload;
use crate::route::{final_hop_sentinel, final_hop_sentinel_bytes, Hop};
use crate::laws::{lemma_peel_final, lemma_peel_layer};
use crate::payload::{lemma_onion_encrypt_len, onion_encrypt};
use crate::routing::{EncapsulatedRoutingInformation, EncryptedRoutingInformation,
    HeaderLayerModel};
use crate::ProcessingError;

verus! {

/// The routing buffer after one peel: the encrypted buffer, zero-padded by 3
/// sigma bytes, XOR-ed with the hop's full keystream.
pub open spec fn peeled_routing_info(stream_key: Seq<u8>, enc: Seq<u8>) -> Seq<u8> {
    xor_seq(enc + zeros((3 * SECURITY_PARAMETER) as nat), keystream(stream_key))
}

/// The address field of a peeled buffer.
pub open spec fn peeled_address(p: Seq<u8>) -> Seq<u8> {
    p.take(NODE_ADDRESS_LENGTH as int)
}

/// The tag field of a peeled buffer: the inner layer's integrity tag, or the
/// destination at the final hop.
pub open spec fn peeled_mac(p: Seq<u8>) -> Seq<u8> {
    p.subrange(NODE_ADDRESS_LENGTH as int, (2 * SECURITY_PARAMETER) as int)
}

/// The inner layer's encrypted routing buffer inside a peeled buffer.
pub open spec fn peeled_inner(p: Seq<u8>) -> Seq<u8> {
    p.subrange(
        (2 * SECURITY_PARAMETER) as int,
        (2 * SECURITY_PARAMETER + ROUTING_INFO_SIZE) as int,
    )
}

/// Appends the 3 sigma zero bytes that stand in for what truncation dropped.
pub fn add_zero_padding_to_encrypted_routing_information(enc_routing_info: &Vec<u8>) -> (r: Vec<
    u8,
>)
    ensures
        r@ == enc_routing_info@ + zeros((3 * SECURITY_PARAMETER) as nat),
{
    let zero_padding = zero_bytes(3 * SECURITY_PARAMETER);
    concat_bytes(enc_routing_info, &zero_padding)
}

/// XOR of a padded routing buffer with the full keystream under `key`.
pub fn decrypt_padded_routing_info(key: &Vec<u8>, padded_routing_info: &Vec<u8>) -> (r: Vec<u8>)
    requires
        key@.len() == STREAM_CIPHER_KEY_SIZE,
        padded_routing_info@.len() == STREAM_CIPHER_OUTPUT_LENGTH,
    ensures
        r@ == xor_seq(padded_routing_info@, keystream(key@)),
        r@.len() == STREAM_CIPHER_OUTPUT_LENGTH,
{
    let iv = zero_bytes(STREAM_CIPHER_KEY_SIZE);
    let pseudorandom_bytes = generate_pseudorandom_bytes(key, &iv, STREAM_CIPHER_OUTPUT_LENGTH);
    proof {
        lemma_padded_to_id(
            stream_cipher_bytes(key@, iv@, STREAM_CIPHER_OUTPUT_LENGTH as nat),
            STREAM_CIPHER_OUTPUT_LENGTH as nat,
        );
        assert(pseudorandom_bytes@ == keystream(key@));
    }
    xor(padded_routing_info, &pseudorandom_bytes)
}

/// Recomputes the tag of `enc_routing_info` under `integrity_mac_key` and
/// compares it against the received tag, touching every byte either way.
pub fn check_integrity_mac(
    integrity_mac: &HeaderIntegrityMac,
    integrity_mac_key: &Vec<u8>,
    enc_routing_info: &Vec<u8>,
) -> (r: bool)
    requires
        integrity_mac.wf(),
    ensures
        r == (integrity_mac.value@ == header_mac_spec(integrity_mac_key@, enc_routing_info@)),
{
    let recomputed_integrity_mac = crate::routing::generate_routing_info_integrity_mac(
        integrity_mac_key,
        enc_routing_info,
    );
    ct_eq(&integrity_mac.value, &recomputed_integrity_mac.value)
}

/// What one header peel yields: where to forward, the inner layer's tag, and
/// the inner encrypted routing buffer.
pub struct UnwrappedRoutingInformation {
    pub next_hop_address: Vec<u8>,
    pub next_layer_mac: HeaderIntegrityMac,
    pub next_routing_information: EncryptedRoutingInformation,
}

/// Peels one stream-cipher layer off an encrypted routing buffer: pads it
/// with 3 sigma zero bytes, XORs the full keystream over it, and parses
/// address, tag and inner buffer out of the result.
pub fn unwrap_routing_information(
    enc_routing_info: &EncryptedRoutingInformation,
    stream_cipher_key: &Vec<u8>,
) -> (r: UnwrappedRoutingInformation)
    requires
        enc_routing_info.wf(),
        stream_cipher_key@.len() == STREAM_CIPHER_KEY_SIZE,
    ensures
        ({
            let p = peeled_routing_info(stream_cipher_key@, enc_routing_info.value@);
            &&& r.next_hop_address@ == peeled_address(p)
            &&& r.next_layer_mac.value@ == peeled_mac(p)
            &&& r.next_routing_information.value@ == peeled_inner(p)
            &&& r.next_hop_address@.len() == NODE_ADDRESS_LENGTH
            &&& r.next_layer_mac.wf()
            &&& r.next_routing_information.wf()
        }),
{
    let padded_routing_information = add_zero_padding_to_encrypted_routing_information(
        &enc_routing_info.value,
    );
    let unwrapped = decrypt_padded_routing_info(stream_cipher_key, &padded_routing_information);
    let next_hop_address = subrange_vec(&unwrapped, 0, NODE_ADDRESS_LENGTH);
    let mac_bytes = subrange_vec(&unwrapped, NODE_ADDRESS_LENGTH, 2 * SECURITY_PARAMETER);
    let inner_bytes = subrange_vec(
        &unwrapped,
        2 * SECURITY_PARAMETER,
        2 * SECURITY_PARAMETER + ROUTING_INFO_SIZE,
    );
    UnwrappedRoutingInformation {
        next_hop_address,
        next_layer_mac: HeaderIntegrityMac { value: mac_bytes },
        next_routing_information: EncryptedRoutingInformation::from_bytes(inner_bytes),
    }
}

/// Processes one hop: re-derives the hop's keys from its identity scalar and
/// the packet's group element, rejects the packet unless the header tag
/// matches, then peels one layer off header and payload and blinds the group
/// element. The address field decides between forwarding and delivery.
pub fn process_hop(identity_scalar: &Vec<u8>, header: &SphinxHeader, payload: Payload) -> (r:
    Result<(SphinxHeader, Payload, Hop), ProcessingError>)
    requires
        identity_scalar@.len() == 32,
        header.wf(),
        payload.wf(),
    ensures
        ({
            let s = shared32(identity_scalar@, header.shared_secret@);
            let enc = header.routing_info.enc_routing_information.value@;
            let p = peeled_routing_info(kdf_stream_key(s), enc);
            &&& (r is Err <==> header.routing_info.integrity_mac.value@ != header_mac_spec(
                kdf_mac_key(s),
                enc,
            ))
            &&& (r is Err ==> r == Result::<(SphinxHeader, Payload, Hop), ProcessingError>::Err(
                ProcessingError::HeaderIntegrityError,
            ))
            &&& (r is Ok ==> {
                let new_header = r->Ok_0.0;
                let new_payload = r->Ok_0.1;
                let next_hop = r->Ok_0.2;
                &&& new_header.shared_secret@ == shared32(
                    kdf_blinding_factor(s),
                    header.shared_secret@,
                )
                &&& new_header.routing_info.enc_routing_information.value@ == peeled_inner(p)
                &&& new_header.routing_info.integrity_mac.value@ == peeled_mac(p)
                &&& new_header.wf()
                &&& new_payload.content@ == wide_block_dec(kdf_payload_key(s), payload.content@)
                &&& new_payload.wf()
                &&& (forall|b: Seq<u8>|
                    b.len() == PAYLOAD_SIZE && payload.content@ == crate::bytes::padded_to(
                        #[trigger] lioness_encrypted(kdf_payload_key(s), b),
                        b.len(),
                    ) ==> new_payload.content@ == b)
                &&& (peeled_address(p) == final_hop_sentinel() ==> next_hop is Final
                    && next_hop->Final_0@ == peeled_mac(p))
                &&& (peeled_address(p) != final_hop_sentinel() ==> next_hop is Forward
                    && next_hop->Forward_0@ == peeled_address(p))
            })
        }),
{
    let shared_key = montgomery_multiply(identity_scalar, &header.shared_secret);
    proof {
        lemma_padded_to_id(montgomery_scalar_mult(identity_scalar@, header.shared_secret@), 32);
    }
    let routing_keys = RoutingKeys::derive(&shared_key);

    if !check_integrity_mac(
        &header.routing_info.integrity_mac,
        &routing_keys.header_integrity_hmac_key,
        &header.routing_info.enc_routing_information.value,
    ) {
        return Err(ProcessingError::HeaderIntegrityError);
    }

    let unwrapped = unwrap_routing_information(
        &header.routing_info.enc_routing_information,
        &routing_keys.stream_cipher_key,
    );

    let new_payload = payload.unwrap(&routing_keys.payload_key);

    let new_shared_secret = montgomery_multiply(
        &routing_keys.blinding_factor,
        &header.shared_secret,
    );
    proof {
        lemma_padded_to_id(
            montgomery_scalar_mult(routing_keys.blinding_factor@, header.shared_secret@),
            32,
        );
    }

    let sentinel = final_hop_sentinel_bytes();
    let next_hop = if ct_eq(&unwrapped.next_hop_address, &sentinel) {
        let destination = subrange_vec(
            &unwrapped.next_layer_mac.value,
            0,
            unwrapped.next_layer_mac.value.len(),
        );
        proof {
            assert(destination@ =~= unwrapped.next_layer_mac.value@);
        }
        Hop::Final(destination)
    } else {
        Hop::Forward(unwrapped.next_hop_address)
    };

    let new_header = SphinxHeader {
        shared_secret: new_shared_secret,
        routing_info: EncapsulatedRoutingInformation {
            enc_routing_information: unwrapped.next_routing_information,
            integrity_mac: unwrapped.next_layer_mac,
        },
    };
    Ok((new_header, new_payload, next_hop))
}

/// The payload keys held inside a derived key vector.
pub open spec fn payload_keys_of(hop_keys: Seq<RoutingKeys>) -> Seq<Seq<u8>> {
    Seq::new(hop_keys.len(), |i: int| hop_keys[i].payload_key@)
}

/// Unwraps a whole packet with the per-hop keys the builder returned: checks
/// and peels every header layer in route order and removes one payload layer
/// per hop. On a header built over `model` and a payload wrapped over the
/// same hops' payload keys, every tag check passes, the final peel exposes
/// the delivery sentinel, and the returned destination and payload are the
/// ones the sender put in.
pub fn unwrap_all_layers(
    hop_keys: &Vec<RoutingKeys>,
    routing_info: EncapsulatedRoutingInformation,
    payload: Payload,
    Ghost(model): Ghost<HeaderLayerModel>,
    Ghost(plaintext): Ghost<Seq<u8>>,
) -> (r: Result<(Vec<u8>, Payload), ProcessingError>)
    requires
        model.wf(),
        hop_keys@.len() == model.n(),
        forall|i: int|
            0 <= i < hop_keys@.len() ==> (#[trigger] hop_keys@[i]).wf()
                && hop_keys@[i].stream_cipher_key@ == model.stream_keys[i]
                && hop_keys@[i].header_integrity_hmac_key@ == model.mac_keys[i],
        routing_info.enc_routing_information.value@ == model.enc(0),
        routing_info.integrity_mac.value@ == model.mac(0),
        routing_info.wf(),
        payload.wf(),
        plaintext.len() == PAYLOAD_SIZE,
        payload.content@ == onion_encrypt(payload_keys_of(hop_keys@), plaintext),
    ensures
        r is Ok,
        r->Ok_0.0@ == model.destination,
        r->Ok_0.1.content@ == plaintext,
        r->Ok_0.1.wf(),
{
    let ghost pkeys = payload_keys_of(hop_keys@);
    let n = hop_keys.len();
    let mut enc = routing_info.enc_routing_information;
    let mut mac = routing_info.integrity_mac;
    let mut pay = payload;
    let mut i: usize = 0;
    proof {
        assert(pkeys.skip(0) =~= pkeys);
    }
    while i < n - 1
        invariant
            i <= n - 1,
            n == hop_keys@.len(),
            n == model.n(),
            model.wf(),
            pkeys == payload_keys_of(hop_keys@),
            plaintext.len() == PAYLOAD_SIZE,
            forall|k: int|
                0 <= k < n ==> (#[trigger] hop_keys@[k]).wf()
                    && hop_keys@[k].stream_cipher_key@ == model.stream_keys[k]
                    && hop_keys@[k].header_integrity_hmac_key@ == model.mac_keys[k],
            enc.value@ == model.enc(i as nat),
            mac.value@ == model.mac(i as nat),
            enc.wf(),
            mac.wf(),
            pay.wf(),
            pay.content@ == onion_encrypt(pkeys.skip(i as int), plaintext),
        decreases n - 1 - i,
    {
        if !check_integrity_mac(&mac, &hop_keys[i].header_integrity_hmac_key, &enc.value) {
            // The tag equals the recomputed tag by the loop invariant, so
            // this branch is proved unreachable.
            proof {
                assert(false);
            }
            return Err(ProcessingError::HeaderIntegrityError);
        }
        let unwrapped = unwrap_routing_information(&enc, &hop_keys[i].stream_cipher_key);
        proof {
            lemma_peel_layer(model, i as nat);
        }
        let new_pay = pay.unwrap(&hop_keys[i].payload_key);
        proof {
            let rest = onion_encrypt(pkeys.skip(i as int).skip(1), plaintext);
            lemma_onion_encrypt_len(pkeys.skip(i as int).skip(1), plaintext);
            assert(pkeys.skip(i as int).skip(1) =~= pkeys.skip(i as int + 1));
            assert(onion_encrypt(pkeys.skip(i as int), plaintext) == crate::crypto::wide_block_enc(
                pkeys[i as int],
                rest,
            ));
            assert(new_pay.content@ == onion_encrypt(pkeys.skip(i as int + 1), plaintext));
        }
        enc = unwrapped.next_routing_information;
        mac = unwrapped.next_layer_mac;
        pay = new_pay;
        i = i + 1;
    }
    if !check_integrity_mac(&mac, &hop_keys[n - 1].header_integrity_hmac_key, &enc.value) {
        // The innermost tag matches as well, so this branch is proved
        // unreachable.
        proof {
            assert(false);
        }
        return Err(ProcessingError::HeaderIntegrityError);
    }
    let unwrapped = unwrap_routing_information(&enc, &hop_keys[n - 1].stream_cipher_key);
    proof {
        lemma_peel_final(model);
        assert(unwrapped.next_layer_mac.value@ == model.destination);
    }
    let final_pay = pay.unwrap(&hop_keys[n - 1].payload_key);
    proof {
        let rest = onion_encrypt(pkeys.skip(n as int - 1).skip(1), plaintext);
        lemma_onion_encrypt_len(pkeys.skip(n as int - 1).skip(1), plaintext);
        assert(pkeys.skip(n as int - 1).skip(1) =~= pkeys.skip(n as int));
        assert(pkeys.skip(n as int) =~= Seq::<Seq<u8>>::empty());
        assert(onion_encrypt(pkeys.skip(n as int - 1), plaintext)
            == crate::crypto::wide_block_enc(pkeys[n as int - 1], rest));
        assert(rest == plaintext);
        assert(final_pay.content@ == plaintext);
    }
    let destination = unwrapped.next_layer_mac.get_value();
    Ok((destination, final_pay))
}

} // verus!
