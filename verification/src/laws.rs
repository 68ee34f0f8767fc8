//! The laws of the format, stated over the spec-level model and proved once
//! and for all: the truncation/zero-pad dance recovers the inner layer, the
//! filler makes it work at every depth, peeling k layers of a built header
//! lands exactly on layer k with a tag that verifies, the final peel exposes
//! the sentinel and the destination, building is deterministic, and a
//! flipped tag byte is always detected.

use vstd::prelude::*;

use crate::constants::{
    DESTINATION_ADDRESS_LENGTH, HEADER_INTEGRITY_MAC_SIZE, NODE_ADDRESS_LENGTH,
    ROUTING_INFO_SIZE, SECURITY_PARAMETER, TRUNCATED_ROUTING_INFO_SIZE,
};
use crate::crypto::keystream;
use crate::bytes::xor_seq;
use crate::header::header_model;
use crate::mac::header_mac_spec;
use crate::payload::{onion_encrypt, payload_plaintext};
use crate::route::{final_hop_sentinel, RouteElement};
use crate::routing::{filler, lemma_filler_len, lemma_layer_enc_len, HeaderLayerModel};
use crate::unwrap::{peeled_address, peeled_inner, peeled_mac, peeled_routing_info};

verus! {

/// Law (truncation invariance): encrypting a record made of an address, a
/// tag and the truncated inner buffer, then zero-padding and XOR-ing the full
/// keystream over it, recovers address, tag and the complete inner buffer —
/// provided the inner buffer's truncated tail equals the keystream bytes the
/// peel regenerates at those positions.
pub proof fn lemma_truncation_roundtrip(
    key: Seq<u8>,
    address: Seq<u8>,
    tag: Seq<u8>,
    inner: Seq<u8>,
)
    requires
        address.len() == NODE_ADDRESS_LENGTH,
        tag.len() == HEADER_INTEGRITY_MAC_SIZE,
        inner.len() == ROUTING_INFO_SIZE,
        inner.subrange(TRUNCATED_ROUTING_INFO_SIZE as int, ROUTING_INFO_SIZE as int)
            == keystream(key).subrange(
            ROUTING_INFO_SIZE as int,
            ROUTING_INFO_SIZE + 2 * SECURITY_PARAMETER,
        ),
    ensures
        ({
            let record = address + tag + inner.take(TRUNCATED_ROUTING_INFO_SIZE as int);
            let enc = xor_seq(record, keystream(key).take(ROUTING_INFO_SIZE as int));
            let p = peeled_routing_info(key, enc);
            &&& peeled_address(p) == address
            &&& peeled_mac(p) == tag
            &&& peeled_inner(p) == inner
        }),
{
    let record = address + tag + inner.take(TRUNCATED_ROUTING_INFO_SIZE as int);
    let enc = xor_seq(record, keystream(key).take(ROUTING_INFO_SIZE as int));
    let ks = keystream(key);
    let p = peeled_routing_info(key, enc);
    assert(record.len() == ROUTING_INFO_SIZE);
    assert forall|i: int| 0 <= i < ROUTING_INFO_SIZE implies p[i] == record[i] by {
        let x = record[i];
        let y = ks[i];
        assert(enc[i] == x ^ y);
        assert(p[i] == (x ^ y) ^ y);
        assert((x ^ y) ^ y == x) by (bit_vector);
    }
    assert forall|i: int|
        ROUTING_INFO_SIZE <= i < ROUTING_INFO_SIZE + 3 * SECURITY_PARAMETER implies p[i]
        == ks[i] by {
        let y = ks[i];
        assert(p[i] == 0u8 ^ y);
        assert(0u8 ^ y == y) by (bit_vector);
    }
    assert(peeled_address(p) =~= address);
    assert(peeled_mac(p) =~= tag);
    assert forall|u: int| 0 <= u < ROUTING_INFO_SIZE implies peeled_inner(p)[u] == inner[u] by {
        if u < TRUNCATED_ROUTING_INFO_SIZE {
            assert(p[2 * SECURITY_PARAMETER + u] == record[2 * SECURITY_PARAMETER + u]);
            assert(record[2 * SECURITY_PARAMETER + u] == inner[u]);
        } else {
            assert(p[2 * SECURITY_PARAMETER + u] == ks[2 * SECURITY_PARAMETER + u]);
            assert(inner[u] == inner.subrange(
                TRUNCATED_ROUTING_INFO_SIZE as int,
                ROUTING_INFO_SIZE as int,
            )[u - TRUNCATED_ROUTING_INFO_SIZE]);
            assert(keystream(key).subrange(
                ROUTING_INFO_SIZE as int,
                ROUTING_INFO_SIZE + 2 * SECURITY_PARAMETER,
            )[u - TRUNCATED_ROUTING_INFO_SIZE] == ks[2 * SECURITY_PARAMETER + u]);
        }
    }
    assert(peeled_inner(p) =~= inner);
}

/// The tail of layer `j` of a built header is exactly the filler of depth
/// `j`: what the outer peels will regenerate is just what the builder put
/// there.
pub proof fn lemma_layer_tail(model: HeaderLayerModel, j: nat)
    requires
        model.wf(),
        j < model.n(),
    ensures
        model.enc(j).subrange(
            ROUTING_INFO_SIZE - 2 * SECURITY_PARAMETER * j,
            ROUTING_INFO_SIZE as int,
        ) == filler(model.stream_keys, j),
    decreases model.n() - j,
{
    lemma_layer_enc_len(model, j);
    lemma_filler_len(model.stream_keys, j);
    let e = model.enc(j);
    let f = filler(model.stream_keys, j);
    let base = ROUTING_INFO_SIZE - 2 * SECURITY_PARAMETER * (j as int);
    if j + 1 == model.n() {
        assert(e.subrange(base, ROUTING_INFO_SIZE as int) =~= f);
    } else {
        lemma_layer_tail(model, (j + 1) as nat);
        lemma_layer_enc_len(model, (j + 1) as nat);
        lemma_filler_len(model.stream_keys, (j + 1) as nat);
        let inner = model.enc((j + 1) as nat);
        let f1 = filler(model.stream_keys, (j + 1) as nat);
        let ks = keystream(model.stream_keys[j as int]);
        let record = model.next_addresses[j as int] + header_mac_spec(
            model.mac_keys[j as int + 1],
            inner,
        ) + inner.take(TRUNCATED_ROUTING_INFO_SIZE as int);
        assert(e == xor_seq(record, ks.take(ROUTING_INFO_SIZE as int)));
        assert forall|t: int| 0 <= t < 2 * SECURITY_PARAMETER * j implies e[base + t] == f[t] by {
            let i = base + t;
            assert(record[i] == inner[i - 2 * SECURITY_PARAMETER]);
            assert(inner[i - 2 * SECURITY_PARAMETER] == inner.subrange(
                ROUTING_INFO_SIZE - 2 * SECURITY_PARAMETER * (j as int + 1),
                ROUTING_INFO_SIZE as int,
            )[t]);
            assert(inner[i - 2 * SECURITY_PARAMETER] == f1[t]);
            assert(f1[t] == (f + crate::bytes::zeros((2 * SECURITY_PARAMETER) as nat))[t] ^ ks
                .subrange(
                ROUTING_INFO_SIZE + 2 * SECURITY_PARAMETER - 2 * SECURITY_PARAMETER * (j as int
                    + 1),
                ROUTING_INFO_SIZE + 2 * SECURITY_PARAMETER,
            )[t]);
            assert(f1[t] == f[t] ^ ks[i]);
            assert(e[i] == record[i] ^ ks[i]);
            let a = f[t];
            let b = ks[i];
            assert((a ^ b) ^ b == a) by (bit_vector);
        }
        assert(e.subrange(base, ROUTING_INFO_SIZE as int) =~= f);
    }
}

/// The truncated tail of layer `j + 1` equals the keystream bytes that hop
/// `j`'s peel regenerates: the premise of the truncation round trip holds at
/// every depth of a built header.
pub proof fn lemma_layer_truncation_tail(model: HeaderLayerModel, j: nat)
    requires
        model.wf(),
        j + 1 < model.n(),
    ensures
        model.enc((j + 1) as nat).subrange(
            TRUNCATED_ROUTING_INFO_SIZE as int,
            ROUTING_INFO_SIZE as int,
        ) == keystream(model.stream_keys[j as int]).subrange(
            ROUTING_INFO_SIZE as int,
            ROUTING_INFO_SIZE + 2 * SECURITY_PARAMETER,
        ),
{
    lemma_layer_tail(model, (j + 1) as nat);
    lemma_layer_enc_len(model, (j + 1) as nat);
    lemma_filler_len(model.stream_keys, (j + 1) as nat);
    lemma_filler_len(model.stream_keys, j);
    let inner = model.enc((j + 1) as nat);
    let f = filler(model.stream_keys, j);
    let f1 = filler(model.stream_keys, (j + 1) as nat);
    let ks = keystream(model.stream_keys[j as int]);
    assert forall|u: int| 0 <= u < 2 * SECURITY_PARAMETER implies inner.subrange(
        TRUNCATED_ROUTING_INFO_SIZE as int,
        ROUTING_INFO_SIZE as int,
    )[u] == ks.subrange(
        ROUTING_INFO_SIZE as int,
        ROUTING_INFO_SIZE + 2 * SECURITY_PARAMETER,
    )[u] by {
        let w = 2 * SECURITY_PARAMETER * (j as int) + u;
        assert(inner[TRUNCATED_ROUTING_INFO_SIZE + u] == inner.subrange(
            ROUTING_INFO_SIZE - 2 * SECURITY_PARAMETER * (j as int + 1),
            ROUTING_INFO_SIZE as int,
        )[w]);
        assert(inner[TRUNCATED_ROUTING_INFO_SIZE + u] == f1[w]);
        assert(f1[w] == (f + crate::bytes::zeros((2 * SECURITY_PARAMETER) as nat))[w] ^ ks
            .subrange(
            ROUTING_INFO_SIZE + 2 * SECURITY_PARAMETER - 2 * SECURITY_PARAMETER * (j as int + 1),
            ROUTING_INFO_SIZE + 2 * SECURITY_PARAMETER,
        )[w]);
        assert(f1[w] == 0u8 ^ ks[ROUTING_INFO_SIZE + u]);
        let b = ks[ROUTING_INFO_SIZE + u];
        assert(0u8 ^ b == b) by (bit_vector);
    }
    assert(inner.subrange(TRUNCATED_ROUTING_INFO_SIZE as int, ROUTING_INFO_SIZE as int) =~= ks
        .subrange(ROUTING_INFO_SIZE as int, ROUTING_INFO_SIZE + 2 * SECURITY_PARAMETER));
}

/// Law: peeling layer `j` of a built header recovers hop `j`'s forwarding
/// address, layer `j + 1`'s tag, and layer `j + 1`'s encrypted buffer,
/// complete with the bytes truncation dropped.
pub proof fn lemma_peel_layer(model: HeaderLayerModel, j: nat)
    requires
        model.wf(),
        j + 1 < model.n(),
    ensures
        ({
            let p = peeled_routing_info(model.stream_keys[j as int], model.enc(j));
            &&& peeled_address(p) == model.next_addresses[j as int]
            &&& peeled_mac(p) == model.mac((j + 1) as nat)
            &&& peeled_inner(p) == model.enc((j + 1) as nat)
        }),
{
    lemma_layer_truncation_tail(model, j);
    lemma_layer_enc_len(model, (j + 1) as nat);
    lemma_truncation_roundtrip(
        model.stream_keys[j as int],
        model.next_addresses[j as int],
        model.mac((j + 1) as nat),
        model.enc((j + 1) as nat),
    );
}

/// Law: peeling the innermost layer exposes the delivery sentinel and the
/// destination address.
pub proof fn lemma_peel_final(model: HeaderLayerModel)
    requires
        model.wf(),
    ensures
        ({
            let p = peeled_routing_info(
                model.stream_keys[model.n() - 1],
                model.enc((model.n() - 1) as nat),
            );
            &&& peeled_address(p) == final_hop_sentinel()
            &&& peeled_mac(p) == model.destination
        }),
{
    let n = model.n();
    lemma_layer_enc_len(model, (n - 1) as nat);
    lemma_filler_len(model.stream_keys, (n - 1) as nat);
    let e = model.enc((n - 1) as nat);
    let ks = keystream(model.stream_keys[n - 1]);
    let p = peeled_routing_info(model.stream_keys[n - 1], e);
    let body = model.body();
    let prefix_len = ROUTING_INFO_SIZE - 2 * SECURITY_PARAMETER * (n as int - 1);
    assert forall|i: int| 0 <= i < 2 * SECURITY_PARAMETER implies p[i] == body[i] by {
        assert(i < prefix_len);
        let x = body[i];
        let y = ks[i];
        assert(e[i] == x ^ y);
        assert(p[i] == (x ^ y) ^ y);
        assert((x ^ y) ^ y == x) by (bit_vector);
    }
    assert(peeled_address(p) =~= final_hop_sentinel());
    assert(peeled_mac(p) =~= model.destination);
}

/// Layer `k` of a built header, reached by `k` successive peels of the
/// outermost layer.
pub open spec fn peel_iter(model: HeaderLayerModel, k: nat) -> Seq<u8>
    decreases k,
{
    if k == 0 {
        model.enc(0)
    } else {
        peeled_inner(
            peeled_routing_info(model.stream_keys[k - 1], peel_iter(model, (k - 1) as nat)),
        )
    }
}

/// Law: peeling `k < n` layers off a built header yields exactly layer `k`,
/// and the tag that travels with it verifies under hop `k`'s integrity key.
pub proof fn lemma_peel_k_layers(model: HeaderLayerModel, k: nat)
    requires
        model.wf(),
        k < model.n(),
    ensures
        peel_iter(model, k) == model.enc(k),
        model.mac(k) == header_mac_spec(model.mac_keys[k as int], peel_iter(model, k)),
        k > 0 ==> peeled_mac(
            peeled_routing_info(model.stream_keys[k - 1], peel_iter(model, (k - 1) as nat)),
        ) == model.mac(k),
    decreases k,
{
    if k > 0 {
        lemma_peel_k_layers(model, (k - 1) as nat);
        lemma_peel_layer(model, (k - 1) as nat);
    }
}

/// Law: every layer's tag of a well-formed model is exactly sigma bytes;
/// together with `lemma_layer_enc_len`, every intermediate layer a build
/// produces has the fixed buffer and tag sizes.
pub proof fn lemma_layer_mac_len(model: HeaderLayerModel, j: nat)
    requires
        model.wf(),
        j < model.n(),
    ensures
        model.mac(j).len() == HEADER_INTEGRITY_MAC_SIZE,
{
}

/// Law (determinism): the built header layers and tags are functions of the
/// ephemeral secret, the route and the destination alone — two builds over
/// the same inputs agree byte for byte.
pub proof fn lemma_build_header_deterministic(
    x0: Seq<u8>,
    route: Seq<RouteElement>,
    destination: Seq<u8>,
    first_enc: Seq<u8>,
    first_mac: Seq<u8>,
    second_enc: Seq<u8>,
    second_mac: Seq<u8>,
)
    requires
        first_enc == header_model(x0, route, destination).enc(0),
        first_mac == header_model(x0, route, destination).mac(0),
        second_enc == header_model(x0, route, destination).enc(0),
        second_mac == header_model(x0, route, destination).mac(0),
    ensures
        first_enc == second_enc,
        first_mac == second_mac,
{
}

/// Law (determinism): the built payload is a function of the payload keys,
/// the destination and the message alone.
pub proof fn lemma_build_payload_deterministic(
    payload_keys: Seq<Seq<u8>>,
    destination: Seq<u8>,
    message: Seq<u8>,
    first: Seq<u8>,
    second: Seq<u8>,
)
    requires
        first == onion_encrypt(payload_keys, payload_plaintext(destination, message)),
        second == onion_encrypt(payload_keys, payload_plaintext(destination, message)),
    ensures
        first == second,
{
}

/// Law: a tag that differs from the recomputed tag in any single byte is not
/// equal to it, so the unwrap engine rejects the header.
pub proof fn lemma_flipped_mac_detected(tag: Seq<u8>, correct: Seq<u8>, i: int)
    requires
        tag.len() == correct.len(),
        0 <= i < tag.len(),
        tag[i] != correct[i],
    ensures
        tag != correct,
{
}

} // verus!
