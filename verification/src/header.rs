//! The header builder: derives every hop's keys from the sender's ephemeral
//! secret, computes the filler, and nests the routing records from the
//! innermost layer outwards. The resulting header is pinned, byte for byte,
//! to the spec-level layer model.

use vstd::prelude::*;

use crate::bytes::{
    concat_bytes, lemma_padded_to_id, seq_views, subrange_vec, xor, zero_bytes,
};
use crate::constants::{
    DESTINATION_ADDRESS_LENGTH, MAX_ROUTE_LENGTH, ROUTING_INFO_SIZE, SECURITY_PARAMETER,
    STREAM_CIPHER_KEY_SIZE, STREAM_CIPHER_OUTPUT_LENGTH,
};
use crate::crypto::{
    curve_generator, generate_pseudorandom_bytes, keystream, montgomery_multiply,
    montgomery_scalar_mult, shared32, stream_cipher_bytes, x25519_base_point,
};
use crate::keys::{
    derive_hop_keys, hop_shared_secret, kdf_mac_key, kdf_stream_key, RoutingKeys,
};
use crate::routing::{
    filler, lemma_filler_len, lemma_layer_enc_len, EncapsulatedRoutingInformation,
    EncryptedRoutingInformation, HeaderLayerModel, RoutingInformation,
};
use crate::route::{final_hop_sentinel_bytes, RouteElement};
use crate::ProcessingError;

verus! {

/// Every element of the route is a forward hop.
pub open spec fn all_forward_hops(route: Seq<RouteElement>) -> bool {
    forall|i: int| 0 <= i < route.len() ==> route[i] is ForwardHop
}

/// The public keys the route's elements carry, in order.
pub open spec fn route_pub_keys(route: Seq<RouteElement>) -> Seq<Seq<u8>> {
    Seq::new(
        route.len(),
        |i: int|
            match route[i] {
                RouteElement::ForwardHop(node) => node.pub_key@,
                RouteElement::FinalHop(destination) => destination@,
            },
    )
}

/// The forwarding addresses each record carries: hop `j`'s record names hop
/// `j + 1`.
pub open spec fn route_next_addresses(route: Seq<RouteElement>) -> Seq<Seq<u8>> {
    Seq::new(
        (route.len() - 1) as nat,
        |j: int|
            match route[j + 1] {
                RouteElement::ForwardHop(node) => node.address@,
                RouteElement::FinalHop(destination) => destination@,
            },
    )
}

/// The stream keys held inside a derived key vector.
pub open spec fn stream_keys_of(hop_keys: Seq<RoutingKeys>) -> Seq<Seq<u8>> {
    Seq::new(hop_keys.len(), |i: int| hop_keys[i].stream_cipher_key@)
}

/// The layer model a build over this ephemeral secret, route and destination
/// is held to.
pub open spec fn header_model(x0: Seq<u8>, route: Seq<RouteElement>, destination: Seq<u8>)
    -> HeaderLayerModel {
    let pubs = route_pub_keys(route);
    HeaderLayerModel {
        stream_keys: Seq::new(route.len(), |i: int| kdf_stream_key(hop_shared_secret(x0, pubs, i as nat))),
        mac_keys: Seq::new(route.len(), |i: int| kdf_mac_key(hop_shared_secret(x0, pubs, i as nat))),
        next_addresses: route_next_addresses(route),
        destination: destination,
    }
}

/// The onion header: the group element the first hop will see, and the
/// outermost sealed routing layer.
#[derive(Clone)]
pub struct SphinxHeader {
    pub shared_secret: Vec<u8>,
    pub routing_info: EncapsulatedRoutingInformation,
}

impl SphinxHeader {
    /// Group element and routing layer have their fixed sizes.
    pub open spec fn wf(&self) -> bool {
        self.shared_secret@.len() == 32 && self.routing_info.wf()
    }
}

/// Computes the filler that `hops` outer layers leave behind the innermost
/// routing body: 2 sigma keystream-tail bytes per hop, accumulated by XOR.
fn build_filler(hop_keys: &Vec<RoutingKeys>, hops: usize) -> (r: Vec<u8>)
    requires
        hops <= hop_keys@.len(),
        hops < MAX_ROUTE_LENGTH,
        forall|i: int| 0 <= i < hop_keys@.len() ==> (#[trigger] hop_keys@[i]).wf(),
    ensures
        r@ == filler(stream_keys_of(hop_keys@), hops as nat),
        r@.len() == 2 * SECURITY_PARAMETER * hops,
{
    let ghost sks = stream_keys_of(hop_keys@);
    let mut f: Vec<u8> = Vec::new();
    proof {
        assert(f@ =~= filler(sks, 0));
    }
    let mut i: usize = 0;
    while i < hops
        invariant
            i <= hops,
            hops <= hop_keys@.len(),
            hops < MAX_ROUTE_LENGTH,
            sks == stream_keys_of(hop_keys@),
            forall|k: int| 0 <= k < hop_keys@.len() ==> (#[trigger] hop_keys@[k]).wf(),
            f@ == filler(sks, i as nat),
            f@.len() == 2 * SECURITY_PARAMETER * i,
        decreases hops - i,
    {
        let iv = zero_bytes(STREAM_CIPHER_KEY_SIZE);
        let ks = generate_pseudorandom_bytes(
            &hop_keys[i].stream_cipher_key,
            &iv,
            STREAM_CIPHER_OUTPUT_LENGTH,
        );
        proof {
            lemma_padded_to_id(
                stream_cipher_bytes(sks[i as int], iv@, STREAM_CIPHER_OUTPUT_LENGTH as nat),
                STREAM_CIPHER_OUTPUT_LENGTH as nat,
            );
            assert(ks@ == keystream(sks[i as int]));
        }
        let pad = zero_bytes(2 * SECURITY_PARAMETER);
        let extended = concat_bytes(&f, &pad);
        let tail = subrange_vec(
            &ks,
            ROUTING_INFO_SIZE - 2 * SECURITY_PARAMETER * i,
            ROUTING_INFO_SIZE + 2 * SECURITY_PARAMETER,
        );
        let next = xor(&extended, &tail);
        proof {
            lemma_filler_len(sks, (i + 1) as nat);
            assert(next@ =~= filler(sks, (i + 1) as nat));
        }
        f = next;
        i = i + 1;
    }
    proof {
        lemma_filler_len(sks, hops as nat);
    }
    f
}

/// Builds the onion header for `route`, delivering to `destination`, from
/// the sender's ephemeral secret: derives each hop's keys, then nests one
/// encrypted, tagged routing layer per hop from the inside out. Returns the
/// header together with every hop's keys; fails exactly when a route
/// position holds a final element instead of a forward hop.
pub fn build_header(
    initial_secret: &Vec<u8>,
    route: &Vec<RouteElement>,
    destination: &Vec<u8>,
) -> (r: Result<(SphinxHeader, Vec<RoutingKeys>), ProcessingError>)
    requires
        initial_secret@.len() == 32,
        1 <= route@.len() <= MAX_ROUTE_LENGTH,
        destination@.len() == DESTINATION_ADDRESS_LENGTH,
        forall|i: int| 0 <= i < route@.len() ==> (#[trigger] route@[i]).wf(),
    ensures
        r is Ok <==> all_forward_hops(route@),
        r is Err ==> r == Result::<(SphinxHeader, Vec<RoutingKeys>), ProcessingError>::Err(
            ProcessingError::IsNotForwardHopError,
        ),
        r is Ok ==> ({
            let model = header_model(initial_secret@, route@, destination@);
            let header = r->Ok_0.0;
            let hop_keys = r->Ok_0.1;
            &&& header.shared_secret@ == shared32(initial_secret@, x25519_base_point())
            &&& header.routing_info.enc_routing_information.value@ == model.enc(0)
            &&& header.routing_info.integrity_mac.value@ == model.mac(0)
            &&& header.wf()
            &&& hop_keys@.len() == route@.len()
            &&& forall|i: int|
                0 <= i < hop_keys@.len() ==> (#[trigger] hop_keys@[i]).derived_from(
                    hop_shared_secret(initial_secret@, route_pub_keys(route@), i as nat),
                ) && hop_keys@[i].wf()
        }),
{
    let ghost model = header_model(initial_secret@, route@, destination@);
    let n = route.len();

    let mut pub_keys: Vec<Vec<u8>> = Vec::new();
    let mut i: usize = 0;
    while i < n
        invariant
            i <= n,
            n == route@.len(),
            forall|k: int| 0 <= k < n ==> (#[trigger] route@[k]).wf(),
            pub_keys@.len() == i,
            forall|k: int| 0 <= k < i ==> route@[k] is ForwardHop,
            forall|k: int|
                0 <= k < i ==> (#[trigger] pub_keys@[k])@ == route_pub_keys(route@)[k],
            forall|k: int| 0 <= k < i ==> (#[trigger] pub_keys@[k])@.len() == 32,
        decreases n - i,
    {
        match &route[i] {
            RouteElement::ForwardHop(node) => {
                let key_copy = subrange_vec(&node.pub_key, 0, node.pub_key.len());
                proof {
                    assert(key_copy@ =~= route_pub_keys(route@)[i as int]);
                }
                pub_keys.push(key_copy);
            },
            RouteElement::FinalHop(_) => {
                proof {
                    assert(!(route@[i as int] is ForwardHop));
                }
                return Err(ProcessingError::IsNotForwardHopError);
            },
        }
        i = i + 1;
    }
    proof {
        assert(seq_views(pub_keys@) =~= route_pub_keys(route@));
    }

    let hop_keys = derive_hop_keys(initial_secret, &pub_keys);
    proof {
        assert(stream_keys_of(hop_keys@) =~= model.stream_keys);
        assert forall|k: int| 0 <= k < n implies (#[trigger] hop_keys@[k]).stream_cipher_key@
            == model.stream_keys[k] && hop_keys@[k].header_integrity_hmac_key@
            == model.mac_keys[k] by {}
        assert(model.wf());
    }

    // Innermost layer: sentinel, destination and padding, encrypted under
    // the last hop's stream key, with the filler appended behind it.
    let fill = build_filler(&hop_keys, n - 1);
    let sentinel = final_hop_sentinel_bytes();
    let head = concat_bytes(&sentinel, destination);
    let body_len = ROUTING_INFO_SIZE - 2 * SECURITY_PARAMETER * (n - 1);
    let padding = zero_bytes(body_len - 2 * SECURITY_PARAMETER);
    let body = concat_bytes(&head, &padding);
    proof {
        assert(body@ =~= model.body());
    }
    let iv = zero_bytes(STREAM_CIPHER_KEY_SIZE);
    let inner_ks = generate_pseudorandom_bytes(
        &hop_keys[n - 1].stream_cipher_key,
        &iv,
        STREAM_CIPHER_OUTPUT_LENGTH,
    );
    proof {
        lemma_padded_to_id(
            stream_cipher_bytes(
                model.stream_keys[n - 1],
                iv@,
                STREAM_CIPHER_OUTPUT_LENGTH as nat,
            ),
            STREAM_CIPHER_OUTPUT_LENGTH as nat,
        );
        assert(inner_ks@ == keystream(model.stream_keys[n - 1]));
    }
    let inner_prefix = subrange_vec(&inner_ks, 0, body_len);
    let enc_prefix = xor(&body, &inner_prefix);
    let inner_value = concat_bytes(&enc_prefix, &fill);
    proof {
        assert(inner_value@ =~= model.enc((n - 1) as nat));
        lemma_layer_enc_len(model, (n - 1) as nat);
    }
    let inner_enc = EncryptedRoutingInformation::from_bytes(inner_value);
    let mut layer = inner_enc.encapsulate_with_mac(&hop_keys[n - 1].header_integrity_hmac_key);
    proof {
        assert(layer.integrity_mac.value@ == model.mac((n - 1) as nat));
    }

    // Outer layers, next-to-last hop first: record, encrypt, seal.
    let mut j: usize = n - 1;
    while j > 0
        invariant
            j <= n - 1,
            n == route@.len(),
            1 <= n <= MAX_ROUTE_LENGTH,
            model == header_model(initial_secret@, route@, destination@),
            model.wf(),
            model.n() == n,
            forall|k: int| 0 <= k < n ==> (#[trigger] route@[k]).wf(),
            forall|k: int| 0 <= k < n ==> route@[k] is ForwardHop,
            hop_keys@.len() == n,
            forall|k: int| 0 <= k < n ==> (#[trigger] hop_keys@[k]).wf(),
            forall|k: int|
                0 <= k < n ==> (#[trigger] hop_keys@[k]).stream_cipher_key@
                    == model.stream_keys[k] && hop_keys@[k].header_integrity_hmac_key@
                    == model.mac_keys[k],
            layer.enc_routing_information.value@ == model.enc(j as nat),
            layer.integrity_mac.value@ == model.mac(j as nat),
            layer.wf(),
        decreases j,
    {
        let routing_info = match RoutingInformation::new(&route[j], layer) {
            Ok(info) => info,
            Err(_) => {
                // Every route element was checked to be a forward hop, so
                // this branch is proved unreachable.
                proof {
                    assert(route@[j as int] is ForwardHop);
                    assert(false);
                }
                vstd::pervasive::unreached()
            },
        };
        let enc_new = routing_info.encrypt(&hop_keys[j - 1].stream_cipher_key);
        proof {
            lemma_layer_enc_len(model, j as nat);
            assert(routing_info.node_address@ == model.next_addresses[j as int - 1]);
            assert(enc_new.value@ == model.enc((j - 1) as nat));
        }
        layer = enc_new.encapsulate_with_mac(&hop_keys[j - 1].header_integrity_hmac_key);
        j = j - 1;
    }

    let generator = curve_generator();
    let alpha = montgomery_multiply(initial_secret, &generator);
    proof {
        lemma_padded_to_id(montgomery_scalar_mult(initial_secret@, x25519_base_point()), 32);
    }
    let header = SphinxHeader { shared_secret: alpha, routing_info: layer };
    Ok((header, hop_keys))
}

} // verus!
