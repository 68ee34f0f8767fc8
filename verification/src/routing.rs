//! Routing information layers: the plaintext record of one hop (next
//! address, next layer's tag, truncated next layer), its stream-cipher
//! encryption, and the spec-level model of the whole nested header that the
//! builder and the unwrap engine are proved against.

use vstd::prelude::*;

use crate::bytes::{
    concat_bytes, fill_bytes, lemma_padded_to_id, subrange_vec, xor, xor_seq, zero_bytes, zeros,
};
use crate::constants::{
    DESTINATION_ADDRESS_LENGTH, ENCRYPTED_ROUTING_INFO_SIZE, HEADER_INTEGRITY_MAC_SIZE,
    MAX_ROUTE_LENGTH, NODE_ADDRESS_LENGTH, ROUTING_INFO_SIZE, SECURITY_PARAMETER,
    STREAM_CIPHER_KEY_SIZE, STREAM_CIPHER_OUTPUT_LENGTH, TRUNCATED_ROUTING_INFO_SIZE,
};
use crate::crypto::{generate_pseudorandom_bytes, keystream, stream_cipher_bytes};
use crate::mac::{header_mac_spec, HeaderIntegrityMac};
use crate::route::{final_hop_sentinel, RouteElement};
use crate::RoutingEncapsulationError;

verus! {

/// The filler that the builder appends behind the innermost routing body
/// after `j` outer hops: the accumulated XOR of the keystream tails of hops
/// `0 .. j`, 2 sigma bytes per hop. It is exactly what the unwrap path
/// regenerates at the positions each truncation dropped.
pub open spec fn filler(stream_keys: Seq<Seq<u8>>, j: nat) -> Seq<u8>
    decreases j,
{
    if j == 0 {
        Seq::empty()
    } else {
        xor_seq(
            filler(stream_keys, (j - 1) as nat) + zeros((2 * SECURITY_PARAMETER) as nat),
            keystream(stream_keys[j - 1]).subrange(
                ROUTING_INFO_SIZE + 2 * SECURITY_PARAMETER - 2 * SECURITY_PARAMETER * j,
                (ROUTING_INFO_SIZE + 2 * SECURITY_PARAMETER) as int,
            ),
        )
    }
}

/// The filler after `j` hops is `2 sigma * j` bytes long.
pub proof fn lemma_filler_len(stream_keys: Seq<Seq<u8>>, j: nat)
    ensures
        filler(stream_keys, j).len() == 2 * SECURITY_PARAMETER * j,
    decreases j,
{
    if j > 0 {
        lemma_filler_len(stream_keys, (j - 1) as nat);
    }
}

/// The spec-level model of a layered header: the per-hop stream and
/// integrity keys, the forwarding addresses carried in the records, and the
/// final destination.
pub struct HeaderLayerModel {
    pub stream_keys: Seq<Seq<u8>>,
    pub mac_keys: Seq<Seq<u8>>,
    pub next_addresses: Seq<Seq<u8>>,
    pub destination: Seq<u8>,
}

impl HeaderLayerModel {
    /// The number of hops of the modelled route.
    pub open spec fn n(&self) -> nat {
        self.stream_keys.len()
    }

    /// The model is for a route the format supports.
    pub open spec fn wf(&self) -> bool {
        &&& 1 <= self.n() <= MAX_ROUTE_LENGTH
        &&& self.mac_keys.len() == self.n()
        &&& self.next_addresses.len() == self.n() - 1
        &&& forall|j: int|
            0 <= j < self.n() - 1 ==> (#[trigger] self.next_addresses[j]).len()
                == NODE_ADDRESS_LENGTH
        &&& self.destination.len() == DESTINATION_ADDRESS_LENGTH
    }

    /// The innermost routing body: the delivery sentinel, the destination,
    /// and zero padding up to the space the filler leaves free.
    pub open spec fn body(&self) -> Seq<u8> {
        final_hop_sentinel() + self.destination + zeros(
            (ROUTING_INFO_SIZE - 2 * SECURITY_PARAMETER * (self.n() - 1) - 2
                * SECURITY_PARAMETER) as nat,
        )
    }

    /// The encrypted routing information hop `j` receives. The innermost
    /// layer is the encrypted body with the filler appended behind it; every
    /// outer layer encrypts the record of address, tag and truncated inner
    /// layer.
    pub open spec fn enc(&self, j: nat) -> Seq<u8>
        decreases self.n() - j,
    {
        if j + 1 >= self.n() {
            xor_seq(
                self.body(),
                keystream(self.stream_keys[self.n() - 1]).take(
                    ROUTING_INFO_SIZE - 2 * SECURITY_PARAMETER * (self.n() - 1),
                ),
            ) + filler(self.stream_keys, (self.n() - 1) as nat)
        } else {
            let inner = self.enc((j + 1) as nat);
            xor_seq(
                self.next_addresses[j as int] + header_mac_spec(self.mac_keys[j as int + 1], inner)
                    + inner.take(TRUNCATED_ROUTING_INFO_SIZE as int),
                keystream(self.stream_keys[j as int]).take(ROUTING_INFO_SIZE as int),
            )
        }
    }

    /// The integrity tag hop `j` receives next to `enc(j)`.
    pub open spec fn mac(&self, j: nat) -> Seq<u8> {
        header_mac_spec(self.mac_keys[j as int], self.enc(j))
    }
}

/// Every layer of a well-formed model is exactly `ROUTING_INFO_SIZE` bytes.
pub proof fn lemma_layer_enc_len(model: HeaderLayerModel, j: nat)
    requires
        model.wf(),
        j < model.n(),
    ensures
        model.enc(j).len() == ROUTING_INFO_SIZE,
    decreases model.n() - j,
{
    if j + 1 >= model.n() {
        lemma_filler_len(model.stream_keys, (model.n() - 1) as nat);
    } else {
        lemma_layer_enc_len(model, (j + 1) as nat);
    }
}

/// The plaintext routing record of one hop: where to forward, the next
/// layer's integrity tag, and as much of the next layer's encrypted buffer
/// as fits.
pub struct RoutingInformation {
    pub node_address: Vec<u8>,
    pub header_integrity_mac: HeaderIntegrityMac,
    pub next_routing_information: Vec<u8>,
}

impl RoutingInformation {
    /// The three components have their fixed sizes.
    pub open spec fn wf(&self) -> bool {
        &&& self.node_address@.len() == NODE_ADDRESS_LENGTH
        &&& self.header_integrity_mac.wf()
        &&& self.next_routing_information@.len() == TRUNCATED_ROUTING_INFO_SIZE
    }

    /// Builds the record that routes through `route_element` towards the
    /// already-encapsulated next layer; a final route element cannot stand
    /// here.
    pub fn new(
        route_element: &RouteElement,
        next_encapsulated_routing_information: EncapsulatedRoutingInformation,
    ) -> (r: Result<Self, RoutingEncapsulationError>)
        requires
            route_element.wf(),
            next_encapsulated_routing_information.wf(),
        ensures
            match route_element {
                RouteElement::ForwardHop(node) => {
                    &&& r is Ok
                    &&& r->Ok_0.node_address@ == node.address@
                    &&& r->Ok_0.header_integrity_mac.value@
                        == next_encapsulated_routing_information.integrity_mac.value@
                    &&& r->Ok_0.next_routing_information@
                        == next_encapsulated_routing_information.enc_routing_information.value@
                        .take(TRUNCATED_ROUTING_INFO_SIZE as int)
                    &&& r->Ok_0.wf()
                },
                RouteElement::FinalHop(_) => r == Result::<
                    Self,
                    RoutingEncapsulationError,
                >::Err(RoutingEncapsulationError::IsNotForwardHopError),
            },
    {
        let node_address = match route_element {
            RouteElement::ForwardHop(mixnode) => subrange_vec(
                &mixnode.address,
                0,
                mixnode.address.len(),
            ),
            _ => {
                return Err(RoutingEncapsulationError::IsNotForwardHopError);
            },
        };
        proof {
            assert(node_address@ =~= route_element->ForwardHop_0.address@);
        }
        Ok(
            RoutingInformation {
                node_address,
                header_integrity_mac: next_encapsulated_routing_information.integrity_mac,
                next_routing_information: next_encapsulated_routing_information
                    .enc_routing_information
                    .truncate(),
            },
        )
    }

    /// The record as one flat buffer: address, tag, truncated next layer.
    pub fn concatenate_components(self) -> (r: Vec<u8>)
        ensures
            r@ == self.node_address@ + self.header_integrity_mac.value@
                + self.next_routing_information@,
    {
        let head = concat_bytes(&self.node_address, &self.header_integrity_mac.value);
        let all = concat_bytes(&head, &self.next_routing_information);
        assert(all@ =~= self.node_address@ + self.header_integrity_mac.value@
            + self.next_routing_information@);
        all
    }

    /// Encrypts the record by XOR with the leading `ROUTING_INFO_SIZE` bytes
    /// of the hop's keystream.
    pub fn encrypt(self, key: &Vec<u8>) -> (r: EncryptedRoutingInformation)
        requires
            self.wf(),
            key@.len() == STREAM_CIPHER_KEY_SIZE,
        ensures
            r.value@ == xor_seq(
                self.node_address@ + self.header_integrity_mac.value@
                    + self.next_routing_information@,
                keystream(key@).take(ROUTING_INFO_SIZE as int),
            ),
            r.wf(),
    {
        let routing_info_components = self.concatenate_components();
        assert(routing_info_components@.len() == ENCRYPTED_ROUTING_INFO_SIZE);
        let encrypted = encrypt_routing_info(key, &routing_info_components);
        EncryptedRoutingInformation { value: encrypted }
    }
}

/// XOR of a full routing buffer with the leading `ROUTING_INFO_SIZE` bytes
/// of the keystream under `key`.
pub fn encrypt_routing_info(key: &Vec<u8>, routing_info: &Vec<u8>) -> (r: Vec<u8>)
    requires
        key@.len() == STREAM_CIPHER_KEY_SIZE,
        routing_info@.len() == ROUTING_INFO_SIZE,
    ensures
        r@ == xor_seq(routing_info@, keystream(key@).take(ROUTING_INFO_SIZE as int)),
        r@.len() == ROUTING_INFO_SIZE,
{
    let iv = zero_bytes(STREAM_CIPHER_KEY_SIZE);
    let pseudorandom_bytes = generate_pseudorandom_bytes(key, &iv, STREAM_CIPHER_OUTPUT_LENGTH);
    proof {
        lemma_padded_to_id(
            stream_cipher_bytes(key@, iv@, STREAM_CIPHER_OUTPUT_LENGTH as nat),
            STREAM_CIPHER_OUTPUT_LENGTH as nat,
        );
        assert(pseudorandom_bytes@ == keystream(key@));
    }
    let prefix = subrange_vec(&pseudorandom_bytes, 0, ROUTING_INFO_SIZE);
    xor(routing_info, &prefix)
}

/// The tag of an encrypted routing buffer under a header integrity key.
pub fn generate_routing_info_integrity_mac(key: &Vec<u8>, data: &Vec<u8>) -> (r:
    HeaderIntegrityMac)
    ensures
        r.value@ == header_mac_spec(key@, data@),
        r.wf(),
{
    HeaderIntegrityMac::compute(key, data)
}

/// One layer's encrypted routing buffer: opaque `ROUTING_INFO_SIZE` bytes.
#[derive(Clone)]
pub struct EncryptedRoutingInformation {
    pub value: Vec<u8>,
}

impl EncryptedRoutingInformation {
    /// The buffer has its fixed size.
    pub open spec fn wf(&self) -> bool {
        self.value@.len() == ENCRYPTED_ROUTING_INFO_SIZE
    }

    /// Wraps an exactly sized buffer.
    pub fn from_bytes(bytes: Vec<u8>) -> (r: Self)
        requires
            bytes@.len() == ENCRYPTED_ROUTING_INFO_SIZE,
        ensures
            r.value@ == bytes@,
            r.wf(),
    {
        Self { value: bytes }
    }

    /// The prefix that still fits into the next outer record.
    pub fn truncate(&self) -> (r: Vec<u8>)
        requires
            self.wf(),
        ensures
            r@ == self.value@.take(TRUNCATED_ROUTING_INFO_SIZE as int),
    {
        subrange_vec(&self.value, 0, TRUNCATED_ROUTING_INFO_SIZE)
    }

    /// The buffer's bytes.
    pub fn get_value(self) -> (r: Vec<u8>)
        ensures
            r@ == self.value@,
    {
        self.value
    }

    /// A borrow of the buffer's bytes.
    pub fn get_value_ref(&self) -> (r: &Vec<u8>)
        ensures
            r@ == self.value@,
    {
        &self.value
    }

    /// Seals the buffer with its integrity tag under `key`.
    pub fn encapsulate_with_mac(self, key: &Vec<u8>) -> (r: EncapsulatedRoutingInformation)
        requires
            self.wf(),
        ensures
            r.enc_routing_information.value@ == self.value@,
            r.integrity_mac.value@ == header_mac_spec(key@, self.value@),
            r.wf(),
    {
        let integrity_mac = HeaderIntegrityMac::compute(key, &self.value);
        EncapsulatedRoutingInformation { enc_routing_information: self, integrity_mac }
    }
}

/// An encrypted routing buffer together with the tag that seals it: what one
/// hop of the header carries.
#[derive(Clone)]
pub struct EncapsulatedRoutingInformation {
    pub enc_routing_information: EncryptedRoutingInformation,
    pub integrity_mac: HeaderIntegrityMac,
}

impl EncapsulatedRoutingInformation {
    /// Both parts have their fixed sizes.
    pub open spec fn wf(&self) -> bool {
        self.enc_routing_information.wf() && self.integrity_mac.wf()
    }
}

/// A fixed encrypted routing buffer for tests.
pub fn encrypted_routing_information_fixture() -> (r: EncryptedRoutingInformation)
    ensures
        r.value@ == Seq::new(ENCRYPTED_ROUTING_INFO_SIZE as nat, |i: int| 5u8),
        r.wf(),
{
    EncryptedRoutingInformation { value: fill_bytes(ENCRYPTED_ROUTING_INFO_SIZE, 5u8) }
}

/// A fixed encapsulated layer for tests.
pub fn encapsulated_routing_information_fixture() -> (r: EncapsulatedRoutingInformation)
    ensures
        r.wf(),
{
    let enc_routing_information = encrypted_routing_information_fixture();
    let integrity_mac = crate::mac::header_integrity_mac_fixture();
    EncapsulatedRoutingInformation { enc_routing_information, integrity_mac }
}

} // verus!
