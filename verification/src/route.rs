//! Route elements: relays with their addresses and public keys, the final
//! destination, and the parsed outcome of one unwrap step.

use vstd::prelude::*;

use crate::bytes::fill_bytes;
use crate::constants::{DESTINATION_ADDRESS_LENGTH, NODE_ADDRESS_LENGTH};

verus! {

/// The address a relay record reserves for "deliver here": all bytes 0xff.
/// A record whose address field holds this pattern marks terminal delivery.
pub open spec fn final_hop_sentinel() -> Seq<u8> {
    Seq::new(NODE_ADDRESS_LENGTH as nat, |i: int| 255u8)
}

/// The sentinel address as a byte vector.
pub fn final_hop_sentinel_bytes() -> (r: Vec<u8>)
    ensures
        r@ == final_hop_sentinel(),
{
    fill_bytes(NODE_ADDRESS_LENGTH, 255u8)
}

/// One relay of a route: its address and its curve public key.
#[derive(Clone)]
pub struct MixNode {
    pub address: Vec<u8>,
    pub pub_key: Vec<u8>,
}

impl MixNode {
    /// Address and public key have their fixed sizes.
    pub open spec fn wf(&self) -> bool {
        self.address@.len() == NODE_ADDRESS_LENGTH && self.pub_key@.len() == 32
    }
}

/// One element of a route: a relay to forward through, or the final
/// destination address.
#[derive(Clone)]
pub enum RouteElement {
    ForwardHop(MixNode),
    FinalHop(Vec<u8>),
}

impl RouteElement {
    /// The element's byte fields have their fixed sizes.
    pub open spec fn wf(&self) -> bool {
        match self {
            RouteElement::ForwardHop(node) => node.wf(),
            RouteElement::FinalHop(destination) => destination@.len()
                == DESTINATION_ADDRESS_LENGTH,
        }
    }
}

/// What one unwrap step tells the relay to do next: forward the packet to
/// the given address, or deliver it to the given destination.
pub enum Hop {
    Forward(Vec<u8>),
    Final(Vec<u8>),
}

/// A fixed relay address for tests.
pub fn node_address_fixture() -> (r: Vec<u8>)
    ensures
        r@ == Seq::new(NODE_ADDRESS_LENGTH as nat, |i: int| 1u8),
{
    fill_bytes(NODE_ADDRESS_LENGTH, 1u8)
}

/// A fixed destination address for tests.
pub fn destination_address_fixture() -> (r: Vec<u8>)
    ensures
        r@ == Seq::new(DESTINATION_ADDRESS_LENGTH as nat, |i: int| 4u8),
{
    fill_bytes(DESTINATION_ADDRESS_LENGTH, 4u8)
}

} // verus!
