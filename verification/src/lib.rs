//! Core of a Sphinx-style mix-network packet format: layered onion encryption
//! of a routing header (stream-cipher layers, each sealed with a truncated
//! HMAC tag) and of a fixed-size payload (wide-block cipher layers), together
//! with the per-hop unwrap engine that peels one layer at a time.

use vstd::prelude::*;

pub mod bytes;
pub mod constants;
pub mod crypto;
pub mod header;
pub mod keys;
pub mod laws;
pub mod mac;
pub mod payload;
pub mod route;
pub mod routing;
pub mod unwrap;

verus! {

/// Everything that can go wrong while building or unwrapping a packet.
#[derive(Clone, Copy, Debug, PartialEq, Eq, Structural)]
pub enum ProcessingError {
    /// A route position that must carry a forward hop held a final element.
    IsNotForwardHopError,
    /// The message does not fit into a payload next to the destination
    /// address and the integrity beacon.
    PayloadTooLargeError,
    /// A received payload buffer is shorter than a payload.
    InvalidPayloadLengthError,
    /// The header integrity tag did not match during an unwrap.
    HeaderIntegrityError,
}

/// Everything that can go wrong while encapsulating one routing layer.
#[derive(Clone, Copy, Debug, PartialEq, Eq, Structural)]
pub enum RoutingEncapsulationError {
    /// The route element named as the next hop is not a forward hop.
    IsNotForwardHopError,
}

} // verus!
