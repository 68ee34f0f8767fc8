//! Deployment constants of the packet format. All derived sizes follow from
//! the security parameter and the maximum route length.

use vstd::prelude::*;

verus! {

/// The security parameter sigma: byte length of node addresses, destination
/// addresses and header integrity tags.
pub const SECURITY_PARAMETER: usize = 16;

/// Byte length of a relay's address inside a routing record.
pub const NODE_ADDRESS_LENGTH: usize = SECURITY_PARAMETER;

/// Byte length of the final destination address.
pub const DESTINATION_ADDRESS_LENGTH: usize = SECURITY_PARAMETER;

/// Byte length of a (truncated) header integrity tag.
pub const HEADER_INTEGRITY_MAC_SIZE: usize = SECURITY_PARAMETER;

/// Byte length of the key handed to the header integrity PRF.
pub const INTEGRITY_MAC_KEY_SIZE: usize = 32;

/// Maximum number of hops a route may have.
pub const MAX_ROUTE_LENGTH: usize = 5;

/// Byte length of the (encrypted) routing information buffer carried in a
/// header: one 3-sigma block for the innermost record plus 2 sigma for every
/// additional hop.
pub const ROUTING_INFO_SIZE: usize = (2 * MAX_ROUTE_LENGTH + 1) * SECURITY_PARAMETER;

/// Alias used on the encryption path for the same buffer.
pub const ENCRYPTED_ROUTING_INFO_SIZE: usize = ROUTING_INFO_SIZE;

/// The prefix of an inner encrypted routing buffer that still fits into the
/// next outer record after the address and the tag have been written.
pub const TRUNCATED_ROUTING_INFO_SIZE: usize = ROUTING_INFO_SIZE - NODE_ADDRESS_LENGTH
    - HEADER_INTEGRITY_MAC_SIZE;

/// Number of keystream bytes produced for every header layer: enough to cover
/// the routing buffer and the zero padding added on the unwrap path.
pub const STREAM_CIPHER_OUTPUT_LENGTH: usize = ROUTING_INFO_SIZE + 3 * SECURITY_PARAMETER;

/// Byte length of a stream-cipher key.
pub const STREAM_CIPHER_KEY_SIZE: usize = 16;

/// Byte length of a per-hop payload key: the raw key size of the wide-block
/// cipher (two 32-byte stream-cipher keys and two 64-byte digest keys).
pub const PAYLOAD_KEY_SIZE: usize = 192;

/// Byte length of a blinding-factor scalar.
pub const BLINDING_FACTOR_SIZE: usize = 32;

/// Total byte length of a payload; the wide-block cipher operates on exactly
/// this length.
pub const PAYLOAD_SIZE: usize = 1024;

} // verus!
