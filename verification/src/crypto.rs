//! The cryptographic primitives of the packet format, each one a thin trusted
//! wrapper around an outside implementation: AES-128-CTR keystreams,
//! HMAC-SHA-256 tags, the Lioness wide-block cipher and Curve25519 group
//! operations. Every wrapper's contract names what the call returns, so that
//! the verified layers above can be exact about what they compute.

use vstd::prelude::*;

use aes_ctr::cipher::stream::{NewStreamCipher, SyncStreamCipher};
use hmac::Mac;

use crate::bytes::{padded_to, zeros};
use crate::constants::{PAYLOAD_KEY_SIZE, STREAM_CIPHER_KEY_SIZE, STREAM_CIPHER_OUTPUT_LENGTH};

verus! {

/// The keystream that AES-128-CTR produces under a key and an IV: a
/// deterministic function of its three arguments.
pub uninterp spec fn stream_cipher_bytes(key: Seq<u8>, iv: Seq<u8>, length: nat) -> Seq<u8>;

/// The 32-byte tag that HMAC-SHA-256 produces over a key and a message: a
/// deterministic function of both.
pub uninterp spec fn hmac_sha256_tag(key: Seq<u8>, data: Seq<u8>) -> Seq<u8>;

/// The block that Lioness encryption produces under a raw key: a
/// deterministic function of key and block.
pub uninterp spec fn lioness_encrypted(key: Seq<u8>, block: Seq<u8>) -> Seq<u8>;

/// The block that Lioness decryption produces under a raw key: a
/// deterministic function of key and block.
pub uninterp spec fn lioness_decrypted(key: Seq<u8>, block: Seq<u8>) -> Seq<u8>;

/// The Montgomery u-coordinate of scalar times point on Curve25519, the
/// scalar bytes taken modulo the group order: a deterministic function of
/// both arguments.
pub uninterp spec fn montgomery_scalar_mult(scalar: Seq<u8>, point: Seq<u8>) -> Seq<u8>;

/// The canonical bytes of the product of two Curve25519 scalars modulo the
/// group order: a deterministic function of both arguments.
pub uninterp spec fn scalar_mul_mod_order(a: Seq<u8>, b: Seq<u8>) -> Seq<u8>;

/// The all-zero IV under which every header keystream is produced. Safe only
/// because every stream-cipher key is freshly derived and used once.
pub open spec fn stream_iv() -> Seq<u8> {
    zeros(STREAM_CIPHER_KEY_SIZE as nat)
}

/// The keystream of one header layer, normalised to its known length.
pub open spec fn keystream(key: Seq<u8>) -> Seq<u8> {
    padded_to(
        stream_cipher_bytes(key, stream_iv(), STREAM_CIPHER_OUTPUT_LENGTH as nat),
        STREAM_CIPHER_OUTPUT_LENGTH as nat,
    )
}

/// The HMAC-SHA-256 tag, normalised to its known length of 32 bytes.
pub open spec fn hmac32(key: Seq<u8>, data: Seq<u8>) -> Seq<u8> {
    padded_to(hmac_sha256_tag(key, data), 32)
}

/// Lioness encryption, normalised to its known (preserved) block length.
pub open spec fn wide_block_enc(key: Seq<u8>, block: Seq<u8>) -> Seq<u8> {
    padded_to(lioness_encrypted(key, block), block.len())
}

/// Lioness decryption, normalised to its known (preserved) block length.
pub open spec fn wide_block_dec(key: Seq<u8>, block: Seq<u8>) -> Seq<u8> {
    padded_to(lioness_decrypted(key, block), block.len())
}

/// Scalar times point, normalised to its known length of 32 bytes.
pub open spec fn shared32(scalar: Seq<u8>, point: Seq<u8>) -> Seq<u8> {
    padded_to(montgomery_scalar_mult(scalar, point), 32)
}

/// Scalar product, normalised to its known length of 32 bytes.
pub open spec fn scalar_mul32(a: Seq<u8>, b: Seq<u8>) -> Seq<u8> {
    padded_to(scalar_mul_mod_order(a, b), 32)
}

/// The u-coordinate of the X25519 base point: 9 followed by zero bytes.
pub open spec fn x25519_base_point() -> Seq<u8> {
    Seq::new(32, |i: int| if i == 0 { 9u8 } else { 0u8 })
}

/// Relies on aes_ctr::Aes128Ctr (aes-ctr): applying its keystream to an
/// all-zero buffer of `length` bytes returns the raw AES-128-CTR keystream
/// for the given key and IV, a deterministic, length-preserving operation.
#[verifier::external_body]
pub fn generate_pseudorandom_bytes(key: &Vec<u8>, iv: &Vec<u8>, length: usize) -> (r: Vec<u8>)
    requires
        key@.len() == STREAM_CIPHER_KEY_SIZE,
        iv@.len() == STREAM_CIPHER_KEY_SIZE,
    ensures
        r@ == stream_cipher_bytes(key@, iv@, length as nat),
        r@.len() == length,
{
    let cipher_key = aes_ctr::cipher::generic_array::GenericArray::from_slice(&key[..]);
    let cipher_nonce = aes_ctr::cipher::generic_array::GenericArray::from_slice(&iv[..]);
    let mut cipher = aes_ctr::Aes128Ctr::new(cipher_key, cipher_nonce);
    let mut data = vec![0u8; length];
    cipher.apply_keystream(&mut data);
    data
}

/// Relies on hmac::Hmac with sha2::Sha256: the tag is a deterministic
/// function of key and message, is 32 bytes long, and a key of any length is
/// accepted.
#[verifier::external_body]
pub fn compute_keyed_hmac(key: &Vec<u8>, data: &Vec<u8>) -> (r: Vec<u8>)
    ensures
        r@ == hmac_sha256_tag(key@, data@),
        r@.len() == 32,
{
    let mut mac = hmac::Hmac::<sha2::Sha256>::new_from_slice(key.as_slice())
        .expect("HMAC can take key of any size");
    mac.update(data.as_slice());
    mac.finalize().into_bytes().to_vec()
}

/// Relies on lioness::Lioness::encrypt (with blake2::VarBlake2b and
/// chacha::ChaCha): in-place wide-block encryption, deterministic in key and
/// block and length-preserving; it succeeds on every block longer than 32
/// bytes, and lioness::Lioness::decrypt inverts it.
#[verifier::external_body]
pub fn lioness_encrypt_block(key: &Vec<u8>, block: &mut Vec<u8>)
    requires
        key@.len() == PAYLOAD_KEY_SIZE,
        old(block)@.len() > 32,
    ensures
        final(block)@ == padded_to(lioness_encrypted(key@, old(block)@), old(block)@.len()),
        final(block)@.len() == old(block)@.len(),
        padded_to(lioness_decrypted(key@, final(block)@), final(block)@.len()) == old(block)@,
{
    let mut raw = [0u8; lioness::RAW_KEY_SIZE];
    raw.copy_from_slice(key.as_slice());
    let cipher = lioness::Lioness::<blake2::VarBlake2b, chacha::ChaCha>::new_raw(&raw);
    cipher.encrypt(block.as_mut_slice()).expect("block is longer than 32 bytes");
}

/// Relies on lioness::Lioness::decrypt (with blake2::VarBlake2b and
/// chacha::ChaCha): in-place wide-block decryption, deterministic in key and
/// block and length-preserving; it succeeds on every block longer than 32
/// bytes and inverts lioness::Lioness::encrypt on blocks of the same length.
#[verifier::external_body]
pub fn lioness_decrypt_block(key: &Vec<u8>, block: &mut Vec<u8>)
    requires
        key@.len() == PAYLOAD_KEY_SIZE,
        old(block)@.len() > 32,
    ensures
        final(block)@ == padded_to(lioness_decrypted(key@, old(block)@), old(block)@.len()),
        final(block)@.len() == old(block)@.len(),
        forall|b: Seq<u8>|
            b.len() == old(block)@.len() && old(block)@ == padded_to(
                #[trigger] lioness_encrypted(key@, b),
                b.len(),
            ) ==> final(block)@ == b,
{
    let mut raw = [0u8; lioness::RAW_KEY_SIZE];
    raw.copy_from_slice(key.as_slice());
    let cipher = lioness::Lioness::<blake2::VarBlake2b, chacha::ChaCha>::new_raw(&raw);
    cipher.decrypt(block.as_mut_slice()).expect("block is longer than 32 bytes");
}

/// Relies on curve25519_dalek: Scalar::from_bytes_mod_order followed by
/// MontgomeryPoint multiplication; the resulting u-coordinate is a
/// deterministic 32-byte function of the scalar and point bytes.
#[verifier::external_body]
pub fn montgomery_multiply(scalar: &Vec<u8>, point: &Vec<u8>) -> (r: Vec<u8>)
    requires
        scalar@.len() == 32,
        point@.len() == 32,
    ensures
        r@ == montgomery_scalar_mult(scalar@, point@),
        r@.len() == 32,
{
    let mut sb = [0u8; 32];
    sb.copy_from_slice(scalar.as_slice());
    let mut pb = [0u8; 32];
    pb.copy_from_slice(point.as_slice());
    let s = curve25519_dalek::scalar::Scalar::from_bytes_mod_order(sb);
    let p = curve25519_dalek::montgomery::MontgomeryPoint(pb);
    (&p * &s).to_bytes().to_vec()
}

/// Relies on curve25519_dalek::scalar::Scalar multiplication: the canonical
/// bytes of the product modulo the group order, deterministic in both
/// arguments (each first reduced modulo the order).
#[verifier::external_body]
pub fn multiply_scalars(a: &Vec<u8>, b: &Vec<u8>) -> (r: Vec<u8>)
    requires
        a@.len() == 32,
        b@.len() == 32,
    ensures
        r@ == scalar_mul_mod_order(a@, b@),
        r@.len() == 32,
{
    let mut ab = [0u8; 32];
    ab.copy_from_slice(a.as_slice());
    let mut bb = [0u8; 32];
    bb.copy_from_slice(b.as_slice());
    let x = curve25519_dalek::scalar::Scalar::from_bytes_mod_order(ab);
    let y = curve25519_dalek::scalar::Scalar::from_bytes_mod_order(bb);
    (x * y).to_bytes().to_vec()
}

/// Relies on curve25519_dalek::scalar::Scalar::random with rand_core::OsRng:
/// a uniformly random scalar; only its canonical 32-byte size is assumed.
#[verifier::external_body]
pub fn generate_secret() -> (r: Vec<u8>)
    ensures
        r@.len() == 32,
{
    let mut rng = rand_core::OsRng;
    curve25519_dalek::scalar::Scalar::random(&mut rng).to_bytes().to_vec()
}

/// Accepts the 32 bytes of a received curve point as a public key; points
/// travel as their Montgomery u-coordinate bytes throughout.
pub fn public_key_from_bytes(bytes: Vec<u8>) -> (r: Vec<u8>)
    requires
        bytes@.len() == 32,
    ensures
        r@ == bytes@,
{
    bytes
}

/// The fixed generator of the curve group as a byte vector.
pub fn curve_generator() -> (r: Vec<u8>)
    ensures
        r@ == x25519_base_point(),
{
    let mut v: Vec<u8> = Vec::new();
    v.push(9u8);
    let mut i: usize = 1;
    while i < 32
        invariant
            1 <= i <= 32,
            v@.len() == i,
            forall|k: int| 0 <= k < i ==> v@[k] == x25519_base_point()[k],
        decreases 32 - i,
    {
        v.push(0u8);
        i = i + 1;
    }
    assert(v@ =~= x25519_base_point());
    v
}

/// A fresh secret scalar together with its public curve point.
pub fn keygen() -> (r: (Vec<u8>, Vec<u8>))
    ensures
        r.0@.len() == 32,
        r.1@ == shared32(r.0@, x25519_base_point()),
{
    let secret_key = generate_secret();
    let generator = curve_generator();
    let public_key = montgomery_multiply(&secret_key, &generator);
    proof {
        crate::bytes::lemma_padded_to_id(montgomery_scalar_mult(secret_key@, generator@), 32);
    }
    (secret_key, public_key)
}

/// A random point on the curve: the generator raised to a fresh secret.
pub fn generate_random_curve_point() -> (r: Vec<u8>)
    ensures
        r@.len() == 32,
{
    let (_secret_key, public_key) = keygen();
    public_key
}

} // verus!
