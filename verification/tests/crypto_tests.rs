use sha2::Digest;
use sphinx::constants::STREAM_CIPHER_KEY_SIZE;
use sphinx::crypto::{
    compute_keyed_hmac, generate_pseudorandom_bytes, generate_random_curve_point, generate_secret,
};

#[test]
fn it_generates_output_of_size_10000() {
    let key: Vec<u8> = vec![1, 2, 3, 4, 5, 6, 7, 8, 9, 10, 11, 12, 13, 14, 15, 16];
    let iv: Vec<u8> = vec![0, 0, 0, 0, 0, 0, 0, 0, 0, 0, 0, 0, 0, 0, 0, 0];

    let rand_bytes = generate_pseudorandom_bytes(&key, &iv, 10000);
    assert_eq!(10000, rand_bytes.len());
}

#[test]
fn it_returns_a_32_byte_scalar() {
    let secret = generate_secret();
    assert_eq!(32, secret.len());
}

#[test]
fn it_returns_a_32_byte_montgomery_point() {
    let secret = generate_random_curve_point();
    assert_eq!(32, secret.len());
}

#[test]
fn keystream_digest_matches_reference() {
    let key: Vec<u8> = vec![1, 2, 3, 4, 5, 6, 7, 8, 9, 10, 11, 12, 13, 14, 15, 16];
    let iv: Vec<u8> = vec![0u8; STREAM_CIPHER_KEY_SIZE];

    let stream = generate_pseudorandom_bytes(&key, &iv, 10000);
    let digest = sha2::Sha256::digest(&stream);
    let mut hex = String::new();
    for byte in digest.iter() {
        hex.push_str(&format!("{:02x}", byte));
    }
    assert_eq!(
        "62a2a16eeb555566581f925ad78049c8464ddba268332c8b51eb4506c99e705a",
        hex
    );
}

#[test]
fn hmac_is_32_bytes_and_key_sensitive() {
    let data: Vec<u8> = vec![9u8; 176];
    let tag_one = compute_keyed_hmac(&vec![1u8; 32], &data);
    let tag_two = compute_keyed_hmac(&vec![2u8; 32], &data);
    assert_eq!(32, tag_one.len());
    assert_eq!(32, tag_two.len());
    assert_ne!(tag_one, tag_two);
}
