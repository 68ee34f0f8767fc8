use sphinx::bytes::xor;
use sphinx::constants::{
    ENCRYPTED_ROUTING_INFO_SIZE, HEADER_INTEGRITY_MAC_SIZE, ROUTING_INFO_SIZE,
    SECURITY_PARAMETER, STREAM_CIPHER_KEY_SIZE, STREAM_CIPHER_OUTPUT_LENGTH,
    TRUNCATED_ROUTING_INFO_SIZE,
};
use sphinx::crypto::{compute_keyed_hmac, generate_pseudorandom_bytes};
use sphinx::mac::{header_integrity_mac_fixture, HeaderIntegrityMac};
use sphinx::route::{node_address_fixture, MixNode, RouteElement};
use sphinx::routing::{
    encrypt_routing_info, encrypted_routing_information_fixture,
    encapsulated_routing_information_fixture, generate_routing_info_integrity_mac,
    EncryptedRoutingInformation, RoutingInformation,
};
use sphinx::unwrap::{
    add_zero_padding_to_encrypted_routing_information, check_integrity_mac,
    decrypt_padded_routing_info, unwrap_routing_information,
};
use sphinx::RoutingEncapsulationError;

fn zero_iv() -> Vec<u8> {
    vec![0u8; STREAM_CIPHER_KEY_SIZE]
}

#[test]
fn it_returns_encrypted_truncated_address_concatenated_with_inner_layer_and_mac_on_it() {
    let address = node_address_fixture();
    let forward_hop = RouteElement::ForwardHop(MixNode {
        address: address.clone(),
        pub_key: vec![0u8; 32],
    });

    let stream_cipher_key: Vec<u8> = vec![2u8; STREAM_CIPHER_KEY_SIZE];
    let header_integrity_hmac_key: Vec<u8> = vec![3u8; 32];
    let inner_layer_routing = encapsulated_routing_information_fixture();

    // calculate everything without using any object methods
    let concatenated_materials: Vec<u8> = [
        address.clone(),
        inner_layer_routing.integrity_mac.value.clone(),
        inner_layer_routing
            .enc_routing_information
            .value
            .iter()
            .cloned()
            .take(TRUNCATED_ROUTING_INFO_SIZE)
            .collect(),
    ]
    .concat();

    let pseudorandom_bytes = generate_pseudorandom_bytes(
        &stream_cipher_key,
        &zero_iv(),
        STREAM_CIPHER_OUTPUT_LENGTH,
    );

    let expected_encrypted_routing_info_vec = xor(
        &concatenated_materials,
        &pseudorandom_bytes[..ENCRYPTED_ROUTING_INFO_SIZE].to_vec(),
    );

    let mut expected_routing_mac = compute_keyed_hmac(
        &header_integrity_hmac_key,
        &expected_encrypted_routing_info_vec,
    );
    expected_routing_mac.truncate(HEADER_INTEGRITY_MAC_SIZE);

    let next_layer_routing = RoutingInformation::new(&forward_hop, inner_layer_routing)
        .unwrap()
        .encrypt(&stream_cipher_key)
        .encapsulate_with_mac(&header_integrity_hmac_key);

    assert_eq!(
        expected_encrypted_routing_info_vec,
        next_layer_routing.enc_routing_information.value
    );
    assert_eq!(expected_routing_mac, next_layer_routing.integrity_mac.value);
}

#[test]
fn it_is_possible_to_decrypt_it_to_recover_original_data() {
    let key: Vec<u8> = vec![2u8; STREAM_CIPHER_KEY_SIZE];
    let address = node_address_fixture();
    let mac = header_integrity_mac_fixture();
    let next_routing: Vec<u8> = vec![8u8; TRUNCATED_ROUTING_INFO_SIZE];

    let encryption_data = [
        address.clone(),
        mac.value.clone(),
        next_routing.clone(),
    ]
    .concat();

    let routing_information = RoutingInformation {
        node_address: address,
        header_integrity_mac: mac,
        next_routing_information: next_routing,
    };

    let encrypted_data = routing_information.encrypt(&key);
    let decryption_key_source = generate_pseudorandom_bytes(
        &key,
        &zero_iv(),
        STREAM_CIPHER_OUTPUT_LENGTH,
    );
    let decryption_key = decryption_key_source[..ENCRYPTED_ROUTING_INFO_SIZE].to_vec();
    let decrypted_data = xor(&encrypted_data.value, &decryption_key);
    assert_eq!(encryption_data, decrypted_data);
}

#[test]
fn it_does_not_change_prefixed_data() {
    let encrypted_routing_info = encrypted_routing_information_fixture();
    let routing_info_data_copy = encrypted_routing_info.value.clone();

    let truncated_routing_info = encrypted_routing_info.truncate();
    for i in 0..truncated_routing_info.len() {
        assert_eq!(truncated_routing_info[i], routing_info_data_copy[i]);
    }
}

#[test]
fn it_returns_true_if_mac_matching() {
    let data: Vec<u8> = vec![1u8; ROUTING_INFO_SIZE];
    let mac_key: Vec<u8> = vec![2u8; 32];
    let hmac = generate_routing_info_integrity_mac(&mac_key, &data);

    assert_eq!(true, check_integrity_mac(&hmac, &mac_key, &data));
}

#[test]
fn it_returns_false_if_mac_not_matching() {
    let data: Vec<u8> = vec![1u8; ROUTING_INFO_SIZE];
    let mac_key: Vec<u8> = vec![2u8; 32];
    let hmac = HeaderIntegrityMac { value: vec![0u8; HEADER_INTEGRITY_MAC_SIZE] };

    assert_eq!(false, check_integrity_mac(&hmac, &mac_key, &data));
}

#[test]
fn it_returns_a_correctly_padded_bytes() {
    let enc_header: Vec<u8> = vec![6u8; ROUTING_INFO_SIZE];
    let padded_enc_header = add_zero_padding_to_encrypted_routing_information(&enc_header);
    assert_eq!(
        ROUTING_INFO_SIZE + 3 * SECURITY_PARAMETER,
        padded_enc_header.len()
    );
}

#[test]
fn it_returns_output_equal_to_input_plaintext() {
    let routing_info: Vec<u8> = vec![9u8; ROUTING_INFO_SIZE];
    let key: Vec<u8> = vec![1u8; STREAM_CIPHER_KEY_SIZE];

    let enc_routing_info = encrypt_routing_info(&key, &routing_info);
    let padded_enc_routing_info = [
        enc_routing_info,
        vec![0u8; 3 * SECURITY_PARAMETER],
    ]
    .concat();
    let decrypted_routing_info = decrypt_padded_routing_info(&key, &padded_enc_routing_info);
    assert_eq!(padded_enc_routing_info.len(), decrypted_routing_info.len());
    assert!(decrypted_routing_info[..routing_info.len()]
        .iter()
        .eq(routing_info.iter()));
}

#[test]
fn truncation_and_zero_padding_recover_the_full_inner_layer() {
    let key: Vec<u8> = vec![2u8; STREAM_CIPHER_KEY_SIZE];
    let keystream = generate_pseudorandom_bytes(&key, &zero_iv(), STREAM_CIPHER_OUTPUT_LENGTH);

    // An inner encrypted buffer whose truncated tail matches the keystream
    // bytes the peel regenerates, as the builder arranges through the filler.
    let mut inner: Vec<u8> = vec![7u8; TRUNCATED_ROUTING_INFO_SIZE];
    inner.extend_from_slice(
        &keystream[ROUTING_INFO_SIZE..ROUTING_INFO_SIZE + 2 * SECURITY_PARAMETER],
    );

    let address = node_address_fixture();
    let tag = header_integrity_mac_fixture();
    let record = [
        address.clone(),
        tag.value.clone(),
        inner[..TRUNCATED_ROUTING_INFO_SIZE].to_vec(),
    ]
    .concat();
    let enc = encrypt_routing_info(&key, &record);

    let unwrapped = unwrap_routing_information(
        &EncryptedRoutingInformation::from_bytes(enc),
        &key,
    );
    assert_eq!(address, unwrapped.next_hop_address);
    assert_eq!(tag.value, unwrapped.next_layer_mac.value);
    assert_eq!(inner, unwrapped.next_routing_information.value);
}

#[test]
fn a_final_element_cannot_stand_as_a_forward_hop() {
    let inner_layer_routing = encapsulated_routing_information_fixture();
    let final_element = RouteElement::FinalHop(vec![4u8; SECURITY_PARAMETER]);
    match RoutingInformation::new(&final_element, inner_layer_routing) {
        Err(err) => assert_eq!(RoutingEncapsulationError::IsNotForwardHopError, err),
        Ok(_) => panic!("a final element must not become a routing record"),
    }
}
