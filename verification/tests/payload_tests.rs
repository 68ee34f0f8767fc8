use sphinx::constants::{
    DESTINATION_ADDRESS_LENGTH, PAYLOAD_KEY_SIZE, PAYLOAD_SIZE, SECURITY_PARAMETER,
};
use sphinx::payload::Payload;
use sphinx::route::destination_address_fixture;
use sphinx::ProcessingError;

#[test]
fn from_bytes_returns_error_if_bytes_are_too_short() {
    let bytes = [0u8; 1].to_vec();
    let expected = ProcessingError::InvalidPayloadLengthError;
    match Payload::from_bytes(bytes) {
        Err(err) => assert_eq!(expected, err),
        _ => panic!("Should have returned an error when packet bytes too short"),
    };
}

#[test]
fn it_returns_encrypted_payload_of_expected_payload_size() {
    let message = vec![1u8, 16];
    let destination = destination_address_fixture();
    let payload_key: Vec<u8> = vec![3u8; PAYLOAD_KEY_SIZE];
    let final_enc_payload = Payload::encrypt_final_layer(&message, &payload_key, &destination)
        .unwrap();

    assert_eq!(PAYLOAD_SIZE, final_enc_payload.content.len());
}

#[test]
fn always_the_payload_is_of_the_same_expected_type() {
    let message = vec![1u8, 16];
    let destination = destination_address_fixture();
    let payload_key_1: Vec<u8> = vec![3u8; PAYLOAD_KEY_SIZE];
    let payload_key_2: Vec<u8> = vec![4u8; PAYLOAD_KEY_SIZE];
    let payload_key_3: Vec<u8> = vec![5u8; PAYLOAD_KEY_SIZE];
    let payload_keys = vec![payload_key_1.clone(), payload_key_2, payload_key_3];

    let final_enc_payload = Payload::encrypt_final_layer(&message, &payload_key_1, &destination)
        .unwrap();
    let payload_encapsulation = Payload::encrypt_outer_layers(final_enc_payload, &payload_keys);
    assert_eq!(PAYLOAD_SIZE, payload_encapsulation.content.len());
}

#[test]
fn unwrapping_results_in_original_payload_plaintext() {
    let message = vec![1u8, 16];
    let destination = destination_address_fixture();
    let payload_key_1: Vec<u8> = vec![3u8; PAYLOAD_KEY_SIZE];
    let payload_key_2: Vec<u8> = vec![4u8; PAYLOAD_KEY_SIZE];
    let payload_key_3: Vec<u8> = vec![5u8; PAYLOAD_KEY_SIZE];
    let payload_keys = vec![payload_key_1, payload_key_2, payload_key_3];

    let encrypted_payload = Payload::encapsulate_message(&message, &payload_keys, &destination)
        .unwrap();

    let mut unwrapped_payload = encrypted_payload;
    for payload_key in payload_keys.iter() {
        unwrapped_payload = unwrapped_payload.unwrap(payload_key);
    }

    let zero_bytes = vec![0u8; SECURITY_PARAMETER];
    let additional_padding =
        vec![0u8; PAYLOAD_SIZE - SECURITY_PARAMETER - message.len() - destination.len()];
    let expected_payload = [
        zero_bytes,
        destination,
        message,
        additional_padding,
    ]
    .concat();
    assert_eq!(expected_payload, unwrapped_payload.get_content());
}

#[test]
fn unwrap_layers_recovers_the_plaintext_in_one_call() {
    let message = b"hello".to_vec();
    let destination = destination_address_fixture();
    let payload_keys = vec![
        vec![6u8; PAYLOAD_KEY_SIZE],
        vec![7u8; PAYLOAD_KEY_SIZE],
    ];

    let encrypted_payload = Payload::encapsulate_message(&message, &payload_keys, &destination)
        .unwrap();
    assert_ne!(&encrypted_payload.content[..16], &[0u8; 16][..]);

    let recovered = encrypted_payload.unwrap_layers(&payload_keys);
    let content = recovered.get_content();
    assert_eq!(&content[..SECURITY_PARAMETER], &[0u8; SECURITY_PARAMETER][..]);
    assert_eq!(
        &content[SECURITY_PARAMETER..SECURITY_PARAMETER + DESTINATION_ADDRESS_LENGTH],
        &destination[..]
    );
    assert_eq!(
        &content[SECURITY_PARAMETER + DESTINATION_ADDRESS_LENGTH
            ..SECURITY_PARAMETER + DESTINATION_ADDRESS_LENGTH + message.len()],
        &message[..]
    );
}

#[test]
fn a_message_that_exactly_fills_the_payload_succeeds() {
    let message = vec![9u8; PAYLOAD_SIZE - SECURITY_PARAMETER - DESTINATION_ADDRESS_LENGTH];
    let destination = destination_address_fixture();
    let payload_keys = vec![vec![3u8; PAYLOAD_KEY_SIZE]];

    let payload = Payload::encapsulate_message(&message, &payload_keys, &destination).unwrap();
    assert_eq!(PAYLOAD_SIZE, payload.content.len());

    // The round trip shows there is no room left: zero bytes of inner padding.
    let recovered = payload.unwrap_layers(&payload_keys).get_content();
    let expected = [vec![0u8; SECURITY_PARAMETER], destination, message].concat();
    assert_eq!(expected, recovered);
}

#[test]
fn one_byte_more_is_rejected_as_too_large() {
    let message = vec![9u8; PAYLOAD_SIZE - SECURITY_PARAMETER - DESTINATION_ADDRESS_LENGTH + 1];
    let destination = destination_address_fixture();
    let payload_keys = vec![vec![3u8; PAYLOAD_KEY_SIZE]];

    match Payload::encapsulate_message(&message, &payload_keys, &destination) {
        Err(err) => assert_eq!(ProcessingError::PayloadTooLargeError, err),
        Ok(_) => panic!("an oversized message must be rejected"),
    }
}
