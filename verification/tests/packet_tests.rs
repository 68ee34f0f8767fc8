use sphinx::constants::{
    DESTINATION_ADDRESS_LENGTH, NODE_ADDRESS_LENGTH, PAYLOAD_SIZE, SECURITY_PARAMETER,
};
use sphinx::crypto::{curve_generator, montgomery_multiply};
use sphinx::header::build_header;
use sphinx::payload::Payload;
use sphinx::route::{Hop, MixNode, RouteElement};
use sphinx::unwrap::process_hop;
use sphinx::ProcessingError;

fn forward_hop(address_byte: u8, identity_scalar: &Vec<u8>) -> RouteElement {
    let generator = curve_generator();
    RouteElement::ForwardHop(MixNode {
        address: vec![address_byte; NODE_ADDRESS_LENGTH],
        pub_key: montgomery_multiply(identity_scalar, &generator),
    })
}

fn three_hop_setup() -> (Vec<u8>, Vec<RouteElement>, Vec<Vec<u8>>, Vec<u8>) {
    let scalar_a: Vec<u8> = vec![11u8; 32];
    let scalar_b: Vec<u8> = vec![12u8; 32];
    let scalar_c: Vec<u8> = vec![13u8; 32];
    let route = vec![
        forward_hop(0x01, &scalar_a),
        forward_hop(0x02, &scalar_b),
        forward_hop(0x03, &scalar_c),
    ];
    let destination = vec![0x04u8; DESTINATION_ADDRESS_LENGTH];
    let initial_secret: Vec<u8> = vec![7u8; 32];
    (initial_secret, route, vec![scalar_a, scalar_b, scalar_c], destination)
}

#[test]
fn three_hops_deliver_the_message_to_the_destination() {
    let (initial_secret, route, scalars, destination) = three_hop_setup();
    let message = b"hello".to_vec();

    let (header, hop_keys) = build_header(&initial_secret, &route, &destination).unwrap();
    let payload_keys: Vec<Vec<u8>> =
        hop_keys.iter().map(|keys| keys.payload_key.clone()).collect();
    let payload = Payload::encapsulate_message(&message, &payload_keys, &destination).unwrap();

    let (header, payload, hop) = process_hop(&scalars[0], &header, payload).unwrap();
    match hop {
        Hop::Forward(address) => assert_eq!(vec![0x02u8; NODE_ADDRESS_LENGTH], address),
        Hop::Final(_) => panic!("the first hop must forward"),
    }
    let (header, payload, hop) = process_hop(&scalars[1], &header, payload).unwrap();
    match hop {
        Hop::Forward(address) => assert_eq!(vec![0x03u8; NODE_ADDRESS_LENGTH], address),
        Hop::Final(_) => panic!("the second hop must forward"),
    }
    let (_header, payload, hop) = process_hop(&scalars[2], &header, payload).unwrap();
    match hop {
        Hop::Final(recovered_destination) => assert_eq!(destination, recovered_destination),
        Hop::Forward(_) => panic!("the last hop must deliver"),
    }

    let content = payload.get_content();
    let expected = [
        vec![0u8; SECURITY_PARAMETER],
        destination,
        message.clone(),
        vec![0u8; PAYLOAD_SIZE - 2 * SECURITY_PARAMETER - message.len()],
    ]
    .concat();
    assert_eq!(expected, content);
}

#[test]
fn a_flipped_mac_bit_is_rejected_at_the_first_hop() {
    let (initial_secret, route, scalars, destination) = three_hop_setup();
    let message = b"hello".to_vec();

    let (mut header, hop_keys) = build_header(&initial_secret, &route, &destination).unwrap();
    let payload_keys: Vec<Vec<u8>> =
        hop_keys.iter().map(|keys| keys.payload_key.clone()).collect();
    let payload = Payload::encapsulate_message(&message, &payload_keys, &destination).unwrap();

    let last = header.routing_info.integrity_mac.value.len() - 1;
    header.routing_info.integrity_mac.value[last] ^= 1;

    match process_hop(&scalars[0], &header, payload) {
        Err(err) => assert_eq!(ProcessingError::HeaderIntegrityError, err),
        Ok(_) => panic!("a flipped tag bit must be rejected"),
    }
}

#[test]
fn a_flipped_payload_byte_passes_hops_but_destroys_the_beacon() {
    let (initial_secret, route, scalars, destination) = three_hop_setup();
    let message = b"hello".to_vec();

    let (header, hop_keys) = build_header(&initial_secret, &route, &destination).unwrap();
    let payload_keys: Vec<Vec<u8>> =
        hop_keys.iter().map(|keys| keys.payload_key.clone()).collect();
    let mut payload = Payload::encapsulate_message(&message, &payload_keys, &destination).unwrap();
    payload.content[100] ^= 1;

    let (header, payload, _hop) = process_hop(&scalars[0], &header, payload).unwrap();
    let (header, payload, _hop) = process_hop(&scalars[1], &header, payload).unwrap();
    let (_header, payload, hop) = process_hop(&scalars[2], &header, payload).unwrap();
    match hop {
        Hop::Final(recovered_destination) => assert_eq!(destination, recovered_destination),
        Hop::Forward(_) => panic!("the last hop must deliver"),
    }

    let content = payload.get_content();
    assert_ne!(&content[..SECURITY_PARAMETER], &[0u8; SECURITY_PARAMETER][..]);
}

#[test]
fn building_twice_over_the_same_inputs_gives_identical_bytes() {
    let (initial_secret, route, _scalars, destination) = three_hop_setup();
    let message = b"hello".to_vec();

    let (first_header, first_keys) = build_header(&initial_secret, &route, &destination).unwrap();
    let (second_header, second_keys) =
        build_header(&initial_secret, &route, &destination).unwrap();
    assert_eq!(first_header.shared_secret, second_header.shared_secret);
    assert_eq!(
        first_header.routing_info.enc_routing_information.value,
        second_header.routing_info.enc_routing_information.value
    );
    assert_eq!(
        first_header.routing_info.integrity_mac.value,
        second_header.routing_info.integrity_mac.value
    );

    let first_payload_keys: Vec<Vec<u8>> =
        first_keys.iter().map(|keys| keys.payload_key.clone()).collect();
    let second_payload_keys: Vec<Vec<u8>> =
        second_keys.iter().map(|keys| keys.payload_key.clone()).collect();
    let first_payload =
        Payload::encapsulate_message(&message, &first_payload_keys, &destination).unwrap();
    let second_payload =
        Payload::encapsulate_message(&message, &second_payload_keys, &destination).unwrap();
    assert_eq!(first_payload.content, second_payload.content);
}

#[test]
fn a_final_element_inside_the_route_is_rejected() {
    let scalar: Vec<u8> = vec![11u8; 32];
    let route = vec![
        forward_hop(0x01, &scalar),
        RouteElement::FinalHop(vec![0x04u8; DESTINATION_ADDRESS_LENGTH]),
    ];
    let destination = vec![0x04u8; DESTINATION_ADDRESS_LENGTH];
    let initial_secret: Vec<u8> = vec![7u8; 32];

    match build_header(&initial_secret, &route, &destination) {
        Err(err) => assert_eq!(ProcessingError::IsNotForwardHopError, err),
        Ok(_) => panic!("a final element inside the route must be rejected"),
    }
}
