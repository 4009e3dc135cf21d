use gnome::networking::stun::{
    build_request, build_request_with_id, parse_attribute_type, stun_decode, stun_readable, StunAddress,
    StunAttributeType, StunChangeRequest, StunErrorClass, StunErrorCode, StunErrorNumber,
    StunMessageType,
};
use gnome::networking::IpAddr;

fn binding_response() -> Vec<u8> {
    let mut b = vec![0x01, 0x01, 0x00, 0x18];
    b.extend_from_slice(&7u64.to_be_bytes());
    b.extend_from_slice(&9u64.to_be_bytes());
    // MAPPED-ADDRESS 1.2.3.4:0x1F90
    b.extend_from_slice(&[0x00, 0x01, 0x00, 0x08, 0x00, 0x01, 0x1F, 0x90, 1, 2, 3, 4]);
    // CHANGED-ADDRESS 5.6.7.8:0x0D96
    b.extend_from_slice(&[0x00, 0x05, 0x00, 0x08, 0x00, 0x01, 0x0D, 0x96, 5, 6, 7, 8]);
    b
}

#[test]
fn decodes_a_binding_response() {
    let msg = stun_decode(&binding_response());
    assert_eq!(msg.id(), (7, 9));
    let mapped = msg.mapped_address().unwrap();
    assert_eq!(mapped.ip(), IpAddr::V4([1, 2, 3, 4]));
    assert_eq!(mapped.port(), 0x1F90);
    let changed = msg.changed_address().unwrap();
    assert_eq!(changed.ip(), IpAddr::V4([5, 6, 7, 8]));
    assert_eq!(changed.port(), 0x0D96);
}

#[test]
fn message_without_mapped_address_has_none() {
    let mut b = vec![0x01, 0x11, 0x00, 0x00];
    b.extend_from_slice(&[0; 16]);
    let msg = stun_decode(&b);
    assert!(msg.mapped_address().is_none());
    assert!(msg.changed_address().is_none());
}

#[test]
fn request_without_change_round_trips() {
    let msg = build_request_with_id(None, (0x0102030405060708, 42));
    let bytes = msg.bytes();
    assert_eq!(bytes.len(), 20);
    assert_eq!(&bytes[..4], &[0, 1, 0, 0]);
    let back = stun_decode(&bytes);
    assert_eq!(back.id(), (0x0102030405060708, 42));
    assert_eq!(back.bytes(), bytes);
}

#[test]
fn request_with_change_writes_the_whole_attribute() {
    let msg = build_request_with_id(Some(StunChangeRequest::ChangeIpPort), (1, 2));
    let bytes = msg.bytes();
    assert_eq!(bytes.len(), 28);
    assert_eq!(&bytes[..4], &[0, 1, 0, 8]);
    assert_eq!(&bytes[20..], &[0, 3, 0, 4, 0, 0, 0, 6]);
    assert!(stun_readable(&bytes));
    let back = stun_decode(&bytes);
    assert_eq!(back.id(), (1, 2));
    assert_eq!(back.bytes(), bytes);
}

#[test]
fn random_requests_differ_in_id() {
    let a = build_request(None);
    let b = build_request(None);
    assert_ne!(a.id(), b.id());
    assert_eq!(a.bytes().len(), 20);
}

#[test]
fn type_bytes() {
    assert_eq!(StunMessageType::BindingRequest.bytes(), [0, 1]);
    assert_eq!(StunMessageType::BindingErrorResponse.bytes(), [1, 0x11]);
    assert_eq!(StunMessageType::Unexpected.bytes(), [0xff, 0xff]);
    assert_eq!(StunAttributeType::ReflectedFrom.bytes(), vec![0, 0x0b]);
    assert_eq!(parse_attribute_type(0x000a), StunAttributeType::UnknownAttributes);
    assert_eq!(parse_attribute_type(0x0fff), StunAttributeType::Unexpected);
    assert_eq!(StunChangeRequest::ChangePort.bytes(), vec![0, 0, 0, 2]);
    assert_eq!(StunChangeRequest::Unexpected.bytes(), vec![255; 4]);
}

#[test]
fn address_bytes_and_parse() {
    let a = StunAddress { port: 0x1234, address: [10, 0, 0, 1] };
    let bytes = a.bytes();
    assert_eq!(bytes, vec![0, 1, 0x12, 0x34, 10, 0, 0, 1]);
    assert_eq!(StunAddress::parse(&bytes), a);
}

#[test]
fn error_code_parse_reads_the_phrase_after_four_bytes() {
    let code = StunErrorCode::parse(vec![0, 0, 4, 20, b'a', b'b', b'c', b'd', b'e']);
    assert_eq!(code.class, StunErrorClass::Four);
    assert_eq!(code.number, StunErrorNumber::Twenty);
    assert_eq!(code.reason_phrase, vec![b'a', b'b', b'c', b'd', b'e']);
    let unknown = StunErrorCode::parse(vec![0, 0, 9, 99]);
    assert_eq!(unknown.class, StunErrorClass::Unexpected);
    assert_eq!(unknown.number, StunErrorNumber::Unexpected);
    assert!(unknown.reason_phrase.is_empty());
    let e = StunErrorCode { class: StunErrorClass::Five, number: StunErrorNumber::Zero, reason_phrase: vec![b'x'] };
    assert_eq!(e.bytes(), vec![0, 0, 5, 0, b'x']);
    let back = StunErrorCode::parse(e.bytes());
    assert_eq!((back.class, back.number, back.reason_phrase), (e.class, e.number, e.reason_phrase));
}

#[test]
fn decodes_error_and_unknown_attributes() {
    let mut b = vec![0x01, 0x11, 0x00, 0x10];
    b.extend_from_slice(&[0; 16]);
    b.extend_from_slice(&[0x00, 0x09, 0x00, 0x04, 0, 0, 4, 0]);
    b.extend_from_slice(&[0x00, 0x0a, 0x00, 0x04, 0, 1, 0, 5]);
    let msg = stun_decode(&b);
    assert!(msg.mapped_address().is_none());
    assert_eq!(msg.bytes(), b);
}

#[test]
fn readability_of_received_bytes() {
    assert!(stun_readable(&binding_response()));
    // cut short before the header ends
    assert!(!stun_readable(&binding_response()[..19]));
    // the declared length runs past the bytes
    let b = binding_response();
    assert!(!stun_readable(&b[..b.len() - 1]));
    // an address attribute whose value is too short
    let mut short = vec![0x01, 0x01, 0x00, 0x08];
    short.extend_from_slice(&[0; 16]);
    short.extend_from_slice(&[0x00, 0x01, 0x00, 0x04, 0, 1, 0, 0]);
    assert!(!stun_readable(&short));
    // a header with no attributes
    let mut bare = vec![0x00, 0x01, 0x00, 0x00];
    bare.extend_from_slice(&[0; 16]);
    assert!(stun_readable(&bare));
}
