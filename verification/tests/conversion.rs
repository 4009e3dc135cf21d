use gnome::data_conversion::{
    as_u16_be, as_u32_be, as_u64_be, bytes_to_cast_message, bytes_to_message,
    bytes_to_neighbor_request, bytes_to_neighbor_response, message_to_bytes,
    neighbor_request_to_bytes, neighbor_response_to_bytes, parse_network_settings, put_u16,
    put_u32, put_u64, ConversionError,
};
use gnome::messages::{CastMessage, Configuration, Header, Message, Payload, Signature};
use gnome::neighbor::{
    NeighborRequest, NeighborResponse, SwarmNetworkSettings, SwarmSyncInfo,
};
use gnome::networking::sock::CastKind;
use gnome::networking::{IpAddr, Nat, PortAllocationRule};

#[test]
fn big_endian_integers_round_trip() {
    let mut v = Vec::new();
    put_u16(&mut v, 0xABCD);
    assert_eq!(v, vec![0xAB, 0xCD]);
    assert_eq!(as_u16_be(&[0xAB, 0xCD]), 0xABCD);
    let mut v = Vec::new();
    put_u32(&mut v, 0x01020304);
    assert_eq!(v, vec![1, 2, 3, 4]);
    assert_eq!(as_u32_be(&[1, 2, 3, 4]), 0x01020304);
    let mut v = vec![9];
    put_u64(&mut v, 0x0102030405060708);
    assert_eq!(v, vec![9, 1, 2, 3, 4, 5, 6, 7, 8]);
    assert_eq!(as_u64_be(&[1, 2, 3, 4, 5, 6, 7, 8]), 0x0102030405060708);
}

#[test]
fn sync_keep_alive_bytes() {
    let msg = Message {
        swarm_time: 0x01020304,
        neighborhood: 3,
        header: Header::Sync,
        payload: Payload::KeepAlive(5),
    };
    let bytes = message_to_bytes(msg);
    assert_eq!(bytes, vec![3, 1, 2, 3, 4, 0, 0, 0, 0, 0, 0, 0, 5]);
    let back = bytes_to_message(bytes).unwrap();
    assert_eq!(back.swarm_time, 0x01020304);
    assert_eq!(back.neighborhood, 3);
    assert_eq!(back.header, Header::Sync);
    assert!(matches!(back.payload, Payload::KeepAlive(5)));
}

#[test]
fn sync_bye_is_five_bytes() {
    let msg = Message { swarm_time: 7, neighborhood: 1, header: Header::Sync, payload: Payload::Bye };
    let bytes = message_to_bytes(msg);
    assert_eq!(bytes, vec![0b010_00001, 0, 0, 0, 7]);
    let back = bytes_to_message(bytes).unwrap();
    assert!(matches!(back.payload, Payload::Bye));
}

#[test]
fn block_keep_alive_round_trip() {
    let msg = Message {
        swarm_time: 9,
        neighborhood: 15,
        header: Header::Block(0xAA),
        payload: Payload::KeepAlive(0xBB),
    };
    let bytes = message_to_bytes(msg);
    assert_eq!(bytes[0], 0b110_01111);
    assert_eq!(bytes.len(), 21);
    let back = bytes_to_message(bytes).unwrap();
    assert_eq!(back.header, Header::Block(0xAA));
    assert!(matches!(back.payload, Payload::KeepAlive(0xBB)));
}

#[test]
fn block_with_regular_signature_round_trip() {
    let sig: Vec<u8> = (0..256).map(|i| i as u8).collect();
    let msg = Message {
        swarm_time: 1,
        neighborhood: 2,
        header: Header::Block(77),
        payload: Payload::Block(77, Signature::Regular(5, sig.clone()), vec![1, 2, 3]),
    };
    let bytes = message_to_bytes(msg);
    assert_eq!(bytes[0], 0b111_00010);
    assert_eq!(bytes.len(), 5 + 8 + 8 + 1 + 256 + 3);
    let back = bytes_to_message(bytes).unwrap();
    assert_eq!(back.header, Header::Block(77));
    match back.payload {
        Payload::Block(id, Signature::Regular(g, s), data) => {
            assert_eq!(id, 77);
            assert_eq!(g, 5);
            assert_eq!(s, sig);
            assert_eq!(data, vec![1, 2, 3]);
        }
        other => panic!("unexpected payload {:?}", other),
    }
}

#[test]
fn reconfigure_start_broadcast_with_extended_signature_round_trip() {
    let key: Vec<u8> = vec![7; 270];
    let sig: Vec<u8> = vec![9; 256];
    let msg = Message {
        swarm_time: 100,
        neighborhood: 0,
        header: Header::Reconfigure(254, 42),
        payload: Payload::Reconfigure(
            Signature::Extended(42, key.clone(), sig.clone()),
            Configuration::StartBroadcast(42, 3),
        ),
    };
    let bytes = message_to_bytes(msg);
    assert_eq!(bytes[0], 0b101_00000);
    assert_eq!(bytes[5], 254);
    assert_eq!(bytes[14], 3);
    assert_eq!(bytes[15], 255);
    let back = bytes_to_message(bytes).unwrap();
    assert_eq!(back.header, Header::Reconfigure(254, 42));
    match back.payload {
        Payload::Reconfigure(Signature::Extended(g, k, s), Configuration::StartBroadcast(o, c)) => {
            assert_eq!((g, o, c), (42, 42, 3));
            assert_eq!(k, key);
            assert_eq!(s, sig);
        }
        other => panic!("unexpected payload {:?}", other),
    }
}

#[test]
fn reconfigure_insert_pubkey_round_trip() {
    let key: Vec<u8> = (0..270).map(|i| (i % 251) as u8).collect();
    let msg = Message {
        swarm_time: 4,
        neighborhood: 6,
        header: Header::Reconfigure(245, 8),
        payload: Payload::Reconfigure(
            Signature::Regular(8, vec![1; 256]),
            Configuration::InsertPubkey(8, key.clone()),
        ),
    };
    let back = bytes_to_message(message_to_bytes(msg)).unwrap();
    match back.payload {
        Payload::Reconfigure(Signature::Regular(8, s), Configuration::InsertPubkey(8, k)) => {
            assert_eq!(k, key);
            assert_eq!(s, vec![1; 256]);
        }
        other => panic!("unexpected payload {:?}", other),
    }
}

#[test]
fn reconfigure_keep_alive_round_trip() {
    let msg = Message {
        swarm_time: 4,
        neighborhood: 6,
        header: Header::Reconfigure(1, 2),
        payload: Payload::KeepAlive(3),
    };
    let bytes = message_to_bytes(msg);
    assert_eq!(bytes[0], 0b100_00110);
    let back = bytes_to_message(bytes).unwrap();
    assert_eq!(back.header, Header::Reconfigure(1, 2));
    assert!(matches!(back.payload, Payload::KeepAlive(3)));
}

#[test]
fn cast_messages_by_kind() {
    let c = bytes_to_cast_message(&[0b0100_0011, 9, 1, 2]).unwrap();
    assert_eq!(c.kind, CastKind::Unicast);
    assert_eq!(c.id, 9);
    assert_eq!(c.data, vec![1, 2]);
    let c: CastMessage = bytes_to_cast_message(&[0b1000_0000, 1]).unwrap();
    assert_eq!(c.kind, CastKind::Multicast);
    assert!(c.data.is_empty());
    let c = bytes_to_cast_message(&[0b1100_0001, 5, 8]).unwrap();
    assert_eq!(c.kind, CastKind::Broadcast);
    let e = bytes_to_cast_message(&[0b0011_1111, 5, 8]).unwrap_err();
    assert_eq!(e, ConversionError);
    assert_eq!(e.to_string(), "ConversionError");
}

fn settings_v4() -> SwarmNetworkSettings {
    SwarmNetworkSettings {
        pub_ip: IpAddr::V4([192, 168, 1, 2]),
        pub_port: 0x1234,
        nat_type: Nat::PortRestrictedCone,
        port_allocation: (PortAllocationRule::PortSensitive, -3),
    }
}

#[test]
fn network_settings_parse() {
    let ns = parse_network_settings(&[8, 0x12, 0x34, 4, 0xFD, 192, 168, 1, 2]);
    assert_eq!(ns, settings_v4());
    let v6 = parse_network_settings(&[1, 0, 80, 1, 0, 0xfe, 0x80, 0, 0, 0, 0, 0, 0, 0, 0, 0, 0, 0, 0, 0, 1]);
    assert_eq!(v6.pub_ip, IpAddr::V6([0xfe, 0x80, 0, 0, 0, 0, 0, 0, 0, 0, 0, 0, 0, 0, 0, 1]));
    assert_eq!(v6.nat_type, Nat::NoNat);
    let odd = parse_network_settings(&[77, 0, 1, 9, 0, 1, 2, 3]);
    assert_eq!(odd.pub_ip, IpAddr::V4([0, 0, 0, 0]));
    assert_eq!(odd.nat_type, Nat::Unknown);
    assert_eq!(odd.port_allocation.0, PortAllocationRule::Random);
}

#[test]
fn neighbor_requests_round_trip() {
    let mut bytes = Vec::new();
    neighbor_request_to_bytes(NeighborRequest::ListingRequest(0x0A0B0C0D), &mut bytes);
    assert_eq!(bytes, vec![255, 0x0A, 0x0B, 0x0C, 0x0D]);
    assert!(matches!(bytes_to_neighbor_request(bytes), NeighborRequest::ListingRequest(0x0A0B0C0D)));

    let mut bytes = Vec::new();
    neighbor_request_to_bytes(NeighborRequest::ConnectRequest(7, 99, settings_v4()), &mut bytes);
    assert_eq!(bytes.len(), 2 + 8 + 9);
    match bytes_to_neighbor_request(bytes) {
        NeighborRequest::ConnectRequest(7, 99, ns) => assert_eq!(ns, settings_v4()),
        other => panic!("unexpected {:?}", other),
    }

    let mut bytes = Vec::new();
    neighbor_request_to_bytes(NeighborRequest::SwarmSyncRequest(true, false, true, false, true, 5), &mut bytes);
    assert_eq!(&bytes[..6], &[250, 1, 0, 1, 0, 1]);
    assert!(matches!(
        bytes_to_neighbor_request(bytes),
        NeighborRequest::SwarmSyncRequest(true, false, true, false, true, 5)
    ));

    let mut bytes = Vec::new();
    neighbor_request_to_bytes(NeighborRequest::CreateNeighbor(3, b"/swarm".to_vec()), &mut bytes);
    match bytes_to_neighbor_request(bytes) {
        NeighborRequest::CreateNeighbor(3, name) => assert_eq!(name, b"/swarm".to_vec()),
        other => panic!("unexpected {:?}", other),
    }

    let mut ids = [0u8; 256];
    ids[0] = 4;
    ids[255] = 8;
    let mut bytes = Vec::new();
    neighbor_request_to_bytes(NeighborRequest::UnicastRequest(2, ids), &mut bytes);
    assert_eq!(bytes.len(), 258);
    match bytes_to_neighbor_request(bytes) {
        NeighborRequest::UnicastRequest(2, back) => assert_eq!(back.to_vec(), ids.to_vec()),
        other => panic!("unexpected {:?}", other),
    }
}

#[test]
fn unicast_request_pads_cast_ids() {
    match bytes_to_neighbor_request(vec![254, 1, 5, 6]) {
        NeighborRequest::UnicastRequest(1, ids) => {
            assert_eq!(ids[0], 5);
            assert_eq!(ids[1], 6);
            assert!(ids[2..].iter().all(|b| *b == 0));
        }
        other => panic!("unexpected {:?}", other),
    }
}

#[test]
fn block_request_reads_count_from_third_byte() {
    let bytes = vec![253, 1, 1, 0, 0, 0, 0, 0, 0, 0, 9];
    match bytes_to_neighbor_request(bytes) {
        NeighborRequest::BlockRequest(count, ids) => {
            assert_eq!(count, 1);
            assert_eq!(ids[0], 9);
            assert_eq!(ids[1], 0);
        }
        other => panic!("unexpected {:?}", other),
    }
}

#[test]
fn custom_request_skips_the_byte_after_its_tag() {
    let mut bytes = Vec::new();
    neighbor_request_to_bytes(NeighborRequest::CustomRequest(17, vec![1, 2, 3]), &mut bytes);
    assert_eq!(bytes, vec![17, 1, 2, 3]);
    match bytes_to_neighbor_request(bytes) {
        NeighborRequest::CustomRequest(17, data) => assert_eq!(data, vec![2, 3]),
        other => panic!("unexpected {:?}", other),
    }
}

#[test]
fn neighbor_responses_round_trip() {
    let mut bytes = Vec::new();
    neighbor_response_to_bytes(NeighborResponse::Listing(2, vec![1, 0x0102030405060708]), &mut bytes);
    assert_eq!(bytes.len(), 2 + 16);
    match bytes_to_neighbor_response(bytes) {
        NeighborResponse::Listing(2, ids) => assert_eq!(ids, vec![1, 0x0102030405060708]),
        other => panic!("unexpected {:?}", other),
    }

    let pairs = vec![(11u64, vec![3u8; 270]), (12u64, vec![4u8; 270])];
    let mut bytes = Vec::new();
    neighbor_response_to_bytes(NeighborResponse::KeyRegistrySync(1, 2, pairs.clone()), &mut bytes);
    assert_eq!(bytes.len(), 3 + 2 * 278);
    match bytes_to_neighbor_response(bytes) {
        NeighborResponse::KeyRegistrySync(1, 2, back) => assert_eq!(back, pairs),
        other => panic!("unexpected {:?}", other),
    }

    let caps = vec![(5u8, vec![1u64, 2]), (6u8, vec![])];
    let mut bytes = Vec::new();
    neighbor_response_to_bytes(NeighborResponse::CapabilitySync(0, 1, caps.clone()), &mut bytes);
    assert_eq!(bytes, {
        let mut v = vec![245, 0, 1, 5, 2];
        v.extend_from_slice(&1u64.to_be_bytes());
        v.extend_from_slice(&2u64.to_be_bytes());
        v.extend_from_slice(&[6, 0]);
        v
    });
    match bytes_to_neighbor_response(bytes) {
        NeighborResponse::CapabilitySync(0, 1, back) => assert_eq!(back, caps),
        other => panic!("unexpected {:?}", other),
    }

    let casts = vec![(1u8, 100u64), (2u8, 200u64)];
    let mut bytes = Vec::new();
    neighbor_response_to_bytes(NeighborResponse::MulticastSync(0, 1, casts.clone()), &mut bytes);
    match bytes_to_neighbor_response(bytes) {
        NeighborResponse::MulticastSync(0, 1, back) => assert_eq!(back, casts),
        other => panic!("unexpected {:?}", other),
    }

    let mut bytes = Vec::new();
    neighbor_response_to_bytes(NeighborResponse::AppSync(1, 2, 3, 4, vec![5]), &mut bytes);
    assert_eq!(bytes, vec![241, 1, 0, 2, 0, 3, 0, 4, 5]);
    assert!(matches!(bytes_to_neighbor_response(bytes), NeighborResponse::AppSync(1, 2, 3, 4, _)));

    let mut bytes = Vec::new();
    neighbor_response_to_bytes(NeighborResponse::Subscribed(true, 3, 9, Some(4)), &mut bytes);
    assert!(matches!(bytes_to_neighbor_response(bytes), NeighborResponse::Subscribed(true, 3, 9, None)));

    let mut bytes = Vec::new();
    neighbor_response_to_bytes(NeighborResponse::CustomResponse(40, vec![1, 2]), &mut bytes);
    assert!(matches!(bytes_to_neighbor_response(bytes), NeighborResponse::CustomResponse(40, ref d) if d == &vec![1, 2]));
}

#[test]
fn swarm_sync_round_trip() {
    let info = SwarmSyncInfo {
        chill_phase: 300,
        founder: 77,
        swarm_time: 1000,
        swarm_type: 2,
        app_data_hash: 0xFFEE,
        key_reg_size: 1,
        caps_size: 2,
        poli_size: 3,
        bcasts_size: 4,
        mcasts_size: 5,
        more_pubkeys_incoming: true,
        id_pubkey_pairs: vec![(8, vec![1; 270])],
    };
    let mut bytes = Vec::new();
    neighbor_response_to_bytes(NeighborResponse::SwarmSync(info), &mut bytes);
    assert_eq!(bytes.len(), 30 + 278);
    match bytes_to_neighbor_response(bytes) {
        NeighborResponse::SwarmSync(back) => {
            assert_eq!(back.chill_phase, 300);
            assert_eq!(back.founder, 77);
            assert_eq!(back.swarm_time, 1000);
            assert_eq!(back.swarm_type, 2);
            assert_eq!(back.app_data_hash, 0xFFEE);
            assert_eq!(
                (back.key_reg_size, back.caps_size, back.poli_size, back.bcasts_size, back.mcasts_size),
                (1, 2, 3, 4, 5)
            );
            assert!(back.more_pubkeys_incoming);
            assert_eq!(back.id_pubkey_pairs, vec![(8, vec![1; 270])]);
        }
        other => panic!("unexpected {:?}", other),
    }
}

#[test]
fn neighborhood_takes_five_bits() {
    let bytes = vec![0b000_10000u8, 0, 0, 0, 1, 0, 0, 0, 0, 0, 0, 0, 7];
    let m = bytes_to_message(bytes).unwrap();
    assert_eq!(m.neighborhood, 16);
    assert_eq!(m.swarm_time, 1);
    let msg = Message { swarm_time: 3, neighborhood: 31, header: Header::Sync, payload: Payload::Bye };
    let back = bytes_to_message(message_to_bytes(msg)).unwrap();
    assert_eq!(back.neighborhood, 31);
}
