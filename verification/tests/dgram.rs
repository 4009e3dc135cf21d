use gnome::data_conversion::{bytes_to_cast_message, bytes_to_message, bytes_to_neighbor_request, bytes_to_neighbor_response};
use gnome::messages::{Header, Message, Payload};
use gnome::neighbor::{NeighborRequest, NeighborResponse};
use gnome::networking::sock::{classify_dgram, outgoing_dgram, CastContent, CastKind, DgramKind, Outgoing};

#[test]
fn regular_datagram_is_read_back() {
    let msg = Message { swarm_time: 7, neighborhood: 1, header: Header::Sync, payload: Payload::KeepAlive(3) };
    let d = outgoing_dgram(5, Outgoing::Regular(msg));
    assert_eq!(d[0], 5);
    assert_eq!(classify_dgram(&d), (5, DgramKind::Regular));
    let back = bytes_to_message(d[1..].to_vec()).unwrap();
    assert_eq!(back.swarm_time, 7);
    assert!(matches!(back.payload, Payload::KeepAlive(3)));
}

#[test]
fn data_casts_carry_kind_id_and_data() {
    let d = outgoing_dgram(3, Outgoing::Cast(CastKind::Broadcast, 9, CastContent::Data(vec![1, 2])));
    assert_eq!(d, vec![3 + 192, 9, 1, 2]);
    assert_eq!(classify_dgram(&d), (3, DgramKind::Cast));
    let c = bytes_to_cast_message(&d).unwrap();
    assert_eq!((c.kind, c.id, c.data), (CastKind::Broadcast, 9, vec![1, 2]));
    let m = outgoing_dgram(3, Outgoing::Cast(CastKind::Multicast, 4, CastContent::Data(vec![])));
    assert_eq!(m, vec![3 + 128, 4]);
    assert!(outgoing_dgram(3, Outgoing::NoOp).is_empty());
}

#[test]
fn neighbor_requests_and_responses_travel_as_unicasts() {
    let d = outgoing_dgram(2, Outgoing::Cast(CastKind::Unicast, 255, CastContent::Request(NeighborRequest::ListingRequest(4))));
    assert_eq!(classify_dgram(&d), (2, DgramKind::NeighborRequest));
    assert!(matches!(bytes_to_neighbor_request(d[2..].to_vec()), NeighborRequest::ListingRequest(4)));
    let r = outgoing_dgram(2, Outgoing::Cast(CastKind::Unicast, 254, CastContent::Response(NeighborResponse::Listing(1, vec![8]))));
    assert_eq!(classify_dgram(&r), (2, DgramKind::NeighborResponse));
    match bytes_to_neighbor_response(r[2..].to_vec()) {
        NeighborResponse::Listing(c, ids) => assert_eq!((c, ids), (1, vec![8])),
        _ => panic!("not a listing"),
    }
}
