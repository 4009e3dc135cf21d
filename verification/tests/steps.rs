use gnome::manager::{NeighborBook, SwarmIds};
use gnome::manager_steps::{manager_on_report, manager_on_request, GnomeReport, ManagerAction, ManagerRequest, ManagerState};
use gnome::messages::{Header, Message, Payload};
use gnome::networking::common::{GnomeId, SwarmName};
use gnome::networking::sock::{on_incoming_dgram, outgoing_dgram, udp_on_outgoing, Incoming, Outgoing, SendBudget, UdpStep};
use gnome::networking::tcp_common::{tcp_on_outgoing, TcpStep};
use gnome::networking::status::{NetworkSummary, Transport};
use gnome::networking::{IpAddr, Nat, PortAllocationRule};
use gnome::neighbor::NeighborRequest;

fn name(f: u64, n: &str) -> SwarmName {
    SwarmName { founder: GnomeId(f), name: n.to_string() }
}

fn state() -> ManagerState {
    ManagerState {
        gnome_id: 9,
        book: NeighborBook::new(),
        names: SwarmIds::new(),
        running: vec![],
        waiting_for_neighbors: None,
        join_queue: vec![],
        prev_join: name(0, "/"),
        summary: NetworkSummary::empty(1000),
        waiting_for_settings: vec![],
        quitting: false,
    }
}

#[test]
fn join_starts_a_swarm_and_waits_for_neighbors() {
    let mut s = state();
    let acts = manager_on_request(&mut s, ManagerRequest::JoinSwarm(name(0, "/"), None));
    assert_eq!(acts.len(), 2);
    assert!(matches!(&acts[0], ManagerAction::StartSwarm(0, n) if n.name == "/"));
    assert!(matches!(acts[1], ManagerAction::StartNeighborTimer(0)));
    assert_eq!(s.waiting_for_neighbors, Some(0));
    assert_eq!(s.names.get(&name(0, "/")), Some(0));
}

#[test]
fn join_while_waiting_is_queued() {
    let mut s = state();
    manager_on_request(&mut s, ManagerRequest::JoinSwarm(name(0, "/"), None));
    let acts = manager_on_request(&mut s, ManagerRequest::JoinSwarm(name(5, "/b"), Some(5)));
    assert!(acts.is_empty());
    assert_eq!(s.join_queue.len(), 1);
    assert_eq!(s.running.len(), 1);
    // neighbors arrive: the queued join is asked for again
    let (gone, acts) = manager_on_report(&mut s, GnomeReport::ActiveNeighbors(0, name(0, "/"), vec![7]));
    assert!(gone.is_none());
    assert_eq!(acts.len(), 2);
    assert!(matches!(&acts[1], ManagerAction::RequestJoin(n, Some(5)) if n.name == "/b"));
    assert_eq!(s.waiting_for_neighbors, None);
    assert!(s.join_queue.is_empty());
}

#[test]
fn timeout_disconnects_the_swarm_waited_for() {
    let mut s = state();
    manager_on_request(&mut s, ManagerRequest::JoinSwarm(name(0, "/"), None));
    let acts = manager_on_request(&mut s, ManagerRequest::DisconnectSwarmIfNoNeighbors(0));
    assert_eq!(acts.len(), 2);
    assert!(matches!(acts[0], ManagerAction::Disconnect(0)));
    assert!(matches!(&acts[1], ManagerAction::ReportDisconnected(0, n) if n.name == "/"));
    assert_eq!(s.waiting_for_neighbors, None);
    let (gone, acts) = manager_on_report(&mut s, GnomeReport::Disconnected(0, name(0, "/")));
    let gone = gone.unwrap();
    assert_eq!(gone.len(), 1);
    assert_eq!(gone[0].0, 0);
    assert!(matches!(acts[0], ManagerAction::AllNeighborsGone));
    assert!(s.running.is_empty());
    assert_eq!(s.names.get(&name(0, "/")), None);
}

#[test]
fn leave_and_gnome_left() {
    let mut s = state();
    manager_on_request(&mut s, ManagerRequest::JoinSwarm(name(0, "/"), None));
    let acts = manager_on_request(&mut s, ManagerRequest::LeaveSwarm(0));
    assert!(matches!(&acts[0], ManagerAction::RemoveFromNetworking(n) if n.name == "/"));
    assert!(matches!(acts[1], ManagerAction::Disconnect(0)));
    assert!(manager_on_request(&mut s, ManagerRequest::LeaveSwarm(3)).is_empty());
    manager_on_report(&mut s, GnomeReport::ActiveNeighbors(0, name(0, "/"), vec![7, 8]));
    let (_, acts) = manager_on_report(&mut s, GnomeReport::GnomeLeft(0, name(0, "/"), 7));
    assert!(matches!(acts[0], ManagerAction::NeighborLeft(0, 7)));
    assert_eq!(s.book.neighbors_of(&name(0, "/")).unwrap(), vec![8]);
}

#[test]
fn tcp_sends_framed_messages_within_budget() {
    let mut b = SendBudget { available: 60 };
    match tcp_on_outgoing(&mut b, &[1, 2, 3], None) {
        TcpStep::Write(bytes) => assert_eq!(bytes, vec![0, 3, 1, 2, 3]),
        _ => panic!("expected a write"),
    }
    assert_eq!(b.available, 12);
    match tcp_on_outgoing(&mut b, &[1, 2, 3], None) {
        TcpStep::AskTokens(n) => assert_eq!(n, 96),
        _ => panic!("expected a request"),
    }
    assert_eq!(b.available, 12);
    match tcp_on_outgoing(&mut b, &[1, 2, 3], Some(100)) {
        TcpStep::Write(bytes) => assert_eq!(bytes, vec![0, 3, 1, 2, 3]),
        _ => panic!("expected a write"),
    }
    assert_eq!(b.available, 64);
    assert!(matches!(tcp_on_outgoing(&mut b, &[1], Some(0)), TcpStep::Write(_)));
    assert_eq!(b.available, 18);
}

#[test]
fn udp_sends_within_budget() {
    let mut b = SendBudget { available: 50 };
    assert!(matches!(udp_on_outgoing(&mut b, 0, &[], None), UdpStep::Skip));
    assert!(matches!(udp_on_outgoing(&mut b, 1, &[9; 5], None), UdpStep::Send(ref v) if v == &vec![9; 5]));
    assert_eq!(b.available, 2);
    assert!(matches!(udp_on_outgoing(&mut b, 1, &[9; 5], None), UdpStep::AskTokens(96)));
    assert!(matches!(udp_on_outgoing(&mut b, 1, &[9; 5], Some(100)), UdpStep::Send(_)));
    assert_eq!(b.available, 54);
}

#[test]
fn incoming_datagrams_reach_their_swarm() {
    let msg = Message { swarm_time: 7, neighborhood: 20, header: Header::Sync, payload: Payload::KeepAlive(3) };
    let d = outgoing_dgram(4, Outgoing::Regular(msg));
    match on_incoming_dgram(&vec![4], &d) {
        Incoming::Regular(4, m) => assert_eq!(m.neighborhood, 20),
        _ => panic!("expected a regular message"),
    }
    let mut req = vec![7, 255];
    gnome::data_conversion::neighbor_request_to_bytes(NeighborRequest::CreateNeighbor(33, b"/a".to_vec()), &mut req);
    match on_incoming_dgram(&vec![4], &req) {
        Incoming::NewNeighbor(33, n) => assert_eq!(n, b"/a".to_vec()),
        _ => panic!("expected a new neighbor"),
    }
    let mut other = vec![7, 255];
    gnome::data_conversion::neighbor_request_to_bytes(NeighborRequest::ListingRequest(1), &mut other);
    assert!(matches!(on_incoming_dgram(&vec![4], &other), Incoming::Ignored));
}

#[test]
fn join_random_picks_a_neighboring_swarm() {
    let mut s = state();
    let acts = manager_on_request(&mut s, ManagerRequest::JoinRandom(None));
    assert!(matches!(&acts[0], ManagerAction::SelectedSwarm(Some(n)) if n.name == "/"));
    assert!(matches!(&acts[1], ManagerAction::RequestJoin(n, None) if n.name == "/"));
    manager_on_request(&mut s, ManagerRequest::JoinSwarm(name(0, "/"), None));
    let acts = manager_on_request(&mut s, ManagerRequest::JoinRandom(None));
    assert!(matches!(acts[0], ManagerAction::SelectedSwarm(None)));
    s.book.link(&name(4, "/x"), 4);
    let acts = manager_on_request(&mut s, ManagerRequest::JoinRandom(None));
    assert!(matches!(&acts[1], ManagerAction::RequestJoin(n, Some(4)) if n.name == "/x"));
    assert_eq!(s.prev_join.name, "/x");
    let acts = manager_on_request(&mut s, ManagerRequest::JoinRandom(None));
    assert!(matches!(acts[0], ManagerAction::SelectedSwarm(None)));
}

#[test]
fn listening_swarm_starts_with_the_other_gnomes_settings() {
    let mut s = state();
    let acts = manager_on_request(&mut s, ManagerRequest::StartListeningSwarm(vec![]));
    assert_eq!(acts.len(), 1);
    assert!(matches!(&acts[0], ManagerAction::StartListening(0, n, None) if n.name == "/" && n.founder.0 == 0));
    assert_eq!(s.names.get(&name(0, "/")), Some(0));
    assert_eq!(s.waiting_for_neighbors, None);
}

#[test]
fn extend_passes_only_for_a_known_neighbor() {
    let mut s = state();
    manager_on_request(&mut s, ManagerRequest::JoinSwarm(name(0, "/"), None));
    manager_on_report(&mut s, GnomeReport::NeighboringSwarms(0, vec![(7, name(7, "/x"))]));
    let acts = manager_on_request(&mut s, ManagerRequest::ExtendSwarm(name(7, "/x"), 0, 7));
    assert_eq!(acts.len(), 1);
    assert!(matches!(&acts[0], ManagerAction::ProvideNeighbors(0, n, 7) if n.name == "/x"));
    assert!(manager_on_request(&mut s, ManagerRequest::ExtendSwarm(name(7, "/x"), 0, 8)).is_empty());
    assert!(manager_on_request(&mut s, ManagerRequest::ExtendSwarm(name(7, "/x"), 3, 7)).is_empty());
}

#[test]
fn neighboring_swarms_are_offered_and_members_asked() {
    let mut s = state();
    manager_on_request(&mut s, ManagerRequest::JoinSwarm(name(0, "/"), None));
    manager_on_report(&mut s, GnomeReport::ActiveNeighbors(0, name(0, "/"), vec![7]));
    let (gone, acts) = manager_on_report(&mut s, GnomeReport::NeighboringSwarms(0, vec![(7, name(0, "/")), (7, name(7, "/x"))]));
    assert!(gone.is_none());
    assert_eq!(acts.len(), 2);
    assert!(matches!(&acts[0], ManagerAction::ProvideNeighbors(0, n, 7) if n.name == "/"));
    match &acts[1] {
        ManagerAction::NewSwarmsAvailable(0, v) => {
            assert_eq!(v.len(), 1);
            assert_eq!((v[0].0.founder.0, v[0].0.name.as_str(), v[0].1), (7, "/x", 7));
        },
        _ => panic!("expected the swarms available"),
    }
}

#[test]
fn founder_determined_renames_the_root_swarm() {
    let mut s = state();
    manager_on_request(&mut s, ManagerRequest::JoinSwarm(name(0, "/"), None));
    let (_, acts) = manager_on_report(&mut s, GnomeReport::FounderDetermined(0, name(4, "/")));
    assert_eq!(acts.len(), 3);
    assert!(matches!(&acts[0], ManagerAction::FounderDetermined(0, n) if n.founder.0 == 4));
    assert!(matches!(&acts[1], ManagerAction::StartJoinTimer(n) if n.founder.0 == 9 && n.name == "/"));
    assert!(matches!(acts[2], ManagerAction::SetFounder(4)));
    assert_eq!(s.names.get(&name(4, "/")), Some(0));
    assert_eq!(s.names.get(&name(0, "/")), None);
    assert_eq!(s.running[0].1.founder.0, 4);
    let (_, acts) = manager_on_report(&mut s, GnomeReport::FounderDetermined(1, name(9, "/mine")));
    assert_eq!(acts.len(), 1);
    assert_eq!(s.names.get(&name(9, "/mine")), Some(1));
}

#[test]
fn settings_requests_wait_for_an_address() {
    let mut s = state();
    manager_on_request(&mut s, ManagerRequest::JoinSwarm(name(4, "/"), None));
    let (_, acts) = manager_on_report(&mut s, GnomeReport::ProvidePublicAddress(0, 2, 4));
    assert_eq!(acts.len(), 1);
    assert!(matches!(&acts[0], ManagerAction::ReplyNetworkSettings(0, _, 2, 4)));
    let (_, acts) = manager_on_report(&mut s, GnomeReport::ProvidePublicAddress(0, 3, 5));
    assert!(acts.is_empty());
    assert_eq!(s.waiting_for_settings, vec![(0, 3, 5)]);
    assert!(manager_on_request(&mut s, ManagerRequest::ProvidePublicIPs).is_empty());
    let acts = manager_on_request(
        &mut s,
        ManagerRequest::PublicAddress(IpAddr::V4([8, 8, 8, 8]), 4000, Nat::FullCone, (PortAllocationRule::FullCone, 0), Transport::Udp),
    );
    assert_eq!(acts.len(), 1);
    assert!(matches!(&acts[0], ManagerAction::ReplyNetworkSettings(0, b, 3, 5) if !b.is_empty()));
    assert!(s.waiting_for_settings.is_empty());
    let acts = manager_on_request(&mut s, ManagerRequest::ProvidePublicIPs);
    assert!(matches!(&acts[0], ManagerAction::MyPublicIPs(v) if v[0].pub_port == 4000));
}

#[test]
fn quit_disconnects_every_swarm() {
    let mut s = state();
    manager_on_request(&mut s, ManagerRequest::JoinSwarm(name(0, "/"), None));
    manager_on_request(&mut s, ManagerRequest::DisconnectSwarmIfNoNeighbors(5));
    manager_on_report(&mut s, GnomeReport::ActiveNeighbors(0, name(0, "/"), vec![7]));
    manager_on_request(&mut s, ManagerRequest::JoinSwarm(name(7, "/x"), None));
    let acts = manager_on_request(&mut s, ManagerRequest::Quit);
    assert_eq!(acts.len(), 3);
    assert!(matches!(acts[0], ManagerAction::Disconnect(0)));
    assert!(matches!(acts[1], ManagerAction::Disconnect(1)));
    assert!(matches!(&acts[2], ManagerAction::ReportQuit(ids) if ids == &vec![0, 1]));
    assert!(s.quitting);
}
