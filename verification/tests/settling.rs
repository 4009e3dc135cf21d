use gnome::networking::common::{
    distil_common_names, nat_from_responses, port_allocation_from_ports, rule_from_probes,
    settings_from_discovery, swarm_name_chunks, swarm_names_as_bytes, GnomeId, SwarmName,
};
use gnome::networking::status::Transport as StatusTransport;
use gnome::networking::subscription::{
    add_name, include_neighbor_action, remove_name, set_founder, transport_report, IncludeAction,
    Requestor,
};
use gnome::networking::{IpAddr, Nat, PortAllocationRule, SocketAddr};

fn name(founder: u64, n: &str) -> SwarmName {
    SwarmName { founder: GnomeId(founder), name: n.to_string() }
}

fn summary(names: &[SwarmName]) -> Vec<(u64, String)> {
    names.iter().map(|n| (n.founder.0, n.name.clone())).collect()
}

#[test]
fn generic_names_agree_on_the_greater_id() {
    let mut common = vec![];
    let mut remote = vec![name(0, "/")];
    distil_common_names(GnomeId(5), GnomeId(9), &mut common, vec![name(0, "/")], &mut remote);
    assert_eq!(summary(&common), vec![(9, "/".to_string())]);
    assert_eq!(summary(&remote), vec![(9, "/".to_string())]);
    let mut common = vec![];
    let mut remote = vec![name(0, "/")];
    distil_common_names(GnomeId(9), GnomeId(5), &mut common, vec![name(0, "/")], &mut remote);
    assert_eq!(summary(&common), vec![(9, "/".to_string())]);
}

#[test]
fn no_names_means_the_root_swarm() {
    let mut common = vec![];
    let mut remote = vec![name(0, "/")];
    distil_common_names(GnomeId(2), GnomeId(1), &mut common, vec![], &mut remote);
    assert_eq!(summary(&common), vec![(2, "/".to_string())]);
    let mut common = vec![];
    let mut remote = vec![name(4, "/a"), name(4, "/b")];
    distil_common_names(GnomeId(2), GnomeId(1), &mut common, vec![], &mut remote);
    assert_eq!(summary(&common), vec![(1, "/".to_string())]);
}

#[test]
fn generic_neighbor_joins_our_named_swarm() {
    let mut common = vec![];
    let mut remote = vec![name(0, "/x")];
    distil_common_names(GnomeId(3), GnomeId(8), &mut common, vec![name(7, "/mine"), name(7, "/b")], &mut remote);
    assert_eq!(summary(&common), vec![(3, "/mine".to_string())]);
    assert_eq!(summary(&remote), vec![(3, "/x".to_string())]);
}

#[test]
fn shared_names_in_neighbor_order() {
    let mut common = vec![name(1, "/old")];
    let mut remote = vec![name(4, "/b"), name(4, "/c"), name(4, "/a")];
    distil_common_names(
        GnomeId(3),
        GnomeId(8),
        &mut common,
        vec![name(4, "/a"), name(4, "/b"), name(5, "/c")],
        &mut remote,
    );
    assert_eq!(summary(&common), vec![(1, "/old".to_string()), (4, "/b".to_string()), (4, "/a".to_string())]);
}

#[test]
fn names_packing_and_chunks() {
    let names = vec![vec![3, b'a', b'b', b'c'], vec![1, b'z'], vec![200; 90]];
    assert_eq!(swarm_names_as_bytes(&names, 10), vec![3, b'a', b'b', b'c', 1, b'z']);
    assert_eq!(swarm_names_as_bytes(&names, 6), vec![3, b'a', b'b', b'c']);
    assert_eq!(swarm_names_as_bytes(&names, 4), Vec::<u8>::new());
    let buf = [2, b'h', b'i', 130, 0, 0, 0];
    assert_eq!(swarm_name_chunks(&buf), vec![(0, 3), (3, 6), (6, 7)]);
}

#[test]
fn nat_from_answers() {
    assert_eq!(nat_from_responses((1, 1), (2, 2), &vec![], false), Nat::Symmetric);
    assert_eq!(nat_from_responses((1, 1), (2, 2), &vec![], true), Nat::SymmetricWithPortControl);
    assert_eq!(nat_from_responses((1, 1), (2, 2), &vec![(2, 2), (1, 1)], false), Nat::FullCone);
    assert_eq!(nat_from_responses((1, 1), (2, 2), &vec![(2, 2)], false), Nat::AddressRestrictedCone);
    assert_eq!(nat_from_responses((1, 1), (2, 2), &vec![(3, 3)], false), Nat::Unknown);
}

#[test]
fn port_allocation_from_four_ports() {
    assert_eq!(port_allocation_from_ports(10, 10, 10, 10), (PortAllocationRule::FullCone, 0));
    assert_eq!(port_allocation_from_ports(10, 10, 15, 15), (PortAllocationRule::AddressSensitive, 5));
    assert_eq!(port_allocation_from_ports(10, 12, 15, 16), (PortAllocationRule::PortSensitive, 1));
    assert_eq!(port_allocation_from_ports(0, 300, 600, 900), (PortAllocationRule::PortSensitive, 44));
    assert_eq!(rule_from_probes(None, None, None, None), (PortAllocationRule::Random, 0));
    assert_eq!(rule_from_probes(Some(None), None, None, None), (PortAllocationRule::Random, 1));
    assert_eq!(rule_from_probes(Some(Some(1)), None, None, None), (PortAllocationRule::PortSensitive, 0));
    assert_eq!(rule_from_probes(Some(Some(1)), Some(1), None, None), (PortAllocationRule::AddressSensitive, 0));
    assert_eq!(rule_from_probes(Some(Some(1)), Some(1), Some(1), None), (PortAllocationRule::AddressSensitive, 0));
    assert_eq!(rule_from_probes(Some(Some(1)), Some(2), Some(3), Some(5)), (PortAllocationRule::PortSensitive, 1));
}

#[test]
fn discovered_settings() {
    let addr = SocketAddr::new(IpAddr::V4([7, 7, 7, 7]), 700);
    let natted = settings_from_discovery(Some((true, addr)), Nat::Symmetric, (PortAllocationRule::PortSensitive, 2));
    assert_eq!(natted.pub_ip, IpAddr::V4([7, 7, 7, 7]));
    assert_eq!(natted.pub_port, 700);
    assert_eq!(natted.nat_type, Nat::Symmetric);
    assert_eq!(natted.port_allocation, (PortAllocationRule::PortSensitive, 2));
    let open = settings_from_discovery(Some((false, addr)), Nat::Symmetric, (PortAllocationRule::PortSensitive, 2));
    assert_eq!(open.nat_type, Nat::NoNat);
    assert_eq!(open.port_allocation, (PortAllocationRule::FullCone, 0));
    let none = settings_from_discovery(None, Nat::Symmetric, (PortAllocationRule::PortSensitive, 2));
    assert_eq!(none.pub_port, 1026);
    assert_eq!(none.nat_type, Nat::Unknown);
}

#[test]
fn subscriber_names() {
    let mut names = vec![name(0, "/"), name(3, "/a")];
    set_founder(&mut names, GnomeId(9));
    assert_eq!(summary(&names), vec![(9, "/".to_string()), (3, "/a".to_string())]);
    add_name(&mut names, &name(3, "/a"));
    assert_eq!(names.len(), 2);
    add_name(&mut names, &name(4, "/b"));
    assert_eq!(names.len(), 3);
    remove_name(&mut names, &name(3, "/a"));
    assert_eq!(summary(&names), vec![(9, "/".to_string()), (4, "/b".to_string())]);
    remove_name(&mut names, &name(3, "/zzz"));
    assert_eq!(names.len(), 2);
}

#[test]
fn neighbor_inclusion() {
    let known = vec![name(0, "/")];
    assert_eq!(include_neighbor_action(&known, &name(0, "/")), IncludeAction::Forward);
    assert_eq!(include_neighbor_action(&known, &name(5, "/")), IncludeAction::AdoptGeneric);
    let known = vec![name(2, "/"), name(3, "/x")];
    assert_eq!(include_neighbor_action(&known, &name(5, "/")), IncludeAction::Drop);
}

#[test]
fn transport_reports() {
    let (ip, port, nat, rule, tr) = transport_report(Requestor::Tcpv6, true);
    assert_eq!(ip, IpAddr::V6([0; 16]));
    assert_eq!(port, 1);
    assert_eq!(nat, Nat::Unknown);
    assert_eq!(rule, (PortAllocationRule::Random, 0));
    assert_eq!(tr, StatusTransport::Tcp);
    let (ip, port, _, _, tr) = transport_report(Requestor::Udp, false);
    assert_eq!(ip, IpAddr::V4([0; 4]));
    assert_eq!(port, 0);
    assert_eq!(tr, StatusTransport::Udp);
}
