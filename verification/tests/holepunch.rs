use gnome::neighbor::SwarmNetworkSettings;
use gnome::networking::holepunch::{
    guess_remote, nat_after_punch, predict_remote_port, sends_session_key, retry_after_silence, second_round_ports,
    third_round_bounds, ClusterPlan, MagicPorts,
};
use gnome::networking::direct_punch::{
    ipv6_settings, punch_strategy, refreshed_settings, settings_worth_sending, PunchStrategy,
};
use gnome::networking::{IpAddr, Nat, PortAllocationRule, SocketAddr};

fn settings(rule: PortAllocationRule, step: i8) -> SwarmNetworkSettings {
    SwarmNetworkSettings {
        pub_ip: IpAddr::V4([10, 0, 0, 1]),
        pub_port: 4000,
        nat_type: Nat::Unknown,
        port_allocation: (rule, step),
    }
}

#[test]
fn magic_port_tells_of_port_control() {
    let magic = MagicPorts::new();
    let port = (5u16 << 9) + 0b1_0101_0101;
    assert_eq!(
        guess_remote(&magic, port),
        (Nat::SymmetricWithPortControl, (PortAllocationRule::FullCone, 0))
    );
    assert_eq!(
        guess_remote(&magic, 5000),
        (Nat::Unknown, (PortAllocationRule::PortSensitive, 1))
    );
}

#[test]
fn retry_moves_both_ports_on() {
    let mine = settings(PortAllocationRule::FullCone, 0);
    let other = settings(PortAllocationRule::PortSensitive, 3);
    assert_eq!(retry_after_silence(&mine, &other, 5, 1000, 2000), Some((1001, 2003)));
    let down = settings(PortAllocationRule::AddressSensitive, -2);
    assert_eq!(retry_after_silence(&mine, &down, 1, 1000, 2000), Some((1001, 1998)));
    let cone = settings(PortAllocationRule::FullCone, 7);
    assert_eq!(retry_after_silence(&mine, &cone, 1, 1000, 2000), Some((1001, 2000)));
}

#[test]
fn retry_stops_on_random_allocation_or_no_tries() {
    let mine = settings(PortAllocationRule::FullCone, 0);
    let random = settings(PortAllocationRule::Random, 0);
    assert_eq!(retry_after_silence(&mine, &random, 5, 1000, 2000), None);
    assert_eq!(retry_after_silence(&random, &mine, 5, 1000, 2000), None);
    assert_eq!(retry_after_silence(&mine, &mine, 0, 1000, 2000), None);
}

#[test]
fn second_and_third_round_ports() {
    assert_eq!(second_round_ports(5000), (4997, 4998, 4999));
    assert_eq!(predict_remote_port(30000, 30004), (4, 30008));
    assert_eq!(third_round_bounds(4999, 30008, 4), (5001, 30012, 30208));
}

#[test]
fn cluster_walks_and_wraps() {
    let (mut plan, probes) = ClusterPlan::new(6000, 4, 100, 10, 120);
    assert_eq!(probes, vec![(6000, 100), (6001, 110), (6002, 120), (6003, 100)]);
    assert_eq!(plan.next, vec![110, 120, 100, 110]);
    assert_eq!(plan.on_silence(6002), 100);
    assert_eq!(plan.next, vec![110, 120, 110, 110]);
    assert_eq!(plan.on_silence(6001), 120);
    assert_eq!(plan.next, vec![110, 100, 110, 110]);
}

#[test]
fn roles_and_nat_after_a_punch() {
    assert!(sends_session_key(9, 3));
    assert!(!sends_session_key(3, 9));
    assert!(!sends_session_key(5, 5));
    assert_eq!(nat_after_punch(4000, 4000), Nat::SymmetricWithPortControl);
    assert_eq!(nat_after_punch(4001, 4000), Nat::Symmetric);
}

fn with_nat(nat: Nat, port: u16, rule: PortAllocationRule, step: i8) -> SwarmNetworkSettings {
    SwarmNetworkSettings {
        pub_ip: IpAddr::V4([10, 0, 0, 2]),
        pub_port: port,
        nat_type: nat,
        port_allocation: (rule, step),
    }
}

#[test]
fn punch_strategy_by_nat_kinds() {
    let any = PortAllocationRule::FullCone;
    let open = with_nat(Nat::NoNat, 1, any, 0);
    let cone = with_nat(Nat::FullCone, 1, any, 0);
    let port_restricted = with_nat(Nat::PortRestrictedCone, 1, any, 0);
    let controlled = with_nat(Nat::SymmetricWithPortControl, 7000, any, 0);
    let symmetric = with_nat(Nat::Symmetric, 1, any, 0);
    assert_eq!(punch_strategy(&symmetric, &open), PunchStrategy::Connect);
    assert_eq!(punch_strategy(&cone, &symmetric), PunchStrategy::Punch);
    assert_eq!(punch_strategy(&symmetric, &cone), PunchStrategy::Punch);
    assert_eq!(punch_strategy(&port_restricted, &controlled), PunchStrategy::Punch);
    assert_eq!(punch_strategy(&port_restricted, &symmetric), PunchStrategy::Punch);
    assert_eq!(punch_strategy(&symmetric, &symmetric), PunchStrategy::GiveUp);
    assert_eq!(punch_strategy(&controlled, &controlled), PunchStrategy::GiveUp);
    let stepping = with_nat(Nat::Symmetric, 5000, PortAllocationRule::PortSensitive, 2);
    assert_eq!(
        punch_strategy(&controlled, &stepping),
        PunchStrategy::PunchThenCluster { my_port_min: 7000, his_port_min: 5002, his_step: 2, his_port_max: 5102 }
    );
    let down = with_nat(Nat::Unknown, 5000, PortAllocationRule::AddressSensitive, -3);
    assert_eq!(
        punch_strategy(&controlled, &down),
        PunchStrategy::PunchThenCluster { my_port_min: 7000, his_port_min: 4997, his_step: 3, his_port_max: 4847 }
    );
    let random = with_nat(Nat::Unknown, 5000, PortAllocationRule::Random, -4);
    assert_eq!(
        punch_strategy(&controlled, &random),
        PunchStrategy::PunchThenCluster { my_port_min: 7000, his_port_min: 5000, his_step: 4, his_port_max: 5000 }
    );
}

#[test]
fn settings_from_stun_answers() {
    let addr = SocketAddr { ip: IpAddr::V6([1; 16]), port: 9000 };
    let open = ipv6_settings(Some((false, true, addr)));
    assert_eq!(open.nat_type, Nat::NoNat);
    assert_eq!(open.pub_port, 9000);
    assert_eq!(ipv6_settings(Some((true, true, addr))).nat_type, Nat::SymmetricWithPortControl);
    assert_eq!(ipv6_settings(Some((true, false, addr))).nat_type, Nat::Unknown);
    let none = ipv6_settings(None);
    assert_eq!(none.pub_ip, IpAddr::V6([0; 16]));
    assert_eq!(none.pub_port, 0);
    assert!(!settings_worth_sending(&none));
    assert!(settings_worth_sending(&open));
    let mine = with_nat(Nat::FullCone, 1000, PortAllocationRule::FullCone, 0);
    let seen = SocketAddr { ip: IpAddr::V4([8, 8, 8, 8]), port: 2000 };
    let updated = refreshed_settings(mine, Some(seen));
    assert_eq!((updated.pub_ip, updated.pub_port, updated.nat_type), (IpAddr::V4([8, 8, 8, 8]), 2000, Nat::FullCone));
    assert_eq!(refreshed_settings(mine, None), mine);
}
