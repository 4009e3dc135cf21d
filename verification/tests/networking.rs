use gnome::networking::status::{NetworkSummary, Transport as StatusTransport, TransportState, TransportStatus};
use gnome::networking::{IpAddr, Nat, NetworkSettings, PortAllocationRule, SocketAddr, Transport};

#[test]
fn nat_bytes_round_trip() {
    for n in [
        Nat::Unknown,
        Nat::NoNat,
        Nat::FullCone,
        Nat::AddressRestrictedCone,
        Nat::PortRestrictedCone,
        Nat::SymmetricWithPortControl,
        Nat::Symmetric,
    ] {
        assert_eq!(Nat::from(n.byte()), n);
    }
    assert_eq!(Nat::from(3), Nat::Unknown);
    assert_eq!(Nat::Symmetric.byte(), 32);
}

#[test]
fn nat_update_keeps_the_more_restrictive() {
    let mut n = Nat::AddressRestrictedCone;
    n.update(Nat::PortRestrictedCone);
    assert_eq!(n, Nat::PortRestrictedCone);
    n.update(Nat::AddressRestrictedCone);
    assert_eq!(n, Nat::PortRestrictedCone);
    n.update(Nat::Unknown);
    assert_eq!(n, Nat::PortRestrictedCone);
    let mut s = Nat::Symmetric;
    s.update(Nat::FullCone);
    assert_eq!(s, Nat::Symmetric);
    let mut o = Nat::NoNat;
    o.update(Nat::FullCone);
    assert_eq!(o, Nat::FullCone);
    o.update(Nat::NoNat);
    assert_eq!(o, Nat::FullCone);
    let mut u = Nat::Unknown;
    u.update(Nat::NoNat);
    assert_eq!(u, Nat::NoNat);
    assert!(Nat::NoNat.no_nat());
}

#[test]
fn port_allocation_rules() {
    assert_eq!(PortAllocationRule::from(4), PortAllocationRule::PortSensitive);
    assert_eq!(PortAllocationRule::from(3), PortAllocationRule::Random);
    let mut r = PortAllocationRule::Random;
    r.update(PortAllocationRule::FullCone);
    assert_eq!(r, PortAllocationRule::AddressSensitive);
}

#[test]
fn transport_bytes() {
    assert_eq!(Transport::from(2), Ok(Transport::UDPoverIP6));
    assert_eq!(Transport::from(9), Err(9));
    assert_eq!(Transport::TCPoverIP6.byte(), 3);
}

#[test]
fn network_settings_bytes_round_trip() {
    let a = NetworkSettings {
        pub_ip: IpAddr::V4([1, 2, 3, 4]),
        pub_port: 500,
        nat_type: Nat::FullCone,
        port_allocation: (PortAllocationRule::AddressSensitive, -2),
        transport: Transport::TCPoverIP4,
    };
    let b = NetworkSettings {
        pub_ip: IpAddr::V6([0xfe, 0x80, 0, 0, 0, 0, 0, 0, 0, 0, 0, 0, 0, 0, 0, 9]),
        pub_port: 7,
        nat_type: Nat::NoNat,
        port_allocation: (PortAllocationRule::FullCone, 0),
        transport: Transport::UDPoverIP6,
    };
    let mut bytes = a.bytes();
    bytes.extend(b.bytes());
    assert_eq!(a.len(), 9);
    assert_eq!(b.len(), 21);
    let back = NetworkSettings::from(&bytes);
    assert_eq!(back, vec![a, b]);
}

#[test]
fn predicted_ports() {
    let ns = NetworkSettings {
        pub_ip: IpAddr::V4([1, 1, 1, 1]),
        pub_port: 1000,
        nat_type: Nat::Symmetric,
        port_allocation: (PortAllocationRule::PortSensitive, 3),
        transport: Transport::UDPoverIP4,
    };
    assert_eq!(ns.port_increment(10), 13);
    assert_eq!(ns.get_predicted_addr(0), (IpAddr::V4([1, 1, 1, 1]), 1003));
    assert_eq!(ns.get_predicted_addr(2), (IpAddr::V4([1, 1, 1, 1]), 1009));
    let down = NetworkSettings { port_allocation: (PortAllocationRule::AddressSensitive, -4), ..ns };
    assert_eq!(down.port_increment(10), 6);
    assert!(down.refresh_required());
    let fixed = NetworkSettings { port_allocation: (PortAllocationRule::FullCone, 5), ..ns };
    assert_eq!(fixed.port_increment(10), 10);
    assert!(!fixed.refresh_required());
    assert!(ns.nat_symmetric());
    assert!(ns.port_allocation_predictable());
}

#[test]
fn not_natted_and_default() {
    let ns = NetworkSettings::new_not_natted(IpAddr::V4([8, 8, 8, 8]), 53, Transport::UDPoverIP4);
    assert!(ns.no_nat());
    assert_eq!(ns.port_allocation, (PortAllocationRule::FullCone, 0));
    let d = NetworkSettings::default();
    assert_eq!(d.pub_port, 1026);
    assert!(d.nat_unknown());
    let mut e = d;
    e.set_port(9);
    assert_eq!(e.pub_port, 9);
    let mut f = d;
    f.update(NetworkSettings { transport: Transport::TCPoverIP6, ..ns });
    assert_eq!(f.transport, Transport::UDPoverIP4);
    assert_eq!(f.pub_ip, IpAddr::V4([8, 8, 8, 8]));
}

#[test]
fn socket_addr_parts() {
    let s = SocketAddr::new(IpAddr::V4([1, 2, 3, 4]), 80);
    assert_eq!(s.ip(), IpAddr::V4([1, 2, 3, 4]));
    assert_eq!(s.port(), 80);
}

#[test]
fn transport_status_reports() {
    let mut t = TransportStatus::new(1000);
    assert!(!t.is_working());
    t.update(Nat::PortRestrictedCone, 1200, (PortAllocationRule::PortSensitive, 1));
    assert!(t.is_working());
    let s = t.get_settings(IpAddr::V4([5, 5, 5, 5]), Transport::UDPoverIP4);
    assert_eq!(s.pub_port, 1200);
    assert_eq!(s.nat_type, Nat::PortRestrictedCone);
    assert_eq!(s.port_allocation, (PortAllocationRule::PortSensitive, 0));
    assert!(TransportState::Unknown.unknown());
    assert!(StatusTransport::Udp.is_udp());
    assert!(StatusTransport::Tcp.is_tcp());
}

#[test]
fn summary_gives_back_a_udp_report() {
    let mut summary = NetworkSummary::empty(1026);
    assert!(summary.get_network_settings().is_empty());
    let r = summary.process(
        IpAddr::V4([9, 8, 7, 6]),
        4000,
        Nat::AddressRestrictedCone,
        (PortAllocationRule::FullCone, 0),
        StatusTransport::Udp,
    );
    assert!(r.is_none());
    let settings = summary.get_network_settings();
    assert_eq!(settings[0].pub_ip, IpAddr::V4([9, 8, 7, 6]));
    assert_eq!(settings[0].pub_port, 4000);
    assert_eq!(settings[0].transport, Transport::UDPoverIP4);
    assert_eq!(settings[0].nat_type, Nat::AddressRestrictedCone);
    let bytes = summary.get_network_settings_bytes();
    assert_eq!(NetworkSettings::from(&bytes).len(), 1);
}
