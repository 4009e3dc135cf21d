use gnome::networking::client::{own_settings, own_tcp_settings, reported_address, same_ip};
use gnome::networking::{IpAddr, Nat, PortAllocationRule, SocketAddr, Transport};

#[test]
fn reported_ipv4_reads_the_four_octets() {
    let pib = [0x1F, 0x90, 10, 20, 30, 40];
    assert_eq!(reported_address(&pib), Some((IpAddr::V4([10, 20, 30, 40]), 0x1F90)));
}

#[test]
fn reported_ipv6_and_other_lengths() {
    let mut pib = vec![0x00, 0x50];
    pib.extend(1u8..=16);
    let mut octets = [0u8; 16];
    for (i, o) in octets.iter_mut().enumerate() {
        *o = i as u8 + 1;
    }
    assert_eq!(reported_address(&pib), Some((IpAddr::V6(octets), 80)));
    assert_eq!(reported_address(&[0, 1]), None);
    assert_eq!(reported_address(&[0, 1, 2, 3, 4, 5, 6]), None);
}

#[test]
fn addresses_compare_by_octets() {
    assert!(same_ip(&IpAddr::V4([1, 2, 3, 4]), &IpAddr::V4([1, 2, 3, 4])));
    assert!(!same_ip(&IpAddr::V4([1, 2, 3, 4]), &IpAddr::V4([1, 2, 3, 5])));
    assert!(!same_ip(&IpAddr::V4([0; 4]), &IpAddr::V6([0; 16])));
    assert!(same_ip(&IpAddr::V6([7; 16]), &IpAddr::V6([7; 16])));
}

#[test]
fn own_settings_from_the_reported_address() {
    let ip = IpAddr::V4([5, 6, 7, 8]);
    let direct = own_settings(&SocketAddr { ip, port: 1026 }, ip, 1026);
    assert_eq!(direct.nat_type, Nat::NoNat);
    assert_eq!(direct.port_allocation, (PortAllocationRule::FullCone, 0));
    assert_eq!(direct.transport, Transport::UDPoverIP4);
    let kept = own_settings(&SocketAddr { ip: IpAddr::V4([192, 168, 0, 2]), port: 1026 }, ip, 1026);
    assert_eq!(kept.nat_type, Nat::Unknown);
    assert_eq!(kept.port_allocation, (PortAllocationRule::Random, 127));
    let moved = own_settings(&SocketAddr { ip: IpAddr::V4([192, 168, 0, 2]), port: 1026 }, ip, 3000);
    assert_eq!(moved.port_allocation, (PortAllocationRule::Random, 126));
    assert_eq!(moved.pub_port, 3000);
    let v6 = own_settings(&SocketAddr { ip, port: 1 }, IpAddr::V6([1; 16]), 2);
    assert_eq!(v6.transport, Transport::UDPoverIP6);
}

#[test]
fn own_tcp_settings_from_the_reported_address() {
    let ip = IpAddr::V6([3; 16]);
    let direct = own_tcp_settings(&SocketAddr { ip, port: 1027 }, ip, 1027);
    assert_eq!(direct.nat_type, Nat::NoNat);
    assert_eq!(direct.transport, Transport::TCPoverIP6);
    let local = SocketAddr { ip: IpAddr::V4([10, 0, 0, 5]), port: 1027 };
    let kept = own_tcp_settings(&local, IpAddr::V4([5, 6, 7, 8]), 1027);
    assert_eq!(kept.port_allocation, (PortAllocationRule::FullCone, 127));
    assert_eq!(kept.transport, Transport::TCPoverIP4);
    let moved = own_tcp_settings(&local, IpAddr::V4([5, 6, 7, 8]), 2000);
    assert_eq!(moved.port_allocation, (PortAllocationRule::Random, 127));
    assert_eq!(moved.nat_type, Nat::Unknown);
}
