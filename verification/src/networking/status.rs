//! What a gnome has learned of its own public addresses, per IP version and transport.
use vstd::prelude::*;
use crate::networking::{
    IpAddr, Nat, NetworkSettings, PortAllocationRule, Transport as GTransport, nat_update,
    rule_update, ns_bytes, ns_list_bytes,
};

verus! {

/// A transport protocol, without the IP version.
#[derive(Copy, Clone, Debug, PartialEq, Eq, Hash, Structural)]
pub enum Transport {
    Udp,
    Tcp,
}

impl Transport {
    /// Whether this is UDP.
    pub fn is_udp(&self) -> (r: bool)
        ensures
            r == (*self == Transport::Udp),
    {
        matches!(self, Self::Udp)
    }

    /// Whether this is TCP.
    pub fn is_tcp(&self) -> (r: bool)
        ensures
            r == (*self == Transport::Tcp),
    {
        matches!(self, Self::Tcp)
    }
}

/// What is known of whether a transport works.
#[derive(Copy, Clone, Debug, PartialEq, Eq, Hash, Structural)]
pub enum TransportState {
    Unknown,
    NotAvailable,
    Filtered,
    Working,
}

impl TransportState {
    /// Whether nothing is known yet.
    pub fn unknown(&self) -> (r: bool)
        ensures
            r == (*self == TransportState::Unknown),
    {
        matches!(self, Self::Unknown)
    }
}

/// What a `TransportStatus` holds.
pub struct TransportStatusView {
    pub state: TransportState,
    pub nat: Nat,
    pub port_rule: PortAllocationRule,
    pub last_port_number: u16,
    pub min_port_number: u16,
    pub max_port_number: u16,
    pub minimum_increase_between_ports: u16,
}

/// What is known of one transport: whether it works, the NAT and port rule seen on it,
/// and the public ports seen.
pub struct TransportStatus {
    state: TransportState,
    nat: Nat,
    port_rule: PortAllocationRule,
    last_port_number: u16,
    min_port_number: u16,
    max_port_number: u16,
    minimum_increase_between_ports: u16,
}

impl View for TransportStatus {
    type V = TransportStatusView;

    closed spec fn view(&self) -> TransportStatusView {
        TransportStatusView {
            state: self.state,
            nat: self.nat,
            port_rule: self.port_rule,
            last_port_number: self.last_port_number,
            min_port_number: self.min_port_number,
            max_port_number: self.max_port_number,
            minimum_increase_between_ports: self.minimum_increase_between_ports,
        }
    }
}

/// A status is well formed when the lowest port and the smallest increase seen stay 0,
/// as they start out and as `update` keeps them.
pub open spec fn ts_wf(v: TransportStatusView) -> bool {
    v.min_port_number == 0 && v.minimum_increase_between_ports == 0
}

/// The status of a transport before anything is known, with `port` as the last port.
pub open spec fn ts_new(port: u16) -> TransportStatusView {
    TransportStatusView {
        state: TransportState::Unknown,
        nat: Nat::Unknown,
        port_rule: PortAllocationRule::Random,
        last_port_number: port,
        min_port_number: 0,
        max_port_number: 0,
        minimum_increase_between_ports: 0,
    }
}

/// The distance between two ports.
pub open spec fn port_distance(a: u16, b: u16) -> u16 {
    if a > b {
        (a - b) as u16
    } else {
        (b - a) as u16
    }
}

/// The status of a transport once a NAT kind, a public port and a rule were seen on it:
/// it works; NAT and rule are updated; without a NAT the ports stay as they were.
pub open spec fn ts_update(v: TransportStatusView, nat_type: Nat, port: u16, rule: PortAllocationRule)
    -> TransportStatusView {
    let n = nat_update(v.nat, nat_type);
    let base = TransportStatusView {
        state: TransportState::Working,
        nat: n,
        port_rule: rule_update(v.port_rule, rule),
        ..v
    };
    if n == Nat::NoNat {
        base
    } else {
        TransportStatusView {
            minimum_increase_between_ports: if port_distance(port, v.last_port_number)
                < v.minimum_increase_between_ports {
                port_distance(port, v.last_port_number)
            } else {
                v.minimum_increase_between_ports
            },
            max_port_number: if port > v.max_port_number {
                port
            } else {
                v.max_port_number
            },
            min_port_number: if port < v.min_port_number {
                port
            } else {
                v.min_port_number
            },
            last_port_number: port,
            ..base
        }
    }
}

/// The settings under which a transport with status `v` is reached at `pub_ip`.
pub open spec fn ts_settings(v: TransportStatusView, pub_ip: IpAddr, transport: GTransport)
    -> NetworkSettings {
    NetworkSettings {
        pub_ip,
        pub_port: match v.nat {
            Nat::NoNat | Nat::FullCone | Nat::SymmetricWithPortControl => v.last_port_number,
            _ => (v.last_port_number + v.minimum_increase_between_ports) as u16,
        },
        nat_type: v.nat,
        port_allocation: (v.port_rule, v.minimum_increase_between_ports as i8),
        transport,
    }
}

impl TransportStatus {
    /// The well-formedness that every status keeps.
    pub closed spec fn wf(&self) -> bool {
        ts_wf(self@)
    }

    /// A status with nothing known yet and `port` as the last port seen.
    pub fn new(port: u16) -> (r: Self)
        ensures
            r@ == ts_new(port),
            r.wf(),
    {
        TransportStatus {
            state: TransportState::Unknown,
            nat: Nat::Unknown,
            port_rule: PortAllocationRule::Random,
            last_port_number: port,
            min_port_number: 0,
            max_port_number: 0,
            minimum_increase_between_ports: 0,
        }
    }

    /// Records that the transport works, with the NAT kind, public port and rule seen.
    pub fn update(&mut self, nat_type: Nat, port: u16, port_rule: (PortAllocationRule, i8))
        requires
            old(self).wf(),
        ensures
            final(self)@ == ts_update(old(self)@, nat_type, port, port_rule.0),
            final(self).wf(),
    {
        let (rule, _step) = port_rule;
        self.state = TransportState::Working;
        self.nat.update(nat_type);
        self.port_rule.update(rule);
        if self.nat.no_nat() {
            return;
        }
        let port_diff = if port > self.last_port_number {
            port - self.last_port_number
        } else {
            self.last_port_number - port
        };
        if port_diff < self.minimum_increase_between_ports {
            self.minimum_increase_between_ports = port_diff;
        }
        if port > self.max_port_number {
            self.max_port_number = port;
        }
        if port < self.min_port_number {
            self.min_port_number = port;
        }
        self.last_port_number = port;
    }

    /// The settings under which this transport is reached at `pub_ip`.
    pub fn get_settings(&self, pub_ip: IpAddr, transport: GTransport) -> (r: NetworkSettings)
        requires
            self.wf(),
        ensures
            r == ts_settings(self@, pub_ip, transport),
    {
        let pub_port = match self.nat {
            Nat::NoNat | Nat::FullCone | Nat::SymmetricWithPortControl => self.last_port_number,
            _other => self.last_port_number + self.minimum_increase_between_ports,
        };
        NetworkSettings {
            pub_ip,
            pub_port,
            nat_type: self.nat,
            port_allocation: (self.port_rule, self.minimum_increase_between_ports as i8),
            transport,
        }
    }

    /// Whether the transport is known to work.
    pub fn is_working(&self) -> (r: bool)
        ensures
            r == (self@.state == TransportState::Working),
    {
        self.state == TransportState::Working
    }
}


/// Whether some octet of `s` is not zero.
pub open spec fn some_octet_set(s: Seq<u8>) -> bool {
    exists|i: int| 0 <= i < s.len() && s[i] > 0
}

/// Whether every octet but the last is zero, as in the marker addresses
/// `0.0.0.x` and `::x` that the networking services report with.
pub open spec fn only_last_octet(s: Seq<u8>) -> bool {
    forall|i: int| 0 <= i < s.len() - 1 ==> s[i] == 0
}

/// Whether some octet is not zero.
fn any_octet_set(s: &[u8]) -> (r: bool)
    ensures
        r == some_octet_set(s@),
{
    let mut i: usize = 0;
    while i < s.len()
        invariant
            i <= s@.len(),
            forall|j: int| 0 <= j < i ==> s@[j] == 0,
        decreases s.len() - i,
    {
        if s[i] > 0 {
            return true;
        }
        i = i + 1;
    }
    false
}

/// Whether every octet but the last is zero.
fn all_but_last_zero(s: &[u8]) -> (r: bool)
    ensures
        r == only_last_octet(s@),
{
    if s.len() == 0 {
        return true;
    }
    let mut i: usize = 0;
    while i < s.len() - 1
        invariant
            s@.len() > 0,
            forall|j: int| 0 <= j < i ==> s@[j] == 0,
        decreases s.len() - i,
    {
        if s[i] != 0 {
            return false;
        }
        i = i + 1;
    }
    true
}

/// What an `IPStatus` holds.
pub struct IPStatusView {
    pub pub_address: IpAddr,
    pub udp: TransportStatusView,
    pub tcp: TransportStatusView,
}

/// What is known of one IP version: the public address and the status of UDP and TCP.
pub struct IPStatus {
    pub_address: IpAddr,
    udp: TransportStatus,
    tcp: TransportStatus,
}

impl View for IPStatus {
    type V = IPStatusView;

    closed spec fn view(&self) -> IPStatusView {
        IPStatusView { pub_address: self.pub_address, udp: self.udp@, tcp: self.tcp@ }
    }
}

/// Marks a transport whose state is still unknown as working, where it is the one reported on.
pub open spec fn ip_promote(v: IPStatusView, transport: Transport) -> IPStatusView {
    IPStatusView {
        udp: if v.udp.state == TransportState::Unknown && transport == Transport::Udp {
            TransportStatusView { state: TransportState::Working, ..v.udp }
        } else {
            v.udp
        },
        tcp: if v.tcp.state == TransportState::Unknown && transport == Transport::Tcp {
            TransportStatusView { state: TransportState::Working, ..v.tcp }
        } else {
            v.tcp
        },
        ..v
    }
}

/// The state a transport takes on a marker report with `port` (0: not available,
/// 2: filtered; any other value changes nothing).
pub open spec fn marker_state(t: TransportStatusView, port: u16) -> TransportStatusView {
    if port == 0 {
        TransportStatusView { state: TransportState::NotAvailable, ..t }
    } else if port == 2 {
        TransportStatusView { state: TransportState::Filtered, ..t }
    } else {
        t
    }
}

/// What an `IPStatus` becomes on a report of `ip` and `port` over `transport`.
/// Ports below 6 are markers: from a marker address they tell whether the transport
/// works; from any other address they only tell that it does. A real port sets the
/// public address and updates the transport reported on, and the other one too
/// where the report says there is no NAT.
pub open spec fn ip_update(
    v: IPStatusView,
    ip: IpAddr,
    port: u16,
    nat_type: Nat,
    rule: PortAllocationRule,
    transport: Transport,
) -> IPStatusView {
    if port < 6 {
        if only_last_octet(ip@) {
            match transport {
                Transport::Udp => IPStatusView { udp: marker_state(v.udp, port), ..v },
                Transport::Tcp => IPStatusView { tcp: marker_state(v.tcp, port), ..v },
            }
        } else {
            ip_promote(v, transport)
        }
    } else {
        let p = IPStatusView { pub_address: ip, ..ip_promote(v, transport) };
        match transport {
            Transport::Udp => IPStatusView {
                udp: ts_update(p.udp, nat_type, port, rule),
                tcp: if nat_type == Nat::NoNat {
                    ts_update(p.tcp, nat_type, port, rule)
                } else {
                    p.tcp
                },
                ..p
            },
            Transport::Tcp => IPStatusView {
                tcp: ts_update(p.tcp, nat_type, port, rule),
                udp: if nat_type == Nat::NoNat {
                    ts_update(p.udp, nat_type, port, rule)
                } else {
                    p.udp
                },
                ..p
            },
        }
    }
}

/// The settings under which the working transports of `v` are reached.
pub open spec fn ip_settings(v: IPStatusView, is_ipv4: bool) -> Seq<NetworkSettings> {
    let udp = if v.udp.state == TransportState::Working {
        seq![
            ts_settings(
                v.udp,
                v.pub_address,
                if is_ipv4 {
                    GTransport::UDPoverIP4
                } else {
                    GTransport::UDPoverIP6
                },
            ),
        ]
    } else {
        seq![]
    };
    let tcp = if v.tcp.state == TransportState::Working {
        seq![
            ts_settings(
                v.tcp,
                v.pub_address,
                if is_ipv4 {
                    GTransport::TCPoverIP4
                } else {
                    GTransport::TCPoverIP6
                },
            ),
        ]
    } else {
        seq![]
    };
    udp + tcp
}

/// The status of an IP version before anything is known.
pub open spec fn ip_new(pub_address: IpAddr, port: u16) -> IPStatusView {
    IPStatusView { pub_address, udp: ts_new(port), tcp: ts_new(port) }
}

impl IPStatus {
    /// The well-formedness that every status keeps.
    pub closed spec fn wf(&self) -> bool {
        self.udp.wf() && self.tcp.wf()
    }

    /// IPv4 status with the unspecified address and `port` as the last port seen.
    pub fn new_ip4(port: u16) -> (r: Self)
        ensures
            r@ == ip_new(IpAddr::V4([0, 0, 0, 0]), port),
            r.wf(),
    {
        IPStatus {
            pub_address: IpAddr::V4([0, 0, 0, 0]),
            udp: TransportStatus::new(port),
            tcp: TransportStatus::new(port),
        }
    }

    /// IPv6 status with the unspecified address and `port` as the last port seen.
    pub fn new_ip6(port: u16) -> (r: Self)
        ensures
            r@ == ip_new(IpAddr::V6([0u8, 0, 0, 0, 0, 0, 0, 0, 0, 0, 0, 0, 0, 0, 0, 0]), port),
            r.wf(),
    {
        IPStatus {
            pub_address: IpAddr::V6([0, 0, 0, 0, 0, 0, 0, 0, 0, 0, 0, 0, 0, 0, 0, 0]),
            udp: TransportStatus::new(port),
            tcp: TransportStatus::new(port),
        }
    }

    /// Whether a public address other than the unspecified one is known.
    pub fn is_ip_known(&self) -> (r: bool)
        ensures
            r == some_octet_set(self@.pub_address@),
    {
        match &self.pub_address {
            IpAddr::V4(v4) => any_octet_set(v4.as_slice()),
            IpAddr::V6(v6) => any_octet_set(v6.as_slice()),
        }
    }

    /// Takes in a report of `ip` and `port` over `transport`; never asks for more.
    pub fn update(
        &mut self,
        ip: IpAddr,
        port: u16,
        nat_type: Nat,
        port_rule: (PortAllocationRule, i8),
        transport: Transport,
    ) -> (r: Option<Vec<(IpAddr, u16, Nat, (PortAllocationRule, i8))>>)
        requires
            old(self).wf(),
        ensures
            final(self)@ == ip_update(old(self)@, ip, port, nat_type, port_rule.0, transport),
            final(self).wf(),
            r is None,
    {
        let other_zeroes = match &ip {
            IpAddr::V4(v4) => all_but_last_zero(v4.as_slice()),
            IpAddr::V6(v6) => all_but_last_zero(v6.as_slice()),
        };
        if port < 6 {
            if other_zeroes {
                match transport {
                    Transport::Udp => {
                        if port == 0 {
                            self.udp.state = TransportState::NotAvailable;
                        } else if port == 2 {
                            self.udp.state = TransportState::Filtered;
                        }
                    },
                    Transport::Tcp => {
                        if port == 0 {
                            self.tcp.state = TransportState::NotAvailable;
                        } else if port == 2 {
                            self.tcp.state = TransportState::Filtered;
                        }
                    },
                }
            } else {
                if self.udp.state.unknown() && transport.is_udp() {
                    self.udp.state = TransportState::Working;
                }
                if self.tcp.state.unknown() && transport.is_tcp() {
                    self.tcp.state = TransportState::Working;
                }
            }
        } else {
            if self.udp.state.unknown() && transport.is_udp() {
                self.udp.state = TransportState::Working;
            }
            if self.tcp.state.unknown() && transport.is_tcp() {
                self.tcp.state = TransportState::Working;
            }
            self.pub_address = ip;
            match transport {
                Transport::Udp => {
                    self.udp.update(nat_type, port, port_rule);
                    if nat_type.no_nat() {
                        self.tcp.update(nat_type, port, port_rule);
                    }
                },
                Transport::Tcp => {
                    self.tcp.update(nat_type, port, port_rule);
                    if nat_type.no_nat() {
                        self.udp.update(nat_type, port, port_rule);
                    }
                },
            }
        }
        None
    }

    /// The settings under which the working transports are reached.
    pub fn get_settings(&self, is_ipv4: bool) -> (r: Vec<NetworkSettings>)
        requires
            self.wf(),
        ensures
            r@ == ip_settings(self@, is_ipv4),
    {
        let mut res: Vec<NetworkSettings> = Vec::new();
        if self.udp.is_working() {
            let transport = if is_ipv4 {
                GTransport::UDPoverIP4
            } else {
                GTransport::UDPoverIP6
            };
            res.push(self.udp.get_settings(self.pub_address, transport));
        }
        if self.tcp.is_working() {
            let transport = if is_ipv4 {
                GTransport::TCPoverIP4
            } else {
                GTransport::TCPoverIP6
            };
            res.push(self.tcp.get_settings(self.pub_address, transport));
        }
        assert(res@ =~= ip_settings(self@, is_ipv4));
        res
    }
}


/// What a `NetworkSummary` holds.
pub struct NetworkSummaryView {
    pub ip4: IPStatusView,
    pub ip6: IPStatusView,
}

/// What is known of a gnome's public reachability over IPv4 and IPv6.
pub struct NetworkSummary {
    ip4: IPStatus,
    ip6: IPStatus,
}

impl View for NetworkSummary {
    type V = NetworkSummaryView;

    closed spec fn view(&self) -> NetworkSummaryView {
        NetworkSummaryView { ip4: self.ip4@, ip6: self.ip6@ }
    }
}

/// The settings of the IP versions whose public address is known, IPv4 first.
pub open spec fn summary_settings(v: NetworkSummaryView) -> Seq<NetworkSettings> {
    (if some_octet_set(v.ip4.pub_address@) {
        ip_settings(v.ip4, true)
    } else {
        seq![]
    }) + (if some_octet_set(v.ip6.pub_address@) {
        ip_settings(v.ip6, false)
    } else {
        seq![]
    })
}

/// The settings of both IP versions, known address or not, IPv4 first.
pub open spec fn summary_all_settings(v: NetworkSummaryView) -> Seq<NetworkSettings> {
    ip_settings(v.ip4, true) + ip_settings(v.ip6, false)
}

impl NetworkSummary {
    /// The well-formedness that every summary keeps.
    pub closed spec fn wf(&self) -> bool {
        self.ip4.wf() && self.ip6.wf()
    }

    /// A summary with nothing known, IPv4 at `port` and IPv6 at the port after it.
    pub fn empty(port: u16) -> (r: Self)
        requires
            port < u16::MAX,
        ensures
            r@ == (NetworkSummaryView {
                ip4: ip_new(IpAddr::V4([0, 0, 0, 0]), port),
                ip6: ip_new(
                    IpAddr::V6([0u8, 0, 0, 0, 0, 0, 0, 0, 0, 0, 0, 0, 0, 0, 0, 0]),
                    (port + 1) as u16,
                ),
            }),
            r.wf(),
    {
        NetworkSummary { ip4: IPStatus::new_ip4(port), ip6: IPStatus::new_ip6(port + 1) }
    }

    /// The settings of the IP versions whose public address is known.
    pub fn get_network_settings(&self) -> (r: Vec<NetworkSettings>)
        requires
            self.wf(),
        ensures
            r@ == summary_settings(self@),
    {
        let mut settings: Vec<NetworkSettings> = Vec::with_capacity(4);
        if self.ip4.is_ip_known() {
            let mut more = self.ip4.get_settings(true);
            settings.append(&mut more);
        }
        if self.ip6.is_ip_known() {
            let mut more = self.ip6.get_settings(false);
            settings.append(&mut more);
        }
        assert(settings@ =~= summary_settings(self@));
        settings
    }

    /// The bytes of the settings of both IP versions, one after another.
    pub fn get_network_settings_bytes(&self) -> (r: Vec<u8>)
        requires
            self.wf(),
        ensures
            r@ == ns_list_bytes(summary_all_settings(self@)),
    {
        let all = {
            let mut v4 = self.ip4.get_settings(true);
            let mut v6 = self.ip6.get_settings(false);
            v4.append(&mut v6);
            v4
        };
        let mut bytes: Vec<u8> = Vec::with_capacity(128);
        let mut i: usize = 0;
        assert(all@.skip(0) =~= all@);
        assert(ns_list_bytes(all@) =~= bytes@ + ns_list_bytes(all@.skip(0)));
        while i < all.len()
            invariant
                i <= all@.len(),
                all@ == summary_all_settings(self@),
                ns_list_bytes(all@) == bytes@ + ns_list_bytes(all@.skip(i as int)),
            decreases all.len() - i,
        {
            let mut more = all[i].bytes();
            proof {
                let rest = all@.skip(i as int);
                assert(rest.skip(1) =~= all@.skip(i + 1));
                assert(ns_list_bytes(rest) == ns_bytes(rest[0]) + ns_list_bytes(rest.skip(1)));
            }
            bytes.append(&mut more);
            i = i + 1;
            proof {
                assert(ns_list_bytes(all@) =~= bytes@ + ns_list_bytes(all@.skip(i as int)));
            }
        }
        proof {
            assert(all@.skip(i as int) =~= seq![]);
            assert(bytes@ =~= bytes@ + ns_list_bytes(all@.skip(i as int)));
        }
        bytes
    }

    /// Takes in a report of `ip` and `port` over `transport`, for the IP version of `ip`.
    pub fn process(
        &mut self,
        ip: IpAddr,
        port: u16,
        nat_type: Nat,
        port_rule: (PortAllocationRule, i8),
        transport: Transport,
    ) -> (r: Option<Vec<(IpAddr, u16, Nat, (PortAllocationRule, i8))>>)
        requires
            old(self).wf(),
        ensures
            final(self)@ == (if ip is V4 {
                NetworkSummaryView {
                    ip4: ip_update(old(self)@.ip4, ip, port, nat_type, port_rule.0, transport),
                    ..old(self)@
                }
            } else {
                NetworkSummaryView {
                    ip6: ip_update(old(self)@.ip6, ip, port, nat_type, port_rule.0, transport),
                    ..old(self)@
                }
            }),
            final(self).wf(),
            r is None,
    {
        if ip.is_ipv4() {
            self.ip4.update(ip, port, nat_type, port_rule, transport)
        } else {
            self.ip6.update(ip, port, nat_type, port_rule, transport)
        }
    }
}


/// After a report of a public IPv4 address and port over UDP behind a NAT, the first
/// settings the summary gives are that address and port over UDP, with the NAT kind
/// and rule as updated and a port step of 0.
pub proof fn lemma_udp_report_is_given_back(
    v: NetworkSummaryView,
    ip: IpAddr,
    port: u16,
    nat_type: Nat,
    rule: PortAllocationRule,
)
    requires
        ts_wf(v.ip4.udp),
        ip is V4,
        some_octet_set(ip@),
        port >= 6,
        nat_update(v.ip4.udp.nat, nat_type) != Nat::NoNat,
    ensures
        summary_settings(
            NetworkSummaryView { ip4: ip_update(v.ip4, ip, port, nat_type, rule, Transport::Udp), ..v },
        )[0] == (NetworkSettings {
            pub_ip: ip,
            pub_port: port,
            nat_type: nat_update(v.ip4.udp.nat, nat_type),
            port_allocation: (rule_update(v.ip4.udp.port_rule, rule), 0),
            transport: GTransport::UDPoverIP4,
        }),
{
}

} // verus!
