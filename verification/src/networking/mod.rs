//! What a gnome knows about its own and its neighbors' network reachability:
//! NAT kinds, port allocation rules, transports and their byte encoding.
use vstd::prelude::*;

pub mod status;
pub mod client;
pub mod common;
pub mod direct_punch;
pub mod holepunch;
pub mod server;
pub mod sock;
pub mod stun;
pub mod subscription;
pub mod tcp_common;
pub mod token;
use crate::data_conversion::{as_u16_be, be16, lemma_u16_roundtrip, put_u16};

verus! {

/// An IP address, version 4 or 6, by its octets.
#[derive(Clone, Copy, Debug, PartialEq, Eq)]
pub enum IpAddr {
    V4([u8; 4]),
    V6([u8; 16]),
}

impl IpAddr {
    /// The octets of the address, in network order.
    pub open spec fn octets(self) -> Seq<u8> {
        match self {
            IpAddr::V4(a) => a@,
            IpAddr::V6(a) => a@,
        }
    }

    pub open spec fn spec_is_ipv4(&self) -> bool {
        self is V4
    }

    /// Whether this is an IPv4 address.
    #[verifier::when_used_as_spec(spec_is_ipv4)]
    pub fn is_ipv4(&self) -> (r: bool)
        ensures
            r == self.spec_is_ipv4(),
    {
        match self {
            IpAddr::V4(_) => true,
            IpAddr::V6(_) => false,
        }
    }
}

/// The kind of NAT a host sits behind.
#[derive(Clone, Copy, Debug, PartialEq, Eq, Structural)]
pub enum Nat {
    Unknown,
    NoNat,
    FullCone,
    AddressRestrictedCone,
    PortRestrictedCone,
    SymmetricWithPortControl,
    Symmetric,
}

/// The byte that stands for each kind of NAT on the wire.
pub open spec fn nat_byte(n: Nat) -> u8 {
    match n {
        Nat::Unknown => 0,
        Nat::NoNat => 1,
        Nat::FullCone => 2,
        Nat::AddressRestrictedCone => 4,
        Nat::PortRestrictedCone => 8,
        Nat::SymmetricWithPortControl => 16,
        Nat::Symmetric => 32,
    }
}

/// The NAT kind a byte stands for; every byte that stands for none is `Unknown`.
pub open spec fn nat_from_byte(b: u8) -> Nat {
    if b == 1 {
        Nat::NoNat
    } else if b == 2 {
        Nat::FullCone
    } else if b == 4 {
        Nat::AddressRestrictedCone
    } else if b == 8 {
        Nat::PortRestrictedCone
    } else if b == 16 {
        Nat::SymmetricWithPortControl
    } else if b == 32 {
        Nat::Symmetric
    } else {
        Nat::Unknown
    }
}

/// How restrictive a NAT is: `Unknown` below all, then `NoNat` up to `Symmetric`.
pub open spec fn nat_rank(n: Nat) -> int {
    match n {
        Nat::Unknown => -1,
        Nat::NoNat => 0,
        Nat::FullCone => 1,
        Nat::AddressRestrictedCone => 2,
        Nat::PortRestrictedCone => 3,
        Nat::SymmetricWithPortControl => 4,
        Nat::Symmetric => 5,
    }
}

/// What a NAT kind `cur` becomes once `new` is learned: the more restrictive
/// of the two, so that `Unknown` never replaces a known kind.
pub open spec fn nat_update(cur: Nat, new: Nat) -> Nat {
    if nat_rank(new) > nat_rank(cur) {
        new
    } else {
        cur
    }
}

/// How restrictive a NAT kind is, as `nat_rank` says.
fn rank_of(n: Nat) -> (r: i8)
    ensures
        r == nat_rank(n),
{
    match n {
        Nat::Unknown => -1,
        Nat::NoNat => 0,
        Nat::FullCone => 1,
        Nat::AddressRestrictedCone => 2,
        Nat::PortRestrictedCone => 3,
        Nat::SymmetricWithPortControl => 4,
        Nat::Symmetric => 5,
    }
}

impl Nat {
    /// The byte that stands for this NAT kind on the wire.
    pub fn byte(&self) -> (r: u8)
        ensures
            r == nat_byte(*self),
    {
        match self {
            Nat::Unknown => 0,
            Nat::NoNat => 1,
            Nat::FullCone => 2,
            Nat::AddressRestrictedCone => 4,
            Nat::PortRestrictedCone => 8,
            Nat::SymmetricWithPortControl => 16,
            Nat::Symmetric => 32,
        }
    }

    /// The NAT kind a byte stands for.
    pub fn from(byte: u8) -> (r: Self)
        ensures
            r == nat_from_byte(byte),
    {
        match byte {
            1 => Self::NoNat,
            2 => Self::FullCone,
            4 => Self::AddressRestrictedCone,
            8 => Self::PortRestrictedCone,
            16 => Self::SymmetricWithPortControl,
            32 => Self::Symmetric,
            _o => Self::Unknown,
        }
    }

    /// Takes `new_value` into account, keeping the more restrictive kind.
    pub fn update(&mut self, new_value: Nat)
        ensures
            *final(self) == nat_update(*old(self), new_value),
    {
        if rank_of(new_value) > rank_of(*self) {
            *self = new_value;
        }
    }

    /// Whether there is no NAT.
    pub fn no_nat(&self) -> (r: bool)
        ensures
            r == (*self == Nat::NoNat),
    {
        matches!(self, Self::NoNat)
    }
}

/// Reading a NAT kind back from its byte gives the same kind.
pub proof fn lemma_nat_byte_roundtrip(n: Nat)
    ensures
        nat_from_byte(nat_byte(n)) == n,
{
}

/// Learning the same NAT kind twice changes nothing more than learning it once.
pub proof fn lemma_nat_update_idempotent(cur: Nat, new: Nat)
    ensures
        nat_update(nat_update(cur, new), new) == nat_update(cur, new),
{
}

/// Learning `Unknown` changes nothing.
pub proof fn lemma_nat_update_unknown(cur: Nat)
    ensures
        nat_update(cur, Nat::Unknown) == cur,
{
}

/// Learning a kind keeps the more restrictive of the two kinds.
pub proof fn lemma_nat_update_keeps_more_restrictive(cur: Nat, new: Nat)
    ensures
        nat_rank(nat_update(cur, new)) == if nat_rank(cur) >= nat_rank(new) {
            nat_rank(cur)
        } else {
            nat_rank(new)
        },
{
}

/// How a NAT assigns public ports to new outgoing connections.
#[derive(Clone, Copy, Debug, PartialEq, Eq, Structural)]
pub enum PortAllocationRule {
    Random,
    FullCone,
    AddressSensitive,
    PortSensitive,
}

/// The byte that stands for each port allocation rule on the wire.
pub open spec fn rule_byte(r: PortAllocationRule) -> u8 {
    match r {
        PortAllocationRule::Random => 0,
        PortAllocationRule::FullCone => 1,
        PortAllocationRule::AddressSensitive => 2,
        PortAllocationRule::PortSensitive => 4,
    }
}

/// The rule a byte stands for; every byte that stands for none is `Random`.
pub open spec fn rule_from_byte(b: u8) -> PortAllocationRule {
    if b == 1 {
        PortAllocationRule::FullCone
    } else if b == 2 {
        PortAllocationRule::AddressSensitive
    } else if b == 4 {
        PortAllocationRule::PortSensitive
    } else {
        PortAllocationRule::Random
    }
}

/// What a port allocation rule `cur` becomes once `new` is learned.
pub open spec fn rule_update(cur: PortAllocationRule, new: PortAllocationRule) -> PortAllocationRule {
    match new {
        PortAllocationRule::Random => cur,
        PortAllocationRule::FullCone => match cur {
            PortAllocationRule::Random | PortAllocationRule::FullCone => {
                PortAllocationRule::AddressSensitive
            },
            _ => cur,
        },
        PortAllocationRule::AddressSensitive => match cur {
            PortAllocationRule::Random => PortAllocationRule::AddressSensitive,
            _ => cur,
        },
        PortAllocationRule::PortSensitive => match cur {
            PortAllocationRule::FullCone => cur,
            _ => PortAllocationRule::PortSensitive,
        },
    }
}

impl PortAllocationRule {
    /// The byte that stands for this rule on the wire.
    pub fn byte(&self) -> (r: u8)
        ensures
            r == rule_byte(*self),
    {
        match self {
            Self::Random => 0,
            Self::FullCone => 1,
            Self::AddressSensitive => 2,
            Self::PortSensitive => 4,
        }
    }

    /// The rule a byte stands for.
    pub fn from(byte: u8) -> (r: Self)
        ensures
            r == rule_from_byte(byte),
    {
        match byte {
            1 => Self::FullCone,
            2 => Self::AddressSensitive,
            4 => Self::PortSensitive,
            _o => Self::Random,
        }
    }

    /// Takes `new_value` into account.
    pub fn update(&mut self, new_value: Self)
        ensures
            *final(self) == rule_update(*old(self), new_value),
    {
        let cur = *self;
        match new_value {
            Self::Random => {},
            Self::FullCone => {
                match cur {
                    Self::Random | Self::FullCone => {
                        *self = Self::AddressSensitive;
                    },
                    _ => {},
                }
            },
            Self::AddressSensitive => {
                match cur {
                    Self::Random => {
                        *self = Self::AddressSensitive;
                    },
                    _ => {},
                }
            },
            Self::PortSensitive => {
                match cur {
                    Self::FullCone => {},
                    _ => {
                        *self = Self::PortSensitive;
                    },
                }
            },
        }
    }
}

/// Reading a rule back from its byte gives the same rule.
pub proof fn lemma_rule_byte_roundtrip(r: PortAllocationRule)
    ensures
        rule_from_byte(rule_byte(r)) == r,
{
}

/// Learning the same rule twice changes nothing more than learning it once.
pub proof fn lemma_rule_update_idempotent(cur: PortAllocationRule, new: PortAllocationRule)
    ensures
        rule_update(rule_update(cur, new), new) == rule_update(cur, new),
{
}

/// The transport and IP version of a connection.
#[derive(Clone, Copy, Debug, PartialEq, Eq, Structural)]
pub enum Transport {
    UDPoverIP4,
    TCPoverIP4,
    UDPoverIP6,
    TCPoverIP6,
}

/// The byte that stands for each transport on the wire.
pub open spec fn transport_byte(t: Transport) -> u8 {
    match t {
        Transport::UDPoverIP4 => 0,
        Transport::TCPoverIP4 => 1,
        Transport::UDPoverIP6 => 2,
        Transport::TCPoverIP6 => 3,
    }
}

/// The transport a byte stands for, or the byte back where it stands for none.
pub open spec fn transport_from_byte(b: u8) -> Result<Transport, u8> {
    if b == 0 {
        Ok(Transport::UDPoverIP4)
    } else if b == 1 {
        Ok(Transport::TCPoverIP4)
    } else if b == 2 {
        Ok(Transport::UDPoverIP6)
    } else if b == 3 {
        Ok(Transport::TCPoverIP6)
    } else {
        Err(b)
    }
}

impl Transport {
    /// The transport a byte stands for; any byte above 3 is handed back as the error.
    pub fn from(byte: u8) -> (r: Result<Self, u8>)
        ensures
            r == transport_from_byte(byte),
    {
        match byte {
            0 => Ok(Self::UDPoverIP4),
            1 => Ok(Self::TCPoverIP4),
            2 => Ok(Self::UDPoverIP6),
            3 => Ok(Self::TCPoverIP6),
            other => Err(other),
        }
    }

    /// The byte that stands for this transport on the wire.
    pub fn byte(&self) -> (r: u8)
        ensures
            r == transport_byte(*self),
    {
        match self {
            Self::UDPoverIP4 => 0,
            Self::TCPoverIP4 => 1,
            Self::UDPoverIP6 => 2,
            Self::TCPoverIP6 => 3,
        }
    }
}

/// Reading a transport back from its byte gives the same transport.
pub proof fn lemma_transport_byte_roundtrip(t: Transport)
    ensures
        transport_from_byte(transport_byte(t)) == Ok::<Transport, u8>(t),
{
}


/// An IP address with a port.
#[derive(Clone, Copy, Debug, PartialEq, Eq)]
pub struct SocketAddr {
    pub ip: IpAddr,
    pub port: u16,
}

impl SocketAddr {
    /// The address `ip` at `port`.
    pub fn new(ip: IpAddr, port: u16) -> (r: Self)
        ensures
            r == (SocketAddr { ip, port }),
    {
        SocketAddr { ip, port }
    }

    /// The IP address.
    pub fn ip(&self) -> (r: IpAddr)
        ensures
            r == self.ip,
    {
        self.ip
    }

    /// The port.
    pub fn port(&self) -> (r: u16)
        ensures
            r == self.port,
    {
        self.port
    }
}

impl View for IpAddr {
    type V = Seq<u8>;

    open spec fn view(&self) -> Seq<u8> {
        self.octets()
    }
}

/// What a `NetworkSettings` says, with the address as its octets.
pub struct NetworkSettingsView {
    pub ip: Seq<u8>,
    pub port: u16,
    pub nat: Nat,
    pub rule: PortAllocationRule,
    pub delta: i8,
    pub transport: Transport,
}

/// How a gnome can be reached: public address and port, NAT kind,
/// port allocation rule with its port step, and transport.
#[derive(Clone, Copy, Debug, PartialEq, Eq)]
pub struct NetworkSettings {
    pub pub_ip: IpAddr,
    pub pub_port: u16,
    pub nat_type: Nat,
    pub port_allocation: (PortAllocationRule, i8),
    pub transport: Transport,
}

impl View for NetworkSettings {
    type V = NetworkSettingsView;

    open spec fn view(&self) -> NetworkSettingsView {
        NetworkSettingsView {
            ip: self.pub_ip@,
            port: self.pub_port,
            nat: self.nat_type,
            rule: self.port_allocation.0,
            delta: self.port_allocation.1,
            transport: self.transport,
        }
    }
}

/// The byte that tells the IP version of an address on the wire.
pub open spec fn ip_version_byte(ip: IpAddr) -> u8 {
    if ip is V4 {
        4
    } else {
        6
    }
}

/// The bytes of one `NetworkSettings`: IP version, octets, NAT, port, rule, step, transport.
pub open spec fn ns_bytes(ns: NetworkSettings) -> Seq<u8> {
    seq![ip_version_byte(ns.pub_ip)] + ns.pub_ip@ + seq![
        nat_byte(ns.nat_type),
        (ns.pub_port / 0x100) as u8,
        (ns.pub_port % 0x100) as u8,
        rule_byte(ns.port_allocation.0),
        ns.port_allocation.1 as u8,
        transport_byte(ns.transport),
    ]
}

/// The bytes of a list of `NetworkSettings`, one after another.
pub open spec fn ns_list_bytes(list: Seq<NetworkSettings>) -> Seq<u8>
    decreases list.len(),
{
    if list.len() == 0 {
        seq![]
    } else {
        ns_bytes(list[0]) + ns_list_bytes(list.skip(1))
    }
}

/// The transport read from the wire, made to agree with the IP version it came with.
pub open spec fn transport_for_version(t: Transport, is_v6: bool) -> Transport {
    if is_v6 {
        match t {
            Transport::UDPoverIP4 => Transport::UDPoverIP6,
            Transport::TCPoverIP4 => Transport::TCPoverIP6,
            other => other,
        }
    } else {
        match t {
            Transport::UDPoverIP6 => Transport::UDPoverIP4,
            Transport::TCPoverIP6 => Transport::TCPoverIP4,
            other => other,
        }
    }
}

/// The first `NetworkSettings` at the start of `b` and the number of bytes it takes,
/// or nothing where `b` does not start with one.
pub open spec fn parse_ns(b: Seq<u8>) -> Option<(NetworkSettingsView, int)> {
    if b.len() == 0 || (b[0] != 4 && b[0] != 6) {
        None
    } else {
        let n: int = if b[0] == 4 { 4 } else { 16 };
        if b.len() < n + 7 {
            None
        } else {
            match transport_from_byte(b[n + 6]) {
                Ok(t) => Some(
                    (
                        NetworkSettingsView {
                            ip: b.subrange(1, n + 1),
                            nat: nat_from_byte(b[n + 1]),
                            port: be16(b[n + 2], b[n + 3]) as u16,
                            rule: rule_from_byte(b[n + 4]),
                            delta: b[n + 5] as i8,
                            transport: transport_for_version(t, b[0] == 6),
                        },
                        n + 7,
                    ),
                ),
                Err(_) => None,
            }
        }
    }
}

/// All the `NetworkSettings` that `b` holds, one after another, or nothing where
/// some part of `b` is not one.
pub open spec fn parse_ns_list(b: Seq<u8>) -> Option<Seq<NetworkSettingsView>>
    decreases b.len(),
{
    if b.len() == 0 {
        Some(seq![])
    } else {
        match parse_ns(b) {
            Some((v, k)) => if 0 < k <= b.len() {
                match parse_ns_list(b.skip(k)) {
                    Some(rest) => Some(seq![v] + rest),
                    None => None,
                }
            } else {
                None
            },
            None => None,
        }
    }
}

/// The port step that a rule applies between consecutive connections.
pub open spec fn port_delta(ns: NetworkSettings) -> int {
    match ns.port_allocation.0 {
        PortAllocationRule::AddressSensitive | PortAllocationRule::PortSensitive => {
            ns.port_allocation.1 as int
        },
        _ => 0,
    }
}

/// Whether the transport agrees with the IP version of the address.
pub open spec fn transport_agrees(ns: NetworkSettings) -> bool {
    if ns.pub_ip is V4 {
        ns.transport == Transport::UDPoverIP4 || ns.transport == Transport::TCPoverIP4
    } else {
        ns.transport == Transport::UDPoverIP6 || ns.transport == Transport::TCPoverIP6
    }
}

impl NetworkSettings {
    /// Reads every `NetworkSettings` that `bytes` holds, one after another.
    pub fn from(bytes: &[u8]) -> (res: Vec<NetworkSettings>)
        requires
            parse_ns_list(bytes@) is Some,
        ensures
            res@.map_values(|n: NetworkSettings| n@) == parse_ns_list(bytes@)->0,
    {
        let mut ns_vec: Vec<NetworkSettings> = Vec::new();
        let mut i: usize = 0;
        let len = bytes.len();
        assert(bytes@.skip(0) =~= bytes@);
        while i < len
            invariant
                len == bytes@.len(),
                i <= len,
                parse_ns_list(bytes@.skip(i as int)) is Some,
                parse_ns_list(bytes@) == Some(
                    ns_vec@.map_values(|n: NetworkSettings| n@) + parse_ns_list(
                        bytes@.skip(i as int),
                    )->0,
                ),
            decreases len - i,
        {
            let ghost rest = bytes@.skip(i as int);
            let ip_ver = bytes[i];
            let n: usize = if ip_ver == 4 { 4 } else { 16 };
            let pub_ip = if ip_ver == 4 {
                IpAddr::V4([bytes[i + 1], bytes[i + 2], bytes[i + 3], bytes[i + 4]])
            } else {
                IpAddr::V6(
                    [
                        bytes[i + 1],
                        bytes[i + 2],
                        bytes[i + 3],
                        bytes[i + 4],
                        bytes[i + 5],
                        bytes[i + 6],
                        bytes[i + 7],
                        bytes[i + 8],
                        bytes[i + 9],
                        bytes[i + 10],
                        bytes[i + 11],
                        bytes[i + 12],
                        bytes[i + 13],
                        bytes[i + 14],
                        bytes[i + 15],
                        bytes[i + 16],
                    ],
                )
            };
            let nat_type = Nat::from(bytes[i + n + 1]);
            let pub_port: u16 = as_u16_be(&[bytes[i + n + 2], bytes[i + n + 3]]);
            let port_allocation_rule = PortAllocationRule::from(bytes[i + n + 4]);
            let delta_port = bytes[i + n + 5] as i8;
            let raw_transport = Transport::from(bytes[i + n + 6]);
            let mut transport = match raw_transport {
                Ok(t) => t,
                Err(_) => Transport::UDPoverIP4,
            };
            if transport == Transport::UDPoverIP4 && ip_ver == 6 {
                transport = Transport::UDPoverIP6;
            } else if transport == Transport::TCPoverIP4 && ip_ver == 6 {
                transport = Transport::TCPoverIP6;
            } else if transport == Transport::UDPoverIP6 && ip_ver == 4 {
                transport = Transport::UDPoverIP4;
            } else if transport == Transport::TCPoverIP6 && ip_ver == 4 {
                transport = Transport::TCPoverIP4;
            }
            let ns = NetworkSettings {
                pub_ip,
                pub_port,
                nat_type,
                port_allocation: (port_allocation_rule, delta_port),
                transport,
            };
            proof {
                let (v, k) = parse_ns(rest)->0;
                assert(ns.pub_ip@ =~= rest.subrange(1, n + 1));
                assert(ns@ == v);
                assert(rest.skip(k) =~= bytes@.skip(i + n + 7));
            }
            ns_vec.push(ns);
            i = i + n + 7;
        }
        ns_vec
    }

    /// The bytes of these settings, as `from` reads them.
    pub fn bytes(self) -> (r: Vec<u8>)
        ensures
            r@ == ns_bytes(self),
    {
        let mut bytes: Vec<u8> = Vec::with_capacity(32);
        match self.pub_ip {
            IpAddr::V4(ip4) => {
                bytes.push(4);
                let mut k: usize = 0;
                while k < 4
                    invariant
                        k <= 4,
                        bytes@ == seq![4u8] + ip4@.take(k as int),
                    decreases 4 - k,
                {
                    bytes.push(ip4[k]);
                    k = k + 1;
                    assert(bytes@ =~= seq![4u8] + ip4@.take(k as int));
                }
                assert(ip4@.take(4) =~= ip4@);
            },
            IpAddr::V6(ip6) => {
                bytes.push(6);
                let mut k: usize = 0;
                while k < 16
                    invariant
                        k <= 16,
                        bytes@ == seq![6u8] + ip6@.take(k as int),
                    decreases 16 - k,
                {
                    bytes.push(ip6[k]);
                    k = k + 1;
                    assert(bytes@ =~= seq![6u8] + ip6@.take(k as int));
                }
                assert(ip6@.take(16) =~= ip6@);
            },
        }
        bytes.push(self.nat_type.byte());
        put_u16(&mut bytes, self.pub_port);
        bytes.push(self.port_allocation.0.byte());
        bytes.push(self.port_allocation.1 as u8);
        bytes.push(self.transport.byte());
        assert(bytes@ =~= ns_bytes(self));
        bytes
    }

    /// Settings of a host that is reachable directly, with no NAT in between.
    pub fn new_not_natted(pub_ip: IpAddr, pub_port: u16, transport: Transport) -> (r: Self)
        ensures
            r == (NetworkSettings {
                pub_ip,
                pub_port,
                nat_type: Nat::NoNat,
                port_allocation: (PortAllocationRule::FullCone, 0),
                transport,
            }),
    {
        Self {
            pub_ip,
            pub_port,
            nat_type: Nat::NoNat,
            port_allocation: (PortAllocationRule::FullCone, 0),
            transport,
        }
    }

    /// 9 for an IPv4 address, 21 for an IPv6 one.
    pub fn len(&self) -> (r: usize)
        ensures
            r == if self.pub_ip is V4 { 9usize } else { 21usize },
    {
        if self.pub_ip.is_ipv4() {
            9
        } else {
            21
        }
    }

    /// Takes over address, port, NAT kind and port allocation of `other`; keeps the transport.
    pub fn update(&mut self, other: Self)
        ensures
            *final(self) == (NetworkSettings { transport: old(self).transport, ..other }),
    {
        self.pub_ip = other.pub_ip;
        self.pub_port = other.pub_port;
        self.nat_type = other.nat_type;
        self.port_allocation = other.port_allocation;
    }

    /// Sets the public port.
    pub fn set_port(&mut self, port: u16)
        ensures
            *final(self) == (NetworkSettings { pub_port: port, ..*old(self) }),
    {
        self.pub_port = port;
    }

    /// The port the NAT is expected to assign after `port`.
    pub fn port_increment(&self, port: u16) -> (r: u16)
        requires
            0 <= port + port_delta(*self) <= u16::MAX,
        ensures
            r == port + port_delta(*self),
    {
        match self.port_allocation {
            (PortAllocationRule::AddressSensitive, value)
            | (PortAllocationRule::PortSensitive, value) => {
                if value > 0 {
                    port + (value as u16)
                } else {
                    port - ((0i16 - value as i16) as u16)
                }
            },
            _ => port,
        }
    }

    /// The address and the port the NAT is expected to assign `iter + 1` steps
    /// after the public port.
    pub fn get_predicted_addr(&self, iter: u8) -> (r: (IpAddr, u16))
        requires
            0 <= self.pub_port + (iter + 1) * port_delta(*self) <= u16::MAX,
        ensures
            r == (self.pub_ip, (self.pub_port + (iter + 1) * port_delta(*self)) as u16),
    {
        let ghost d = port_delta(*self);
        let ghost total: int = iter + 1;
        proof {
            lemma_step_in_range(self.pub_port as int, d, 1, total);
        }
        let mut port = self.port_increment(self.pub_port);
        let mut left: u8 = iter;
        while left > 0
            invariant
                d == port_delta(*self),
                total == iter + 1,
                0 <= self.pub_port + total * d <= u16::MAX,
                left <= iter,
                port == self.pub_port + (total - left) * d,
            decreases left,
        {
            proof {
                lemma_step_in_range(self.pub_port as int, d, total - left + 1, total);
                assert((total - left) * d + d == (total - left + 1) * d) by (nonlinear_arith);
            }
            left = left - 1;
            port = self.port_increment(port);
        }
        (self.pub_ip, port)
    }

    /// Whether the public port has to be discovered again for every connection.
    pub fn refresh_required(&self) -> (r: bool)
        ensures
            r == (self.port_allocation.0 != PortAllocationRule::FullCone),
    {
        self.port_allocation.0 != PortAllocationRule::FullCone
    }

    /// Whether the NAT filters at most by address.
    pub fn nat_at_most_address_sensitive(&self) -> (r: bool)
        ensures
            r == (self.nat_type == Nat::NoNat || self.nat_type == Nat::FullCone || self.nat_type
                == Nat::AddressRestrictedCone),
    {
        self.nat_type == Nat::NoNat || self.nat_type == Nat::FullCone || self.nat_type
            == Nat::AddressRestrictedCone
    }

    /// Whether there is no NAT.
    pub fn no_nat(&self) -> (r: bool)
        ensures
            r == (self.nat_type == Nat::NoNat),
    {
        self.nat_type == Nat::NoNat
    }

    /// Whether the NAT is a port restricted cone.
    pub fn nat_port_restricted(&self) -> (r: bool)
        ensures
            r == (self.nat_type == Nat::PortRestrictedCone),
    {
        self.nat_type == Nat::PortRestrictedCone
    }

    /// Whether the NAT is symmetric.
    pub fn nat_symmetric(&self) -> (r: bool)
        ensures
            r == (self.nat_type == Nat::Symmetric),
    {
        self.nat_type == Nat::Symmetric
    }

    /// Whether the NAT is symmetric with the host in control of its ports.
    pub fn nat_symmetric_with_port_control(&self) -> (r: bool)
        ensures
            r == (self.nat_type == Nat::SymmetricWithPortControl),
    {
        self.nat_type == Nat::SymmetricWithPortControl
    }

    /// Whether the NAT kind is not known.
    pub fn nat_unknown(&self) -> (r: bool)
        ensures
            r == (self.nat_type == Nat::Unknown),
    {
        self.nat_type == Nat::Unknown
    }

    /// Whether the next public port can be predicted.
    pub fn port_allocation_predictable(&self) -> (r: bool)
        ensures
            r == (self.port_allocation.0 != PortAllocationRule::Random),
    {
        self.port_allocation.0 == PortAllocationRule::FullCone || self.port_allocation.0
            == PortAllocationRule::AddressSensitive || self.port_allocation.0
            == PortAllocationRule::PortSensitive
    }

    /// Whether ports are allocated per destination port.
    pub fn port_sensitive_allocation(&self) -> (r: bool)
        ensures
            r == (self.port_allocation.0 == PortAllocationRule::PortSensitive),
    {
        self.port_allocation.0 == PortAllocationRule::PortSensitive
    }
}

/// The settings a gnome starts from: unspecified IPv4 address, port 1026,
/// unknown NAT, random allocation, UDP over IPv4.
pub open spec fn default_settings() -> NetworkSettings {
    NetworkSettings {
        pub_ip: IpAddr::V4([0, 0, 0, 0]),
        pub_port: 1026,
        nat_type: Nat::Unknown,
        port_allocation: (PortAllocationRule::Random, 0),
        transport: Transport::UDPoverIP4,
    }
}

impl Default for NetworkSettings {
    fn default() -> (r: Self)
        ensures
            r == default_settings(),
    {
        NetworkSettings {
            pub_ip: IpAddr::V4([0, 0, 0, 0]),
            pub_port: 1026,
            nat_type: Nat::Unknown,
            port_allocation: (PortAllocationRule::Random, 0),
            transport: Transport::UDPoverIP4,
        }
    }
}

/// A step between the first and the last of a run of equal steps stays in range.
proof fn lemma_step_in_range(start: int, d: int, k: int, n: int)
    requires
        1 <= k <= n,
        0 <= start <= u16::MAX,
        0 <= start + n * d <= u16::MAX,
    ensures
        0 <= start + k * d <= u16::MAX,
{
    if d >= 0 {
        assert(0 <= k * d <= n * d) by (nonlinear_arith)
            requires
                1 <= k <= n,
                d >= 0,
        ;
    } else {
        assert(n * d <= k * d <= 0) by (nonlinear_arith)
            requires
                1 <= k <= n,
                d < 0,
        ;
    }
}

/// The settings at the start of some bytes are read back as written, with their length.
proof fn lemma_parse_ns_prefix(ns: NetworkSettings, rest: Seq<u8>)
    requires
        transport_agrees(ns),
    ensures
        parse_ns(ns_bytes(ns) + rest) == Some((ns@, ns_bytes(ns).len() as int)),
{
    let b = ns_bytes(ns) + rest;
    let n: int = if ns.pub_ip is V4 { 4 } else { 16 };
    let d = ns.port_allocation.1;
    assert((d as u8) as i8 == d) by (bit_vector);
    lemma_u16_roundtrip(ns.pub_port);
    assert(b.subrange(1, n + 1) =~= ns.pub_ip@);
    assert(b[n + 1] == nat_byte(ns.nat_type));
    assert(b[n + 4] == rule_byte(ns.port_allocation.0));
    assert(b[n + 6] == transport_byte(ns.transport));
}

/// Reading the bytes of a list of settings gives back the list, where each
/// transport agrees with the IP version of its address.
pub proof fn lemma_ns_list_roundtrip(list: Seq<NetworkSettings>)
    requires
        forall|i: int| 0 <= i < list.len() ==> transport_agrees(#[trigger] list[i]),
    ensures
        parse_ns_list(ns_list_bytes(list)) == Some(list.map_values(|n: NetworkSettings| n@)),
    decreases list.len(),
{
    if list.len() == 0 {
        assert(list.map_values(|n: NetworkSettings| n@) =~= seq![]);
    } else {
        let tail = list.skip(1);
        assert forall|i: int| 0 <= i < tail.len() implies transport_agrees(#[trigger] tail[i]) by {
            assert(tail[i] == list[i + 1]);
        }
        lemma_ns_list_roundtrip(tail);
        let b = ns_list_bytes(list);
        lemma_parse_ns_prefix(list[0], ns_list_bytes(tail));
        assert(b.skip(ns_bytes(list[0]).len() as int) =~= ns_list_bytes(tail));
        assert(list.map_values(|n: NetworkSettings| n@) =~= seq![list[0]@] + tail.map_values(
            |n: NetworkSettings| n@,
        ));
    }
}

} // verus!
