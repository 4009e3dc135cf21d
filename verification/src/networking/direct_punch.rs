//! The decisions of direct punching: how to reach a neighbor given both sides'
//! NAT kinds, and the settings we announce of ourselves after asking a STUN
//! server.
use vstd::prelude::*;
use crate::neighbor::SwarmNetworkSettings;
use crate::networking::holepunch::allocation_step;
use crate::networking::{IpAddr, Nat, PortAllocationRule, SocketAddr};

verus! {

/// How to reach a neighbor.
#[derive(Debug, Clone, Copy, PartialEq, Eq, Structural)]
pub enum PunchStrategy {
    /// The neighbor sits behind no NAT: connect to it as a client.
    Connect,
    /// Punch through from one socket.
    Punch,
    /// Punch through from one socket; where that fails, from 50 sockets on
    /// consecutive ports from `my_port_min` on, walking the neighbor's ports
    /// from `his_port_min` to `his_port_max` by `his_step`.
    PunchThenCluster { my_port_min: u16, his_port_min: u16, his_step: u16, his_port_max: u16 },
    /// No way through is known.
    GiveUp,
}

/// Whether a NAT filters at most by address.
pub open spec fn at_most_address_sensitive(n: Nat) -> bool {
    n == Nat::NoNat || n == Nat::FullCone || n == Nat::AddressRestrictedCone
}

/// Whether the neighbor's NAT is one that a cluster is tried against: ours lets
/// us control our ports, theirs is symmetric or not known.
pub open spec fn cluster_case(mine: SwarmNetworkSettings, other: SwarmNetworkSettings) -> bool {
    &&& other.nat_type != Nat::NoNat
    &&& !at_most_address_sensitive(mine.nat_type)
    &&& !at_most_address_sensitive(other.nat_type)
    &&& mine.nat_type == Nat::SymmetricWithPortControl
    &&& (other.nat_type == Nat::Symmetric || other.nat_type == Nat::Unknown)
}

/// The size of the neighbor's port step, whatever its rule.
pub open spec fn step_size(other: SwarmNetworkSettings) -> int {
    if other.port_allocation.1 < 0 {
        -(other.port_allocation.1 as int)
    } else {
        other.port_allocation.1 as int
    }
}

/// How to reach a neighbor with settings `other` from our settings `mine`.
pub open spec fn punch_strategy_spec(mine: SwarmNetworkSettings, other: SwarmNetworkSettings) -> PunchStrategy {
    if other.nat_type == Nat::NoNat {
        PunchStrategy::Connect
    } else if at_most_address_sensitive(mine.nat_type) || at_most_address_sensitive(other.nat_type) {
        PunchStrategy::Punch
    } else if mine.nat_type == Nat::PortRestrictedCone && (other.nat_type
        == Nat::SymmetricWithPortControl || other.nat_type == Nat::Symmetric || other.nat_type
        == Nat::Unknown) {
        PunchStrategy::Punch
    } else if cluster_case(mine, other) {
        PunchStrategy::PunchThenCluster {
            my_port_min: mine.pub_port,
            his_port_min: (other.pub_port + allocation_step(other)) as u16,
            his_step: step_size(other) as u16,
            his_port_max: (other.pub_port + 51 * allocation_step(other)) as u16,
        }
    } else {
        PunchStrategy::GiveUp
    }
}

/// Where the neighbor is behind a NAT and either side's NAT filters at most by
/// address (no NAT, a full cone or an address restricted cone), one punch gets
/// through.
pub proof fn lemma_open_nat_on_either_side_punches(mine: SwarmNetworkSettings, other: SwarmNetworkSettings)
    requires
        other.nat_type != Nat::NoNat,
        mine.nat_type == Nat::NoNat || mine.nat_type == Nat::FullCone || mine.nat_type == Nat::AddressRestrictedCone
            || other.nat_type == Nat::FullCone || other.nat_type == Nat::AddressRestrictedCone,
    ensures
        punch_strategy_spec(mine, other) == PunchStrategy::Punch,
{
}

/// Between two gnomes both behind a NAT, where either NAT filters at most by
/// address, each side punches, whichever of them is the one that asks.
pub proof fn lemma_open_nat_punch_is_symmetric(a: SwarmNetworkSettings, b: SwarmNetworkSettings)
    requires
        a.nat_type != Nat::NoNat,
        b.nat_type != Nat::NoNat,
        a.nat_type == Nat::FullCone || a.nat_type == Nat::AddressRestrictedCone || b.nat_type == Nat::FullCone
            || b.nat_type == Nat::AddressRestrictedCone,
    ensures
        punch_strategy_spec(a, b) == PunchStrategy::Punch,
        punch_strategy_spec(b, a) == PunchStrategy::Punch,
        punch_strategy_spec(a, b) == punch_strategy_spec(b, a),
{
    lemma_open_nat_on_either_side_punches(a, b);
    lemma_open_nat_on_either_side_punches(b, a);
}

/// Chooses how to reach a neighbor with settings `other` from our settings
/// `mine`.
pub fn punch_strategy(mine: &SwarmNetworkSettings, other: &SwarmNetworkSettings) -> (r: PunchStrategy)
    requires
        cluster_case(*mine, *other) ==> 0 <= other.pub_port + allocation_step(*other) <= u16::MAX
            && 0 <= other.pub_port + 51 * allocation_step(*other) <= u16::MAX,
    ensures
        r == punch_strategy_spec(*mine, *other),
        other.nat_type != Nat::NoNat && (mine.nat_type == Nat::NoNat || mine.nat_type == Nat::FullCone
            || mine.nat_type == Nat::AddressRestrictedCone || other.nat_type == Nat::FullCone
            || other.nat_type == Nat::AddressRestrictedCone) ==> r == PunchStrategy::Punch,
        other.nat_type == Nat::NoNat ==> r == PunchStrategy::Connect,
{
    proof {
        if other.nat_type != Nat::NoNat && (mine.nat_type == Nat::NoNat || mine.nat_type == Nat::FullCone
            || mine.nat_type == Nat::AddressRestrictedCone || other.nat_type == Nat::FullCone
            || other.nat_type == Nat::AddressRestrictedCone) {
            lemma_open_nat_on_either_side_punches(*mine, *other);
        }
    }
    let m = mine.nat_type;
    let o = other.nat_type;
    let m_open = m == Nat::NoNat || m == Nat::FullCone || m == Nat::AddressRestrictedCone;
    let o_open = o == Nat::NoNat || o == Nat::FullCone || o == Nat::AddressRestrictedCone;
    if o == Nat::NoNat {
        PunchStrategy::Connect
    } else if m_open || o_open {
        PunchStrategy::Punch
    } else if m == Nat::PortRestrictedCone && (o == Nat::SymmetricWithPortControl || o
        == Nat::Symmetric || o == Nat::Unknown) {
        PunchStrategy::Punch
    } else if m == Nat::SymmetricWithPortControl && (o == Nat::Symmetric || o == Nat::Unknown) {
        let step: i8 = match other.port_allocation.0 {
            PortAllocationRule::AddressSensitive | PortAllocationRule::PortSensitive => {
                other.port_allocation.1
            },
            _ => 0,
        };
        let port = other.pub_port;
        let (his_port_min, his_port_max) = if step >= 0 {
            let s = step as u16;
            (port + s, port + 51 * s)
        } else {
            let s = (0i16 - step as i16) as u16;
            (port - s, port - 51 * s)
        };
        let raw = other.port_allocation.1;
        let his_step: u16 = if raw < 0 {
            (0i16 - raw as i16) as u16
        } else {
            raw as u16
        };
        PunchStrategy::PunchThenCluster {
            my_port_min: mine.pub_port,
            his_port_min,
            his_step,
            his_port_max,
        }
    } else {
        PunchStrategy::GiveUp
    }
}

/// The NAT kind a STUN answer tells of: none where our address is the public
/// one, a symmetric NAT we control the ports of where the NAT kept our port,
/// else not known.
pub open spec fn stun_nat(behind_nat: bool, port_kept: bool) -> Nat {
    if !behind_nat {
        Nat::NoNat
    } else if port_kept {
        Nat::SymmetricWithPortControl
    } else {
        Nat::Unknown
    }
}

/// The IPv6 settings we announce after asking a STUN server over IPv6: the
/// address it saw, with the NAT kind its answer tells of, or, where there was no
/// answer, the unspecified address with port 0 and an unknown NAT. Ports are
/// taken as they come.
pub fn ipv6_settings(answer: Option<(bool, bool, SocketAddr)>) -> (r: SwarmNetworkSettings)
    ensures
        answer matches Some((behind_nat, port_kept, addr)) ==> r == (SwarmNetworkSettings {
            pub_ip: addr.ip,
            pub_port: addr.port,
            nat_type: stun_nat(behind_nat, port_kept),
            port_allocation: (PortAllocationRule::FullCone, 0),
        }),
        answer is None ==> r.pub_ip is V6 && r.pub_ip.octets() == Seq::new(16, |i: int| 0u8)
            && r.pub_port == 0 && r.nat_type == Nat::Unknown && r.port_allocation == (
            PortAllocationRule::FullCone,
            0i8,
        ),
{
    match answer {
        Some((behind_nat, port_kept, addr)) => {
            let nat_type = if !behind_nat {
                Nat::NoNat
            } else if port_kept {
                Nat::SymmetricWithPortControl
            } else {
                Nat::Unknown
            };
            SwarmNetworkSettings {
                pub_ip: addr.ip,
                pub_port: addr.port,
                nat_type,
                port_allocation: (PortAllocationRule::FullCone, 0),
            }
        },
        None => {
            let zeros: [u8; 16] = [0; 16];
            assert(zeros@ =~= Seq::new(16, |i: int| 0u8));
            SwarmNetworkSettings {
            pub_ip: IpAddr::V6(zeros),
            pub_port: 0,
            nat_type: Nat::Unknown,
            port_allocation: (PortAllocationRule::FullCone, 0),
            }
        },
    }
}

/// Our settings after asking a STUN server again: the address and port it saw
/// where it answered, the rest kept; all kept where it did not.
pub fn refreshed_settings(mine: SwarmNetworkSettings, seen: Option<SocketAddr>) -> (r: SwarmNetworkSettings)
    ensures
        seen matches Some(addr) ==> r == (SwarmNetworkSettings { pub_ip: addr.ip, pub_port: addr.port, ..mine }),
        seen is None ==> r == mine,
{
    match seen {
        Some(addr) => SwarmNetworkSettings { pub_ip: addr.ip, pub_port: addr.port, ..mine },
        None => mine,
    }
}

/// Whether our settings are passed to the swarm that asked for them: not where
/// the port is 0, which tells that we could not learn it.
pub fn settings_worth_sending(mine: &SwarmNetworkSettings) -> (r: bool)
    ensures
        r == (mine.pub_port != 0),
{
    mine.pub_port != 0
}

} // verus!
