//! The subscriber's bookkeeping: the names of the swarms this gnome is in, what
//! becomes of a neighbor that asks to be included in a swarm, and what the gnome
//! manager is told when a transport comes or goes.
use vstd::prelude::*;
use crate::networking::common::{names_view, GnomeId, SwarmName, SwarmNameView, ANY_FOUNDER};
use crate::networking::status::Transport;
use crate::networking::{IpAddr, Nat, PortAllocationRule};

verus! {

/// The service that asks for the list of swarm names.
#[derive(Copy, Clone, Debug, PartialEq, Eq, Hash, Structural)]
pub enum Requestor {
    Udp,
    Tcp,
    Udpv6,
    Tcpv6,
}

/// A name after a founder was set: a name with any founder gets `founder`.
pub open spec fn with_founder(n: SwarmNameView, founder: u64) -> SwarmNameView {
    if n.founder == ANY_FOUNDER {
        SwarmNameView { founder, name: n.name }
    } else {
        n
    }
}

/// Gives every name with any founder the founder `founder`.
pub fn set_founder(names: &mut Vec<SwarmName>, founder: GnomeId)
    ensures
        names_view(final(names)@) == names_view(old(names)@).map_values(
            |n: SwarmNameView| with_founder(n, founder.0),
        ),
{
    let ghost start = names_view(names@);
    let mut i: usize = 0;
    while i < names.len()
        invariant
            i <= names@.len(),
            start.len() == names@.len(),
            forall|k: int| 0 <= k < i ==> names@[k]@ == with_founder(start[k], founder.0),
            forall|k: int| i <= k < names@.len() ==> names@[k]@ == start[k],
        decreases names@.len() - i,
    {
        if names[i].founder.is_any() {
            let renamed = SwarmName { founder, name: names[i].name.clone() };
            names.set(i, renamed);
        }
        i = i + 1;
    }
    assert(names_view(names@) =~= start.map_values(|n: SwarmNameView| with_founder(n, founder.0)));
}

/// Takes the first occurrence of `name` out of `names`, where there is one.
pub fn remove_name(names: &mut Vec<SwarmName>, name: &SwarmName)
    ensures
        !names_view(old(names)@).contains(name@) ==> names_view(final(names)@) == names_view(old(names)@),
        names_view(old(names)@).contains(name@) ==> exists|i: int|
            0 <= i < old(names)@.len() && old(names)@[i]@ == name@ && (forall|j: int| 0 <= j < i ==> old(names)@[j]@ != name@)
                && names_view(final(names)@) == names_view(old(names)@).remove(i),
{
    let ghost start = names_view(names@);
    let ghost old_names = names@;
    let mut i: usize = 0;
    while i < names.len()
        invariant
            i <= names@.len(),
            names@ == old_names,
            old_names == old(names)@,
            start == names_view(names@),
            forall|j: int| 0 <= j < i ==> names@[j]@ != name@,
        decreases names@.len() - i,
    {
        if names[i].same_as(name) {
            assert(start[i as int] == name@);
            assert(start.contains(name@));
            names.remove(i);
            assert(names_view(names@) =~= start.remove(i as int));
            assert(old_names[i as int]@ == name@ && (forall|j: int| 0 <= j < i ==> old_names[j]@ != name@)
                && names_view(names@) == start.remove(i as int));
            return;
        }
        i = i + 1;
    }
    assert forall|k: int| 0 <= k < start.len() implies start[k] != name@ by {
        assert(start[k] == names@[k]@);
    }
}

/// Appends `name` to `names` where it is not there yet.
pub fn add_name(names: &mut Vec<SwarmName>, name: &SwarmName)
    ensures
        names_view(old(names)@).contains(name@) ==> names_view(final(names)@) == names_view(old(names)@),
        !names_view(old(names)@).contains(name@) ==> names_view(final(names)@) == names_view(old(names)@).push(name@),
{
    let ghost start = names_view(names@);
    let mut i: usize = 0;
    while i < names.len()
        invariant
            i <= names@.len(),
            start == names_view(names@),
            forall|j: int| 0 <= j < i ==> names@[j]@ != name@,
        decreases names@.len() - i,
    {
        if names[i].same_as(name) {
            assert(start[i as int] == name@);
            return;
        }
        i = i + 1;
    }
    assert forall|k: int| 0 <= k < start.len() implies start[k] != name@ by {
        assert(start[k] == names@[k]@);
    }
    names.push(name.duplicate());
    assert(names_view(names@) =~= start.push(name@));
}

/// What becomes of a neighbor that asks to be included in a swarm.
#[derive(Debug, Clone, Copy, PartialEq, Eq, Structural)]
pub enum IncludeAction {
    /// The swarm is known: the neighbor is handed to it.
    Forward,
    /// The only swarm known is generic: it takes the asked swarm's founder and
    /// name, and the neighbor is handed to it.
    AdoptGeneric,
    /// The swarm is not known.
    Drop,
}

/// Decides what becomes of a neighbor that asks to be included in `swarm`, given
/// the names of the swarms known.
pub fn include_neighbor_action(known: &Vec<SwarmName>, swarm: &SwarmName) -> (r: IncludeAction)
    ensures
        names_view(known@).contains(swarm@) ==> r == IncludeAction::Forward,
        !names_view(known@).contains(swarm@) && known@.len() == 1 && known@[0].founder.0
            == ANY_FOUNDER ==> r == IncludeAction::AdoptGeneric,
        !names_view(known@).contains(swarm@) && !(known@.len() == 1 && known@[0].founder.0
            == ANY_FOUNDER) ==> r == IncludeAction::Drop,
{
    let mut i: usize = 0;
    while i < known.len()
        invariant
            i <= known@.len(),
            forall|j: int| 0 <= j < i ==> known@[j]@ != swarm@,
        decreases known@.len() - i,
    {
        if known[i].same_as(swarm) {
            assert(names_view(known@)[i as int] == swarm@);
            return IncludeAction::Forward;
        }
        i = i + 1;
    }
    assert forall|k: int| 0 <= k < names_view(known@).len() implies names_view(known@)[k]
        != swarm@ by {
        assert(names_view(known@)[k] == known@[k]@);
    }
    if known.len() == 1 && known[0].founder.is_any() {
        IncludeAction::AdoptGeneric
    } else {
        IncludeAction::Drop
    }
}

/// The public address the gnome manager is told of when a transport comes or
/// goes: the unspecified address of the requestor's IP version, port 1 where the
/// transport is available and 0 where it is not, unknown NAT, random allocation,
/// and the requestor's transport.
pub fn transport_report(req: Requestor, available: bool) -> (r: (
    IpAddr,
    u16,
    Nat,
    (PortAllocationRule, i8),
    Transport,
))
    ensures
        r.0 is V4 <==> (req == Requestor::Udp || req == Requestor::Tcp),
        r.0@ == Seq::new(r.0@.len(), |i: int| 0u8),
        r.1 == if available {
            1u16
        } else {
            0u16
        },
        r.2 == Nat::Unknown,
        r.3 == (PortAllocationRule::Random, 0i8),
        r.4 == if req == Requestor::Udp || req == Requestor::Udpv6 {
            Transport::Udp
        } else {
            Transport::Tcp
        },
{
    let (ip, tr) = match req {
        Requestor::Udp => (IpAddr::V4([0u8; 4]), Transport::Udp),
        Requestor::Tcp => (IpAddr::V4([0u8; 4]), Transport::Tcp),
        Requestor::Udpv6 => (IpAddr::V6([0u8; 16]), Transport::Udp),
        Requestor::Tcpv6 => (IpAddr::V6([0u8; 16]), Transport::Tcp),
    };
    let port: u16 = if available {
        1
    } else {
        0
    };
    assert(ip@ =~= Seq::new(ip@.len(), |i: int| 0u8));
    (ip, port, Nat::Unknown, (PortAllocationRule::Random, 0), tr)
}

} // verus!
