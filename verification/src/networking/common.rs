//! What two gnomes settle when they meet: which swarms they share, how swarm
//! names are packed into a datagram and split out of one, and what the answers
//! of a STUN server say about the NAT and its port allocation.
use vstd::prelude::*;
use crate::networking::{default_settings, Nat, NetworkSettings, PortAllocationRule, SocketAddr};

verus! {

/// The id of a gnome.
#[derive(Debug, Clone, Copy, PartialEq, Eq, Structural)]
pub struct GnomeId(pub u64);

/// The gnome id that stands for any founder.
pub const ANY_FOUNDER: u64 = 0;

impl GnomeId {
    /// The id that stands for any founder.
    pub fn any() -> (r: Self)
        ensures
            r.0 == ANY_FOUNDER,
    {
        GnomeId(ANY_FOUNDER)
    }

    /// Whether this id stands for any founder.
    pub fn is_any(&self) -> (r: bool)
        ensures
            r == (self.0 == ANY_FOUNDER),
    {
        self.0 == ANY_FOUNDER
    }
}

/// The name of a swarm: its founder and the name the founder gave it.
#[derive(Debug)]
pub struct SwarmName {
    pub founder: GnomeId,
    pub name: String,
}

/// What a `SwarmName` holds.
pub struct SwarmNameView {
    pub founder: u64,
    pub name: Seq<char>,
}

impl View for SwarmName {
    type V = SwarmNameView;

    open spec fn view(&self) -> SwarmNameView {
        SwarmNameView { founder: self.founder.0, name: self.name@ }
    }
}

impl SwarmName {
    /// A copy of this name.
    pub fn duplicate(&self) -> (r: Self)
        ensures
            r@ == self@,
    {
        SwarmName { founder: self.founder, name: self.name.clone() }
    }

    /// Whether two names are the same: same founder, same name.
    pub fn same_as(&self, other: &SwarmName) -> (r: bool)
        ensures
            r == (self@ == other@),
    {
        self.founder.0 == other.founder.0 && self.name == other.name
    }
}

/// The views of a list of names.
pub open spec fn names_view(names: Seq<SwarmName>) -> Seq<SwarmNameView> {
    names.map_values(|n: SwarmName| n@)
}

/// The root swarm's name: any founder, named "/".
pub open spec fn root_name() -> SwarmNameView {
    SwarmNameView { founder: ANY_FOUNDER, name: seq!['/'] }
}

/// The names a gnome goes by when it meets another: its own, or the root swarm's
/// where it has none.
pub open spec fn effective_names(my: Seq<SwarmNameView>) -> Seq<SwarmNameView> {
    if my.len() == 0 {
        seq![root_name()]
    } else {
        my
    }
}

/// The names of `remote` that `mine` holds too, in the order of `remote`.
pub open spec fn shared_names(remote: Seq<SwarmNameView>, mine: Seq<SwarmNameView>) -> Seq<
    SwarmNameView,
>
    decreases remote.len(),
{
    if remote.len() == 0 {
        seq![]
    } else {
        let rest = shared_names(remote.drop_last(), mine);
        if mine.contains(remote.last()) {
            rest.push(remote.last())
        } else {
            rest
        }
    }
}

/// Whether `names` is a single name with any founder.
pub open spec fn only_generic(names: Seq<SwarmNameView>) -> bool {
    names.len() == 1 && names[0].founder == ANY_FOUNDER
}

/// The names two gnomes find they share, and the neighbor's names as they stand
/// afterwards. Where the neighbor has only a generic name it joins ours: the
/// founder is the greater id where both are generic, else us. Where only we are
/// generic, our name is taken as the neighbor's. Else the shared names are the
/// neighbor's names that we have too, in the neighbor's order.
pub open spec fn distil(
    my_id: u64,
    nb_id: u64,
    my: Seq<SwarmNameView>,
    remote: Seq<SwarmNameView>,
) -> (Seq<SwarmNameView>, Seq<SwarmNameView>) {
    let mine = effective_names(my);
    if only_generic(remote) {
        let founder = if only_generic(mine) {
            if my_id > nb_id {
                my_id
            } else {
                nb_id
            }
        } else {
            my_id
        };
        (
            seq![SwarmNameView { founder, name: mine[0].name }],
            remote.update(0, SwarmNameView { founder, name: remote[0].name }),
        )
    } else if only_generic(mine) {
        (seq![SwarmNameView { founder: nb_id, name: mine[0].name }], remote)
    } else {
        (shared_names(remote, mine), remote)
    }
}

/// Whether `names` holds `name`.
fn holds_name(names: &Vec<SwarmName>, name: &SwarmName) -> (r: bool)
    ensures
        r == names_view(names@).contains(name@),
{
    let mut i: usize = 0;
    while i < names.len()
        invariant
            i <= names@.len(),
            forall|k: int| 0 <= k < i ==> names@[k]@ != name@,
        decreases names@.len() - i,
    {
        if names[i].same_as(name) {
            assert(names_view(names@)[i as int] == name@);
            return true;
        }
        i = i + 1;
    }
    assert forall|k: int| 0 <= k < names_view(names@).len() implies names_view(names@)[k]
        != name@ by {
        assert(names_view(names@)[k] == names@[k]@);
    }
    false
}

/// Settles which swarms we share with a neighbor: appends them to
/// `common_names`, and where the neighbor named only a generic swarm, gives it
/// the founder we settled on.
pub fn distil_common_names(
    my_id: GnomeId,
    nb_id: GnomeId,
    common_names: &mut Vec<SwarmName>,
    my_names: Vec<SwarmName>,
    remote_names: &mut Vec<SwarmName>,
)
    ensures
        names_view(final(common_names)@) == names_view(old(common_names)@) + distil(
            my_id.0,
            nb_id.0,
            names_view(my_names@),
            names_view(old(remote_names)@),
        ).0,
        names_view(final(remote_names)@) == distil(
            my_id.0,
            nb_id.0,
            names_view(my_names@),
            names_view(old(remote_names)@),
        ).1,
{
    let ghost old_common = names_view(common_names@);
    let ghost remote0 = names_view(remote_names@);
    let ghost given = names_view(my_names@);
    let ghost d = distil(my_id.0, nb_id.0, given, remote0);
    let mut my_names = my_names;
    if my_names.len() == 0 {
        let root = "/";
        proof {
            reveal_strlit("/");
        }
        let root_name_string = root.to_owned();
        assert(root_name_string@ =~= seq!['/']);
        my_names.push(SwarmName { founder: GnomeId::any(), name: root_name_string });
        assert(names_view(my_names@)[0] == root_name());
    }
    let ghost mine = names_view(my_names@);
    assert(mine =~= effective_names(given));
    if remote_names.len() == 1 && remote_names[0].founder.is_any() {
        let founder = if my_names.len() == 1 && my_names[0].founder.is_any() {
            if my_id.0 > nb_id.0 {
                my_id
            } else {
                nb_id
            }
        } else {
            my_id
        };
        let shared = SwarmName { founder, name: my_names[0].name.clone() };
        common_names.push(shared);
        let renamed = SwarmName { founder, name: remote_names[0].name.clone() };
        remote_names.set(0, renamed);
        assert(names_view(common_names@) =~= old_common + d.0);
        assert(names_view(remote_names@) =~= d.1);
    } else if my_names.len() == 1 && my_names[0].founder.is_any() {
        let shared = SwarmName { founder: nb_id, name: my_names[0].name.clone() };
        common_names.push(shared);
        assert(names_view(common_names@) =~= old_common + d.0);
        assert(names_view(remote_names@) =~= d.1);
    } else {
        let mut i: usize = 0;
        while i < remote_names.len()
            invariant
                i <= remote_names@.len(),
                names_view(remote_names@) == remote0,
                mine == names_view(my_names@),
                names_view(common_names@) == old_common + shared_names(remote0.take(i as int), mine),
            decreases remote_names@.len() - i,
        {
            assert(remote0.take(i as int + 1).drop_last() =~= remote0.take(i as int));
            assert(remote0[i as int] == remote_names@[i as int]@);
            let ghost before = names_view(common_names@);
            if holds_name(&my_names, &remote_names[i]) {
                common_names.push(remote_names[i].duplicate());
                assert(names_view(common_names@) =~= before.push(remote0[i as int]));
            }
            assert(names_view(common_names@) =~= old_common + shared_names(
                remote0.take(i as int + 1),
                mine,
            ));
            i = i + 1;
        }
        assert(remote0.take(i as int) =~= remote0);
    }
}

/// Two gnomes that both know only the root swarm settle on the same founder for
/// it, whichever of them settles: the greater of their ids.
pub proof fn lemma_generic_founder_agreed(
    a: u64,
    b: u64,
    name_a: Seq<char>,
    name_b: Seq<char>,
)
    ensures
        ({
            let mine_a = seq![SwarmNameView { founder: ANY_FOUNDER, name: name_a }];
            let mine_b = seq![SwarmNameView { founder: ANY_FOUNDER, name: name_b }];
            &&& distil(a, b, mine_a, mine_b).0[0].founder == distil(b, a, mine_b, mine_a).0[0].founder
            &&& distil(a, b, mine_a, mine_b).0[0].founder == if a > b { a } else { b }
        }),
{
}

/// The names a gnome shares with a neighbor that named several swarms are names
/// it has itself.
pub proof fn lemma_shared_names_are_mine(remote: Seq<SwarmNameView>, mine: Seq<SwarmNameView>, n: SwarmNameView)
    requires
        shared_names(remote, mine).contains(n),
    ensures
        mine.contains(n),
        remote.contains(n),
    decreases remote.len(),
{
    let rest = shared_names(remote.drop_last(), mine);
    if remote.len() > 0 {
        if mine.contains(remote.last()) && n == remote.last() {
            assert(remote[remote.len() - 1] == n);
        } else {
            if mine.contains(remote.last()) {
                let k = choose|k: int| 0 <= k < rest.push(remote.last()).len() && rest.push(remote.last())[k] == n;
                assert(rest[k] == n);
            }
            lemma_shared_names_are_mine(remote.drop_last(), mine, n);
            let k = choose|k: int| 0 <= k < remote.drop_last().len() && remote.drop_last()[k] == n;
            assert(remote[k] == n);
        }
    }
}

/// The names packed into one datagram: names are taken in order while the bytes
/// taken so far, `size`, and the next name stay below `limit`; the first name
/// that does not fit ends the packing.
pub open spec fn packed_names(names: Seq<Seq<u8>>, limit: int, size: int) -> Seq<u8>
    decreases names.len(),
{
    if names.len() == 0 {
        seq![]
    } else if size + names[0].len() < limit {
        names[0] + packed_names(names.drop_first(), limit, size + names[0].len())
    } else {
        seq![]
    }
}

/// Packs the encoded swarm names into at most `limit` bytes, for one datagram.
pub fn swarm_names_as_bytes(names: &Vec<Vec<u8>>, limit: usize) -> (r: Vec<u8>)
    ensures
        r@ == packed_names(names@.map_values(|n: Vec<u8>| n@), limit as int, 0),
{
    let ghost all = names@.map_values(|n: Vec<u8>| n@);
    let mut buf: Vec<u8> = Vec::with_capacity(limit);
    let mut buf_size: usize = 0;
    let mut i: usize = 0;
    assert(all.skip(0) =~= all);
    while i < names.len()
        invariant
            i <= names@.len(),
            all == names@.map_values(|n: Vec<u8>| n@),
            buf@.len() == buf_size,
            buf_size == 0 || buf_size < limit,
            buf@ + packed_names(all.skip(i as int), limit as int, buf_size as int) == packed_names(
                all,
                limit as int,
                0,
            ),
        decreases names@.len() - i,
    {
        let name_bytes = &names[i];
        assert(all.skip(i as int)[0] == name_bytes@);
        assert(all.skip(i as int).drop_first() =~= all.skip(i as int + 1));
        if buf_size < limit && name_bytes.len() < limit - buf_size {
            let mut k: usize = 0;
            let ghost start = buf@;
            while k < name_bytes.len()
                invariant
                    k <= name_bytes@.len(),
                    buf@ == start + name_bytes@.take(k as int),
                decreases name_bytes@.len() - k,
            {
                buf.push(name_bytes[k]);
                k = k + 1;
                assert(buf@ =~= start + name_bytes@.take(k as int));
            }
            assert(name_bytes@.take(k as int) =~= name_bytes@);
            buf_size = buf_size + name_bytes.len();
            assert(start + (name_bytes@ + packed_names(all.skip(i as int + 1), limit as int, buf_size as int))
                =~= buf@ + packed_names(all.skip(i as int + 1), limit as int, buf_size as int));
        } else {
            assert(packed_names(all.skip(i as int), limit as int, buf_size as int) =~= seq![]);
            assert(buf@ + seq![] =~= buf@);
            return buf;
        }
        i = i + 1;
    }
    assert(all.skip(i as int) =~= seq![]);
    assert(buf@ + seq![] =~= buf@);
    buf
}

/// The length of the encoded swarm name that starts with byte `b`: a byte below
/// 128 is a name's length, followed by the name; from 128 on, the chunk is
/// `b - 127` bytes long, the byte included.
pub open spec fn name_chunk_len(b: u8) -> int {
    if b < 128 {
        b + 1
    } else {
        b - 127
    }
}

/// Where the encoded swarm names in `buf` lie, from offset `i` on, as
/// (start, end) pairs; `None` where a name runs past the end of `buf`.
pub open spec fn name_chunks(buf: Seq<u8>, i: int) -> Option<Seq<(int, int)>>
    decreases buf.len() - i,
{
    if i >= buf.len() || i < 0 {
        Some(seq![])
    } else {
        let end = i + name_chunk_len(buf[i]);
        if end > buf.len() {
            None
        } else {
            match name_chunks(buf, end) {
                None => None,
                Some(rest) => Some(seq![(i, end)] + rest),
            }
        }
    }
}

/// Splits a received datagram of swarm names into the (start, end) offsets of
/// the encoded names it holds.
pub fn swarm_name_chunks(recv_buf: &[u8]) -> (r: Vec<(usize, usize)>)
    requires
        name_chunks(recv_buf@, 0) is Some,
    ensures
        r@.len() == name_chunks(recv_buf@, 0)->0.len(),
        forall|k: int|
            0 <= k < r@.len() ==> r@[k].0 == name_chunks(recv_buf@, 0)->0[k].0 && r@[k].1
                == name_chunks(recv_buf@, 0)->0[k].1,
{
    let ghost b = recv_buf@;
    let ghost all = name_chunks(b, 0)->0;
    let count = recv_buf.len();
    let mut chunks: Vec<(usize, usize)> = Vec::new();
    let mut i: usize = 0;
    while i < count
        invariant
            b == recv_buf@,
            count == b.len(),
            i <= count,
            name_chunks(b, i as int) is Some,
            all == name_chunks(b, 0)->0,
            all.len() == chunks@.len() + name_chunks(b, i as int)->0.len(),
            forall|k: int|
                0 <= k < chunks@.len() ==> chunks@[k].0 == all[k].0 && chunks@[k].1 == all[k].1,
            forall|k: int|
                0 <= k < name_chunks(b, i as int)->0.len() ==> name_chunks(b, i as int)->0[k]
                    == all[chunks@.len() + k],
        decreases count - i,
    {
        let name_len = recv_buf[i];
        let end = if name_len < 128 {
            i + name_len as usize + 1
        } else {
            i + (name_len - 127) as usize
        };
        let ghost rest = name_chunks(b, end as int)->0;
        assert(name_chunks(b, i as int)->0 == seq![(i as int, end as int)] + rest);
        assert(name_chunks(b, i as int)->0[0] == all[chunks@.len() as int]);
        chunks.push((i, end));
        assert forall|k: int| 0 <= k < rest.len() implies rest[k] == all[chunks@.len() + k] by {
            assert(rest[k] == name_chunks(b, i as int)->0[k + 1]);
        }
        i = end;
    }
    chunks
}

/// The NAT kind that the answers to two change requests show: an answer to the
/// request to change address and port means a full cone; else an answer to the
/// request to change the port means an address restricted cone; no answer at all
/// means a symmetric NAT, with port control where we have it.
pub open spec fn nat_from_answers(
    first_id: (u64, u64),
    second_id: (u64, u64),
    answers: Seq<(u64, u64)>,
    have_port_control: bool,
) -> Nat {
    if answers.len() == 0 {
        if have_port_control {
            Nat::SymmetricWithPortControl
        } else {
            Nat::Symmetric
        }
    } else if answers.contains(first_id) {
        Nat::FullCone
    } else if answers.contains(second_id) {
        Nat::AddressRestrictedCone
    } else {
        Nat::Unknown
    }
}

/// Any answer to the change-address-and-port request, wherever it came among
/// the answers, shows a full cone.
pub proof fn lemma_answer_to_first_request_is_full_cone(
    first_id: (u64, u64),
    second_id: (u64, u64),
    answers: Seq<(u64, u64)>,
    have_port_control: bool,
)
    requires
        answers.contains(first_id),
    ensures
        nat_from_answers(first_id, second_id, answers, have_port_control) == Nat::FullCone,
{
}

/// Answers to the change-port request, and none to the change-address-and-port
/// request, show an address restricted cone, wherever they came among the
/// answers.
pub proof fn lemma_answer_to_second_request_alone_is_address_restricted(
    first_id: (u64, u64),
    second_id: (u64, u64),
    answers: Seq<(u64, u64)>,
    have_port_control: bool,
)
    requires
        !answers.contains(first_id),
        answers.contains(second_id),
    ensures
        nat_from_answers(first_id, second_id, answers, have_port_control) == Nat::AddressRestrictedCone,
{
}

/// The NAT kind depends on which answers came, not on their order or how often
/// each came: two lists of answers that hold the same ids give the same kind.
pub proof fn lemma_nat_ignores_answer_order(
    first_id: (u64, u64),
    second_id: (u64, u64),
    a: Seq<(u64, u64)>,
    b: Seq<(u64, u64)>,
    have_port_control: bool,
)
    requires
        forall|x: (u64, u64)| a.contains(x) <==> b.contains(x),
    ensures
        nat_from_answers(first_id, second_id, a, have_port_control) == nat_from_answers(first_id, second_id, b, have_port_control),
{
    if a.len() == 0 && b.len() > 0 {
        assert(b.contains(b[0]));
    }
    if b.len() == 0 && a.len() > 0 {
        assert(a.contains(a[0]));
    }
}

/// Tells the NAT kind from the transaction ids of the STUN answers received to
/// the change-address-and-port request (`first_id`) and the change-port request
/// (`second_id`).
pub fn nat_from_responses(
    first_id: (u64, u64),
    second_id: (u64, u64),
    response_ids: &Vec<(u64, u64)>,
    have_port_control: bool,
) -> (r: Nat)
    ensures
        r == nat_from_answers(first_id, second_id, response_ids@, have_port_control),
        response_ids@.contains(first_id) ==> r == Nat::FullCone,
        !response_ids@.contains(first_id) && response_ids@.contains(second_id) ==> r == Nat::AddressRestrictedCone,
        response_ids@.len() == 0 ==> r == (if have_port_control { Nat::SymmetricWithPortControl } else { Nat::Symmetric }),
{
    proof {
        if response_ids@.contains(first_id) {
            lemma_answer_to_first_request_is_full_cone(first_id, second_id, response_ids@, have_port_control);
        } else if response_ids@.contains(second_id) {
            lemma_answer_to_second_request_alone_is_address_restricted(first_id, second_id, response_ids@, have_port_control);
        }
    }
    if response_ids.len() == 0 {
        if have_port_control {
            Nat::SymmetricWithPortControl
        } else {
            Nat::Symmetric
        }
    } else {
        let mut first_response_received = false;
        let mut second_response_received = false;
        let mut i: usize = 0;
        while i < response_ids.len()
            invariant
                i <= response_ids@.len(),
                first_response_received <==> exists|k: int| 0 <= k < i && response_ids@[k] == first_id,
                second_response_received ==> exists|k: int| 0 <= k < i && response_ids@[k] == second_id,
                (exists|k: int| 0 <= k < i && response_ids@[k] == second_id && response_ids@[k] != first_id) ==> second_response_received,
            decreases response_ids@.len() - i,
        {
            let id = response_ids[i];
            if id.0 == first_id.0 && id.1 == first_id.1 {
                first_response_received = true;
            } else if id.0 == second_id.0 && id.1 == second_id.1 {
                second_response_received = true;
            }
            i = i + 1;
        }
        if first_response_received {
            Nat::FullCone
        } else if second_response_received {
            Nat::AddressRestrictedCone
        } else {
            Nat::Unknown
        }
    }
}

/// Whether the four mapped ports can be told apart as the port allocation
/// discovery does it without running below zero: a step it takes between two
/// ports does not go down.
pub open spec fn ports_comparable(p1: u16, p2: u16, p3: u16, p4: u16) -> bool {
    if p1 == p2 && p3 == p4 {
        p1 == p3 || p2 <= p3
    } else {
        p1 <= p2 && p2 <= p3 && p3 <= p4
    }
}

/// The port allocation rule and port step that four mapped ports show: the
/// first two from one server address at two ports, the last two from another.
/// Equal pairs with equal ports: full cone. Equal pairs otherwise: address
/// sensitive, stepping by the change between the pairs. Else port sensitive,
/// stepping by the smallest of the three steps; a step is kept in 8 bits.
pub open spec fn rule_from_ports(p1: u16, p2: u16, p3: u16, p4: u16) -> (PortAllocationRule, i8) {
    if p1 == p2 && p3 == p4 {
        if p1 == p3 {
            (PortAllocationRule::FullCone, 0)
        } else {
            (PortAllocationRule::AddressSensitive, (p3 - p2) as i8)
        }
    } else {
        let d1 = p2 - p1;
        let d2 = p3 - p2;
        let d3 = p4 - p3;
        let m = if d1 <= d2 { d1 } else { d2 };
        let m = if m <= d3 { m } else { d3 };
        (PortAllocationRule::PortSensitive, m as i8)
    }
}

/// Tells the port allocation rule from four mapped ports.
pub fn port_allocation_from_ports(p1: u16, p2: u16, p3: u16, p4: u16) -> (r: (PortAllocationRule, i8))
    requires
        ports_comparable(p1, p2, p3, p4),
    ensures
        r == rule_from_ports(p1, p2, p3, p4),
{
    let p1_and_p2_eq = p1 == p2;
    let p3_and_p4_eq = p3 == p4;
    if p1_and_p2_eq && p3_and_p4_eq {
        if p1 == p3 {
            (PortAllocationRule::FullCone, 0)
        } else {
            (PortAllocationRule::AddressSensitive, (p3 - p2) as i8)
        }
    } else {
        let d1 = p2 - p1;
        let d2 = p3 - p2;
        let d3 = p4 - p3;
        let m = if d1 <= d2 { d1 } else { d2 };
        let m = if m <= d3 { m } else { d3 };
        (PortAllocationRule::PortSensitive, m as i8)
    }
}

/// Tells the port allocation rule from what the four probes brought back: for
/// the first, whether an answer came and the port it mapped, if it named one;
/// for the others, the mapped port where an answer came. The discovery stops at
/// the first probe that brings nothing back.
pub fn rule_from_probes(
    first: Option<Option<u16>>,
    second: Option<u16>,
    third: Option<u16>,
    fourth: Option<u16>,
) -> (r: (PortAllocationRule, i8))
    requires
        first matches Some(Some(p1)) ==> (second matches Some(p2) ==> (third matches Some(p3) ==> (
        fourth matches Some(p4) ==> ports_comparable(p1, p2, p3, p4)))),
    ensures
        first is None ==> r == (PortAllocationRule::Random, 0i8),
        first == Some(None::<u16>) ==> r == (PortAllocationRule::Random, 1i8),
        (first is Some && first->0 is Some && second is None) ==> r == (PortAllocationRule::PortSensitive, 0i8),
        (first is Some && first->0 is Some && second is Some && third is None) ==> r == (
            PortAllocationRule::AddressSensitive,
            0i8,
        ),
        (first is Some && first->0 is Some && second is Some && third is Some && fourth is None) ==> r == (
            PortAllocationRule::AddressSensitive,
            0i8,
        ),
        first matches Some(Some(p1)) ==> (second matches Some(p2) ==> (third matches Some(p3) ==> (
        fourth matches Some(p4) ==> r == rule_from_ports(p1, p2, p3, p4)))),
{
    match first {
        None => (PortAllocationRule::Random, 0),
        Some(None) => (PortAllocationRule::Random, 1),
        Some(Some(port_1)) => match second {
            None => (PortAllocationRule::PortSensitive, 0),
            Some(port_2) => match third {
                None => (PortAllocationRule::AddressSensitive, 0),
                Some(port_3) => match fourth {
                    None => (PortAllocationRule::AddressSensitive, 0),
                    Some(port_4) => port_allocation_from_ports(port_1, port_2, port_3, port_4),
                },
            },
        },
    }
}

/// The settings a gnome finds for itself: where the STUN server answered with
/// our public address, that address; then, behind a NAT, the NAT kind and port
/// allocation that were found, and with no NAT, none and full cone allocation.
/// Where the server did not answer, the defaults.
pub fn settings_from_discovery(
    public: Option<(bool, SocketAddr)>,
    nat_type: Nat,
    port_allocation: (PortAllocationRule, i8),
) -> (r: NetworkSettings)
    ensures
        public is None ==> r == default_settings(),
        public matches Some((is_nat, addr)) ==> {
            &&& r.pub_ip == addr.ip
            &&& r.pub_port == addr.port
            &&& r.nat_type == if is_nat { nat_type } else { Nat::NoNat }
            &&& r.port_allocation == if is_nat {
                port_allocation
            } else {
                (PortAllocationRule::FullCone, 0i8)
            }
            &&& r.transport == default_settings().transport
        },
{
    let mut my_settings = NetworkSettings::default();
    if let Some((is_there_nat, public_addr)) = public {
        my_settings.pub_ip = public_addr.ip();
        my_settings.pub_port = public_addr.port();
        if is_there_nat {
            my_settings.nat_type = nat_type;
            my_settings.port_allocation = port_allocation;
        } else {
            my_settings.nat_type = Nat::NoNat;
            my_settings.port_allocation = (PortAllocationRule::FullCone, 0);
        }
    }
    my_settings
}

} // verus!
