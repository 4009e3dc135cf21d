//! The decisions of a socket's service: how a datagram's first byte names the
//! swarm and the kind of message it carries, how an outgoing datagram is put
//! together, which swarm slot a new swarm gets, and how the send budget of
//! tokens is kept.
use vstd::prelude::*;
use crate::data_conversion::{
    decode_cast, decode_regular, decode_request, decode_response, message_bytes, message_roundtrips,
    message_to_bytes, message_writable, neighbor_request_to_bytes, neighbor_response_to_bytes,
    bytes_to_message, bytes_to_neighbor_request, bytes_to_neighbor_response, bytes_to_cast_message, copy_range,
    request_bytes, request_roundtrips, response_bytes, response_roundtrips,
    lemma_message_roundtrip, lemma_request_roundtrip, lemma_response_roundtrip,
};
use crate::messages::{CastMessage, CastMessageView, Message};
use crate::neighbor::NeighborRequestView;
use crate::neighbor::{NeighborRequest, NeighborResponse};

verus! {

/// How a message travels to many gnomes.
#[derive(Debug, Clone, Copy, PartialEq, Eq, Structural)]
pub enum CastKind {
    Unicast,
    Multicast,
    Broadcast,
}

/// What a received datagram carries.
#[derive(Debug, Clone, Copy, PartialEq, Eq, Structural)]
pub enum DgramKind {
    /// A regular swarm message.
    Regular,
    /// A unicast with cast id 255: a request from a neighbor.
    NeighborRequest,
    /// A unicast with cast id 254: a response from a neighbor.
    NeighborResponse,
    /// Any other cast.
    Cast,
}

/// The swarm id that a datagram's first byte names: its low six bits.
pub open spec fn dgram_swarm_id(header: u8) -> u8 {
    header % 64
}

/// The kind of datagram that a first byte (and, for a unicast, the cast id in
/// the second byte) stands for.
pub open spec fn dgram_kind(header: u8, cast_id: u8) -> DgramKind {
    if header / 64 == 0 {
        DgramKind::Regular
    } else if header / 64 == 1 && cast_id == 255 {
        DgramKind::NeighborRequest
    } else if header / 64 == 1 && cast_id == 254 {
        DgramKind::NeighborResponse
    } else {
        DgramKind::Cast
    }
}

/// The two high bits of the first byte for each kind of cast.
pub open spec fn cast_bits(kind: CastKind) -> u8 {
    match kind {
        CastKind::Unicast => 64,
        CastKind::Multicast => 128,
        CastKind::Broadcast => 192,
    }
}

/// Reads the first bytes of a deciphered datagram: the swarm id it is for and
/// what it carries.
pub fn classify_dgram(deciph: &[u8]) -> (r: (u8, DgramKind))
    requires
        deciph@.len() >= 1,
        deciph@[0] / 64 == 1 ==> deciph@.len() >= 2,
    ensures
        r.0 == dgram_swarm_id(deciph@[0]),
        r.1 == dgram_kind(deciph@[0], if deciph@[0] / 64 == 1 { deciph@[1] } else { 0 }),
{
    let dgram_header = deciph[0];
    let swarm_id = dgram_header & 0b00111111;
    assert(dgram_header & 0b00111111 == dgram_header % 64) by (bit_vector);
    assert(dgram_header & 0b11000000 == (dgram_header / 64) * 64) by (bit_vector);
    let kind = if dgram_header & 0b11000000 == 0 {
        DgramKind::Regular
    } else if dgram_header & 0b11000000 == 64 {
        let c_id = deciph[1];
        match c_id {
            255 => DgramKind::NeighborRequest,
            254 => DgramKind::NeighborResponse,
            _ => DgramKind::Cast,
        }
    } else {
        DgramKind::Cast
    };
    (swarm_id, kind)
}

/// The first byte of an outgoing cast for the swarm with local id `swarm_id`.
pub fn cast_dgram_header(swarm_id: u8, kind: CastKind) -> (r: u8)
    requires
        swarm_id < 64,
    ensures
        r == swarm_id + cast_bits(kind),
{
    swarm_id + match kind {
        CastKind::Unicast => 64,
        CastKind::Multicast => 128,
        CastKind::Broadcast => 192,
    }
}

/// The first byte of an outgoing cast names the swarm it came from and the kind
/// of cast it is: a unicast is read as a unicast, the other two as casts.
pub proof fn lemma_cast_header_roundtrip(swarm_id: u8, kind: CastKind, cast_id: u8)
    requires
        swarm_id < 64,
    ensures
        dgram_swarm_id((swarm_id + cast_bits(kind)) as u8) == swarm_id,
        kind != CastKind::Unicast ==> dgram_kind((swarm_id + cast_bits(kind)) as u8, cast_id)
            == DgramKind::Cast,
        kind == CastKind::Unicast ==> ((swarm_id + cast_bits(kind)) as u8) / 64 == 1,
{
}

/// A regular message's first byte is its swarm's id, and it is read as such.
pub proof fn lemma_regular_header_roundtrip(swarm_id: u8, cast_id: u8)
    requires
        swarm_id < 64,
    ensures
        dgram_swarm_id(swarm_id) == swarm_id,
        dgram_kind(swarm_id, cast_id) == DgramKind::Regular,
{
}

/// What a cast carries: raw data, a request to a neighbor, or a response from one.
pub enum CastContent {
    Data(Vec<u8>),
    Request(NeighborRequest),
    Response(NeighborResponse),
}

/// What a swarm hands its socket to send: nothing, a cast of a kind with a cast
/// id, or a regular message.
pub enum Outgoing {
    NoOp,
    Cast(CastKind, u8, CastContent),
    Regular(Message),
}

/// The bytes of what a cast carries.
pub open spec fn content_bytes(c: CastContent) -> Seq<u8> {
    match c {
        CastContent::Data(d) => d@,
        CastContent::Request(r) => request_bytes(r@),
        CastContent::Response(r) => response_bytes(r@),
    }
}

/// The datagram that carries `out` for the swarm with local id `swarm_id`:
/// nothing for no message; for a cast, its first byte, its cast id, then what it
/// carries; for a regular message, the swarm id, then the message.
pub open spec fn outgoing_bytes(swarm_id: u8, out: Outgoing) -> Seq<u8> {
    match out {
        Outgoing::NoOp => seq![],
        Outgoing::Cast(kind, id, content) => seq![(swarm_id + cast_bits(kind)) as u8, id] + content_bytes(content),
        Outgoing::Regular(m) => seq![swarm_id] + message_bytes(m@),
    }
}

/// Whether `out` can be sent for swarm `swarm_id`: a cast's swarm id leaves
/// room for the two kind bits, and a regular message can be written.
pub open spec fn outgoing_sendable(swarm_id: u8, out: Outgoing) -> bool {
    match out {
        Outgoing::NoOp => true,
        Outgoing::Cast(_, _, _) => swarm_id < 64,
        Outgoing::Regular(m) => message_writable(m@),
    }
}

/// Puts together the datagram that carries `out` for swarm `swarm_id`.
pub fn outgoing_dgram(swarm_id: u8, out: Outgoing) -> (r: Vec<u8>)
    requires
        outgoing_sendable(swarm_id, out),
    ensures
        r@ == outgoing_bytes(swarm_id, out),
{
    match out {
        Outgoing::NoOp => Vec::new(),
        Outgoing::Cast(kind, id, content) => {
            let mut merged: Vec<u8> = Vec::new();
            merged.push(cast_dgram_header(swarm_id, kind));
            merged.push(id);
            match content {
                CastContent::Data(data) => {
                    let mut k: usize = 0;
                    while k < data.len()
                        invariant
                            k <= data@.len(),
                            merged@ == seq![(swarm_id + cast_bits(kind)) as u8, id] + data@.take(k as int),
                        decreases data@.len() - k,
                    {
                        merged.push(data[k]);
                        k = k + 1;
                        assert(merged@ =~= seq![(swarm_id + cast_bits(kind)) as u8, id] + data@.take(k as int));
                    }
                    assert(data@.take(data@.len() as int) =~= data@);
                },
                CastContent::Request(req) => {
                    neighbor_request_to_bytes(req, &mut merged);
                },
                CastContent::Response(resp) => {
                    neighbor_response_to_bytes(resp, &mut merged);
                },
            }
            merged
        },
        Outgoing::Regular(message) => {
            let ghost m = message@;
            let bytes = message_to_bytes(message);
            let mut merged: Vec<u8> = Vec::new();
            merged.push(swarm_id);
            let mut k: usize = 0;
            while k < bytes.len()
                invariant
                    k <= bytes@.len(),
                    merged@ == seq![swarm_id] + bytes@.take(k as int),
                decreases bytes@.len() - k,
            {
                merged.push(bytes[k]);
                k = k + 1;
                assert(merged@ =~= seq![swarm_id] + bytes@.take(k as int));
            }
            assert(bytes@.take(bytes@.len() as int) =~= bytes@);
            merged
        },
    }
}

/// What the receiving socket makes of a datagram put together for swarm
/// `swarm_id`: it finds the swarm, tells the kind of message, and reads back
/// what was sent. A regular message comes back as it was where it can be read
/// back; a multicast or broadcast of data comes back as the same cast; a
/// unicast with cast id 255 carrying a request, or with cast id 254 carrying a
/// response, comes back as that request or response where it can be read back.
pub proof fn lemma_dgram_roundtrip(swarm_id: u8, out: Outgoing)
    requires
        swarm_id < 64,
        outgoing_sendable(swarm_id, out),
        out !is NoOp,
    ensures
        ({
            let b = outgoing_bytes(swarm_id, out);
            &&& dgram_swarm_id(b[0]) == swarm_id
            &&& match out {
                Outgoing::Regular(m) => message_roundtrips(m@) ==> dgram_kind(b[0], 0) == DgramKind::Regular
                    && decode_regular(b.skip(1)) == Some(m@),
                Outgoing::Cast(kind, id, CastContent::Data(d)) => kind != CastKind::Unicast ==> dgram_kind(b[0], id)
                    == DgramKind::Cast && decode_cast(b) == Some(CastMessageView { kind, id, data: d@ }),
                Outgoing::Cast(kind, id, CastContent::Request(req)) => kind == CastKind::Unicast && id == 255
                    && request_roundtrips(req@) ==> dgram_kind(b[0], b[1]) == DgramKind::NeighborRequest
                    && decode_request(b.skip(2)) == Some(req@),
                Outgoing::Cast(kind, id, CastContent::Response(resp)) => kind == CastKind::Unicast && id
                    == 254 && response_roundtrips(resp@) ==> dgram_kind(b[0], b[1])
                    == DgramKind::NeighborResponse && decode_response(b.skip(2)) == Some(resp@),
                Outgoing::NoOp => true,
            }
        }),
{
    let b = outgoing_bytes(swarm_id, out);
    match out {
        Outgoing::Regular(m) => {
            assert(b.skip(1) =~= message_bytes(m@));
            if message_roundtrips(m@) {
                lemma_message_roundtrip(m@);
            }
        },
        Outgoing::Cast(kind, id, content) => {
            lemma_cast_header_roundtrip(swarm_id, kind, id);
            match content {
                CastContent::Data(d) => {
                    assert(b.skip(2) =~= d@);
                    assert(b[0] / 64 == cast_bits(kind) / 64);
                },
                CastContent::Request(req) => {
                    assert(b.skip(2) =~= request_bytes(req@));
                    if request_roundtrips(req@) {
                        lemma_request_roundtrip(req@);
                    }
                },
                CastContent::Response(resp) => {
                    assert(b.skip(2) =~= response_bytes(resp@));
                    if response_roundtrips(resp@) {
                        lemma_response_roundtrip(resp@);
                    }
                },
            }
        },
        Outgoing::NoOp => {},
    }
}

/// The slot a newly joined swarm gets on a socket: the lowest of the 64 swarm ids
/// not yet taken, or `None` where all are taken.
pub fn first_free_swarm_slot(taken: &Vec<u8>) -> (r: Option<u8>)
    ensures
        r matches Some(i) ==> i < 64 && !taken@.contains(i) && forall|j: u8| j < i ==> taken@.contains(j),
        r is None ==> forall|i: u8| i < 64 ==> taken@.contains(i),
{
    let mut i: u8 = 0;
    while i < 64
        invariant
            i <= 64,
            forall|j: u8| j < i ==> taken@.contains(j),
        decreases 64 - i,
    {
        let mut found = false;
        let mut k: usize = 0;
        while k < taken.len()
            invariant
                k <= taken@.len(),
                found ==> taken@.contains(i),
                !found ==> forall|m: int| 0 <= m < k ==> taken@[m] != i,
            decreases taken@.len() - k,
        {
            if taken[k] == i {
                found = true;
            }
            k = k + 1;
        }
        if !found {
            return Some(i);
        }
        i = i + 1;
    }
    None
}

/// The fewest tokens a socket wants to hold before it asks for more.
pub const MIN_TOKENS_THRESHOLD: u64 = 128;

/// The tokens a socket's service may still spend on sending.
pub struct SendBudget {
    pub available: u64,
}

impl SendBudget {
    /// A budget that starts at the threshold.
    pub fn new() -> (r: Self)
        ensures
            r.available == MIN_TOKENS_THRESHOLD,
    {
        SendBudget { available: MIN_TOKENS_THRESHOLD }
    }

    /// A provision of `count` tokens arrived: gives how many tokens were left
    /// unused, to be reported, and starts over with `count`.
    pub fn on_provision(&mut self, count: u64) -> (unused: u64)
        ensures
            unused == old(self).available,
            final(self).available == count,
    {
        let unused = self.available;
        self.available = count;
        unused
    }

    /// Whether more tokens are to be asked for, and how many: twice the threshold.
    pub fn shortfall_request(&self) -> (r: Option<u64>)
        ensures
            self.available < MIN_TOKENS_THRESHOLD ==> r == Some(256u64),
            self.available >= MIN_TOKENS_THRESHOLD ==> r is None,
    {
        if self.available < MIN_TOKENS_THRESHOLD {
            Some(2 * MIN_TOKENS_THRESHOLD)
        } else {
            None
        }
    }

    /// The tokens that sending `ciphered_len` ciphered bytes costs: the bytes and
    /// 43 for the headers around them.
    pub fn cost(ciphered_len: usize) -> (r: u64)
        requires
            ciphered_len as int + 43 <= u64::MAX,
        ensures
            r == ciphered_len + 43,
    {
        43 + ciphered_len as u64
    }

    /// Spends `len` tokens where the budget holds them; tells whether it did.
    pub fn try_spend(&mut self, len: u64) -> (r: bool)
        ensures
            r == (len <= old(self).available),
            r ==> final(self).available == old(self).available - len,
            !r ==> final(self).available == old(self).available,
    {
        if len <= self.available {
            self.available = self.available - len;
            true
        } else {
            false
        }
    }

    /// After waiting for `amount` more tokens, spends `len` of them, or all there
    /// are where they do not reach.
    pub fn spend_after_provision(&mut self, amount: u64, len: u64)
        requires
            old(self).available + amount <= u64::MAX,
        ensures
            final(self).available == if len > old(self).available + amount {
                0
            } else {
                old(self).available + amount - len
            },
    {
        self.available = self.available + amount;
        self.available = if len > self.available {
            0
        } else {
            self.available - len
        };
    }
}

/// What the UDP service does with a ciphered datagram.
pub enum UdpStep {
    /// Nothing was handed over: nothing is sent.
    Skip,
    /// Send these bytes.
    Send(Vec<u8>),
    /// Ask the dispenser for this many tokens and come back with what it gives.
    AskTokens(u64),
}

/// What a UDP service does with a datagram handed over to it, once ciphered as
/// `ciphered` (where `plain_len`, the length of what was handed over, is 0,
/// nothing is sent). First (`provision` is `None`): where the budget holds the
/// cost, it is spent and the datagram sent; else twice the cost is asked for and
/// the budget kept. After a provision of `amount` tokens arrives: they are
/// added, the cost is spent, or all there are where they do not reach, and the
/// datagram is sent.
pub fn udp_on_outgoing(budget: &mut SendBudget, plain_len: usize, ciphered: &[u8], provision: Option<u64>) -> (r: UdpStep)
    requires
        2 * (ciphered@.len() + 43) <= u64::MAX,
        provision matches Some(amount) ==> old(budget).available + amount <= u64::MAX,
    ensures
        ({
            let cost = ciphered@.len() + 43;
            if plain_len == 0 {
                r is Skip && final(budget).available == old(budget).available
            } else {
                match provision {
                    None => if cost <= old(budget).available {
                        r matches UdpStep::Send(b) && b@ == ciphered@ && final(budget).available
                            == old(budget).available - cost
                    } else {
                        r matches UdpStep::AskTokens(n) && n == 2 * cost && final(budget).available
                            == old(budget).available
                    },
                    Some(amount) => r matches UdpStep::Send(b) && b@ == ciphered@
                        && final(budget).available == if cost > old(budget).available + amount {
                        0
                    } else {
                        old(budget).available + amount - cost
                    },
                }
            }
        }),
{
    if plain_len == 0 {
        return UdpStep::Skip;
    }
    let cost = SendBudget::cost(ciphered.len());
    let mut out: Vec<u8> = Vec::new();
    let mut k: usize = 0;
    while k < ciphered.len()
        invariant
            k <= ciphered@.len(),
            out@ == ciphered@.take(k as int),
        decreases ciphered@.len() - k,
    {
        out.push(ciphered[k]);
        k = k + 1;
        assert(out@ =~= ciphered@.take(k as int));
    }
    assert(ciphered@.take(ciphered@.len() as int) =~= ciphered@);
    match provision {
        None => {
            if budget.try_spend(cost) {
                UdpStep::Send(out)
            } else {
                UdpStep::AskTokens(2 * cost)
            }
        },
        Some(amount) => {
            budget.spend_after_provision(amount, cost);
            UdpStep::Send(out)
        },
    }
}

/// What a socket does with a deciphered datagram.
pub enum Incoming {
    /// A regular message for the swarm with this id.
    Regular(u8, Message),
    /// A request from the neighbor, for the swarm with this id.
    Request(u8, NeighborRequest),
    /// A response from the neighbor, for the swarm with this id.
    Response(u8, NeighborResponse),
    /// A cast for the swarm with this id.
    Cast(u8, CastMessage),
    /// On a channel not in use yet: a request to create a neighbor, with the
    /// remote gnome's id and the swarm's name in bytes.
    NewNeighbor(u64, Vec<u8>),
    /// On a channel not in use yet: any other request, which is dropped.
    Ignored,
}

/// Whether a deciphered datagram `d` can be read, on a socket whose channels in
/// use are `known`: it holds two bytes at least, and what its first byte says it
/// carries can be read from the rest. On a channel not in use, what follows the
/// first two bytes is a request.
pub open spec fn incoming_readable(known: Seq<u8>, d: Seq<u8>) -> bool {
    &&& d.len() >= 2
    &&& if known.contains(dgram_swarm_id(d[0])) {
        match dgram_kind(d[0], d[1]) {
            DgramKind::Regular => decode_regular(d.skip(1)) is Some,
            DgramKind::NeighborRequest => decode_request(d.skip(2)) is Some,
            DgramKind::NeighborResponse => decode_response(d.skip(2)) is Some,
            DgramKind::Cast => true,
        }
    } else {
        decode_request(d.skip(2)) is Some
    }
}

/// What a socket does with the deciphered datagram `d`, where its channels in
/// use are `known`: on a channel in use, it hands the regular message, request,
/// response or cast the datagram holds to that channel's swarm; on another
/// channel, it creates a neighbor where the datagram asks for one, and drops it
/// otherwise.
pub fn on_incoming_dgram(known: &Vec<u8>, d: &[u8]) -> (r: Incoming)
    requires
        incoming_readable(known@, d@),
    ensures
        ({
            let id = dgram_swarm_id(d@[0]);
            if known@.contains(id) {
                match dgram_kind(d@[0], d@[1]) {
                    DgramKind::Regular => r matches Incoming::Regular(i, m) && i == id && decode_regular(d@.skip(1))
                        == Some(m@),
                    DgramKind::NeighborRequest => r matches Incoming::Request(i, q) && i == id && decode_request(
                        d@.skip(2),
                    ) == Some(q@),
                    DgramKind::NeighborResponse => r matches Incoming::Response(i, q) && i == id
                        && decode_response(d@.skip(2)) == Some(q@),
                    DgramKind::Cast => r matches Incoming::Cast(i, c) && i == id && decode_cast(d@) == Some(c@),
                }
            } else {
                match decode_request(d@.skip(2)) {
                    Some(NeighborRequestView::CreateNeighbor(g, name)) => r matches Incoming::NewNeighbor(
                        rg,
                        rn,
                    ) && rg == g && rn@ == name,
                    _ => r is Ignored,
                }
            }
        }),
{
    let (id, kind) = classify_dgram(d);
    let mut known_id = false;
    let mut k: usize = 0;
    while k < known.len()
        invariant
            k <= known@.len(),
            known_id == known@.take(k as int).contains(id),
        decreases known@.len() - k,
    {
        assert(known@.take(k as int + 1) =~= known@.take(k as int).push(known@[k as int]));
        proof {
            crate::manager::lemma_push_contains(known@.take(k as int), known@[k as int], id);
        }
        if known[k] == id {
            known_id = true;
        }
        k = k + 1;
    }
    assert(known@.take(known@.len() as int) =~= known@);
    assert(d@.subrange(1, d@.len() as int) =~= d@.skip(1));
    assert(d@.subrange(2, d@.len() as int) =~= d@.skip(2));
    if known_id {
        match kind {
            DgramKind::Regular => {
                let rest = copy_range(d, 1, d.len());
                match bytes_to_message(rest) {
                    Ok(m) => Incoming::Regular(id, m),
                    Err(_) => Incoming::Ignored,
                }
            },
            DgramKind::NeighborRequest => Incoming::Request(id, bytes_to_neighbor_request(copy_range(d, 2, d.len()))),
            DgramKind::NeighborResponse => Incoming::Response(id, bytes_to_neighbor_response(copy_range(d, 2, d.len()))),
            DgramKind::Cast => {
                assert(d@[0] / 64 != 0);
                match bytes_to_cast_message(d) {
                    Ok(c) => Incoming::Cast(id, c),
                    Err(_) => Incoming::Ignored,
                }
            },
        }
    } else {
        match bytes_to_neighbor_request(copy_range(d, 2, d.len())) {
            NeighborRequest::CreateNeighbor(g, name) => Incoming::NewNeighbor(g, name),
            _ => Incoming::Ignored,
        }
    }
}

} // verus!
