//! How encrypted messages travel over a TCP stream: each one behind two bytes
//! that give its length, big end first. A read from the stream may end inside a
//! message; what was read of it waits for the next read. And which channel a
//! swarm gets on a stream when it is added later.
use vstd::prelude::*;
use crate::data_conversion::{as_u16_be, be16, put_u16, u16_bytes};
use crate::networking::common::{SwarmName, SwarmNameView};
use crate::networking::sock::{first_free_swarm_slot, SendBudget};

verus! {

/// What is left of a message cut short by the end of a read: how many bytes
/// are still missing, and the bytes read so far.
pub type Pending = Option<(nat, Seq<u8>)>;

/// The messages framed in `b` from offset `i` on, and what is left of a message
/// cut short at the end; `None` where a length is cut in half.
pub open spec fn frames_from(b: Seq<u8>, i: int) -> Option<(Seq<Seq<u8>>, Pending)>
    decreases b.len() - i,
{
    if i < 0 || i >= b.len() {
        Some((seq![], None))
    } else if i + 1 == b.len() {
        None
    } else {
        let size = be16(b[i], b[i + 1]);
        if b.len() - i - 2 < size {
            Some((seq![], Some(((size - (b.len() - i - 2)) as nat, b.subrange(i + 2, b.len() as int)))))
        } else {
            match frames_from(b, i + 2 + size) {
                None => None,
                Some((msgs, rest)) => Some((seq![b.subrange(i + 2, i + 2 + size)] + msgs, rest)),
            }
        }
    }
}

/// The messages a read of `b` completes, given what was left of a message by
/// the read before, and what is left of a message after it; `None` where a
/// length is cut in half.
pub open spec fn deframe(pending: Pending, b: Seq<u8>) -> Option<(Seq<Seq<u8>>, Pending)> {
    match pending {
        None => frames_from(b, 0),
        Some((missing, partial)) => if b.len() < missing {
            Some((seq![], Some(((missing - b.len()) as nat, partial + b))))
        } else {
            match frames_from(b, missing as int) {
                None => None,
                Some((msgs, rest)) => Some((seq![partial + b.take(missing as int)] + msgs, rest)),
            }
        },
    }
}

/// A message as it is written to the stream: its length in two bytes, big end
/// first, then its bytes. A length past 16 bits keeps its low 16 bits.
pub open spec fn framed(m: Seq<u8>) -> Seq<u8> {
    u16_bytes((m.len() % 0x10000) as u16) + m
}

/// Writes a message as it goes to the stream.
pub fn frame_message(ciphered: &[u8]) -> (r: Vec<u8>)
    ensures
        r@ == framed(ciphered@),
{
    let size: u16 = (ciphered.len() % 0x10000) as u16;
    let mut total: Vec<u8> = Vec::new();
    put_u16(&mut total, size);
    let mut i: usize = 0;
    while i < ciphered.len()
        invariant
            i <= ciphered@.len(),
            total@ == u16_bytes(size) + ciphered@.take(i as int),
        decreases ciphered@.len() - i,
    {
        total.push(ciphered[i]);
        i = i + 1;
        assert(total@ =~= u16_bytes(size) + ciphered@.take(i as int));
    }
    assert(ciphered@.take(ciphered@.len() as int) =~= ciphered@);
    total
}

/// The tokens that sending `ciphered_len` bytes over TCP costs: the bytes and 45
/// for the headers around them.
pub fn tcp_send_cost(ciphered_len: usize) -> (r: u64)
    requires
        ciphered_len as int + 45 <= u64::MAX,
    ensures
        r == ciphered_len + 45,
{
    45 + ciphered_len as u64
}

/// The views of a list of messages.
pub open spec fn messages_view(v: Seq<Vec<u8>>) -> Seq<Seq<u8>> {
    v.map_values(|m: Vec<u8>| m@)
}

/// Collects the messages of a TCP stream across reads.
pub struct Deframer {
    pub pending: Option<(usize, Vec<u8>)>,
}

impl View for Deframer {
    type V = Pending;

    open spec fn view(&self) -> Pending {
        match self.pending {
            None => None,
            Some((missing, partial)) => Some((missing as nat, partial@)),
        }
    }
}

/// Copies `b[from..to]` to the end of `out`.
fn copy_into(out: &mut Vec<u8>, b: &[u8], from: usize, to: usize)
    requires
        from <= to <= b@.len(),
    ensures
        final(out)@ == old(out)@ + b@.subrange(from as int, to as int),
{
    let mut k = from;
    while k < to
        invariant
            from <= k <= to,
            to <= b@.len(),
            out@ == old(out)@ + b@.subrange(from as int, k as int),
        decreases to - k,
    {
        out.push(b[k]);
        k = k + 1;
        assert(out@ =~= old(out)@ + b@.subrange(from as int, k as int));
    }
}

impl Deframer {
    /// A deframer with nothing left over.
    pub fn new() -> (r: Self)
        ensures
            r@ is None,
    {
        Deframer { pending: None }
    }

    /// Takes the bytes of one read: gives the messages it completes, in order,
    /// and keeps what is left of a message cut short.
    pub fn take_messages(&mut self, bytes: &[u8]) -> (r: Vec<Vec<u8>>)
        requires
            deframe(old(self)@, bytes@) is Some,
        ensures
            deframe(old(self)@, bytes@) == Some((messages_view(r@), final(self)@)),
    {
        let ghost b = bytes@;
        let n = bytes.len();
        let mut messages: Vec<Vec<u8>> = Vec::new();
        let mut idx: usize = 0;
        match self.pending.take() {
            None => {},
            Some((missing, partial)) => {
                let mut partial = partial;
                if n < missing {
                    copy_into(&mut partial, bytes, 0, n);
                    assert(b.subrange(0, n as int) =~= b);
                    self.pending = Some((missing - n, partial));
                    assert(messages_view(messages@) =~= seq![]);
                    return messages;
                }
                copy_into(&mut partial, bytes, 0, missing);
                assert(b.subrange(0, missing as int) =~= b.take(missing as int));
                messages.push(partial);
                idx = missing;
            },
        }
        let ghost first = messages_view(messages@);
        proof {
            assert(first.len() <= 1);
        }
        while idx < n
            invariant
                b == bytes@,
                n == b.len(),
                idx <= n,
                self.pending is None,
                frames_from(b, idx as int) is Some,
                match deframe(old(self)@, b) {
                    Some((all, rest)) => match frames_from(b, idx as int) {
                        Some((tail, rest2)) => all == messages_view(messages@) + tail && rest == rest2,
                        None => false,
                    },
                    None => false,
                },
            decreases n - idx,
        {
            let size = as_u16_be(&[bytes[idx], bytes[idx + 1]]) as usize;
            if n - idx - 2 < size {
                let mut partial: Vec<u8> = Vec::new();
                copy_into(&mut partial, bytes, idx + 2, n);
                assert(partial@ =~= b.subrange(idx + 2, n as int));
                self.pending = Some((size - (n - idx - 2), partial));
                assert(messages_view(messages@) + seq![] =~= messages_view(messages@));
                return messages;
            }
            let mut m: Vec<u8> = Vec::new();
            copy_into(&mut m, bytes, idx + 2, idx + 2 + size);
            assert(m@ =~= b.subrange(idx + 2, idx + 2 + size));
            let ghost before = messages_view(messages@);
            messages.push(m);
            assert(messages_view(messages@) =~= before.push(m@));
            let ghost tail = frames_from(b, idx + 2 + size).unwrap().0;
            assert(before + (seq![m@] + tail) =~= before.push(m@) + tail);
            idx = idx + 2 + size;
        }
        assert(messages_view(messages@) + seq![] =~= messages_view(messages@));
        messages
    }
}

/// What a reader makes of one framed message followed by more bytes: the
/// message, then what it makes of the rest.
pub proof fn lemma_frame_then_rest(m: Seq<u8>, rest: Seq<u8>)
    requires
        m.len() <= 0xffff,
    ensures
        frames_from(framed(m) + rest, 0) == match frames_from(rest, 0) {
            None => None,
            Some((msgs, left)) => Some((seq![m] + msgs, left)),
        },
{
    let b = framed(m) + rest;
    let v = (m.len() % 0x10000) as u16;
    assert(be16(b[0], b[1]) == m.len()) by {
        crate::data_conversion::lemma_u16_roundtrip(v);
    }
    assert(b.subrange(2, 2 + m.len() as int) =~= m);
    lemma_frames_shift(u16_bytes(v) + m, rest, 0);
    assert(u16_bytes(v) + m + rest =~= b);
}

/// Reading bytes after a prefix of length `p.len()` is reading them alone.
proof fn lemma_frames_shift(p: Seq<u8>, rest: Seq<u8>, i: int)
    requires
        0 <= i,
    ensures
        frames_from(p + rest, p.len() + i) == frames_from(rest, i),
    decreases rest.len() - i,
{
    let b = p + rest;
    let j = p.len() + i;
    if i >= rest.len() {
    } else if i + 1 == rest.len() {
    } else {
        assert(b[j] == rest[i] && b[j + 1] == rest[i + 1]);
        let size = be16(rest[i], rest[i + 1]);
        if rest.len() - i - 2 < size {
            assert(b.subrange(j + 2, b.len() as int) =~= rest.subrange(i + 2, rest.len() as int));
        } else {
            assert(b.subrange(j + 2, j + 2 + size) =~= rest.subrange(i + 2, i + 2 + size));
            lemma_frames_shift(p, rest, i + 2 + size);
        }
    }
}

/// A stream read in two pieces, `b1` then `b2`, gives the messages it gives when
/// read at once, in the same order, and leaves the same part of a message over.
pub proof fn lemma_reads_in_pieces(b1: Seq<u8>, b2: Seq<u8>)
    requires
        deframe(None, b1) is Some,
        deframe(deframe(None, b1).unwrap().1, b2) is Some,
    ensures
        deframe(None, b1 + b2) == Some((
            deframe(None, b1).unwrap().0 + deframe(deframe(None, b1).unwrap().1, b2).unwrap().0,
            deframe(deframe(None, b1).unwrap().1, b2).unwrap().1,
        )),
{
    lemma_split_read(b1, b2, 0);
}

/// Reading `b1 + b2` from offset `i` of `b1` on: what is read of `b1`, then what
/// the rest makes of `b2`.
proof fn lemma_split_read(b1: Seq<u8>, b2: Seq<u8>, i: int)
    requires
        0 <= i <= b1.len(),
        frames_from(b1, i) is Some,
        deframe(frames_from(b1, i).unwrap().1, b2) is Some,
    ensures
        frames_from(b1 + b2, i) == Some((
            frames_from(b1, i).unwrap().0 + deframe(frames_from(b1, i).unwrap().1, b2).unwrap().0,
            deframe(frames_from(b1, i).unwrap().1, b2).unwrap().1,
        )),
    decreases b1.len() - i,
{
    let b = b1 + b2;
    if i == b1.len() {
        lemma_frames_shift(b1, b2, 0);
        let second = frames_from(b2, 0).unwrap();
        assert(seq![] + second.0 =~= second.0);
    } else {
        assert(b[i] == b1[i] && b[i + 1] == b1[i + 1]);
        let size = be16(b1[i], b1[i + 1]);
        if b1.len() - i - 2 < size {
            let missing = (size - (b1.len() - i - 2)) as nat;
            let partial = b1.subrange(i + 2, b1.len() as int);
            if b2.len() < missing {
                assert(b.subrange(i + 2, b.len() as int) =~= partial + b2);
                assert(seq![] + seq![] =~= Seq::<Seq<u8>>::empty());
            } else {
                assert(b.subrange(i + 2, i + 2 + size) =~= partial + b2.take(missing as int));
                lemma_frames_shift(b1, b2, missing as int);
                let second = frames_from(b2, missing as int).unwrap();
                assert(seq![] + (seq![partial + b2.take(missing as int)] + second.0) =~= seq![
                    partial + b2.take(missing as int),
                ] + second.0);
            }
        } else {
            let m = b1.subrange(i + 2, i + 2 + size);
            assert(b.subrange(i + 2, i + 2 + size) =~= m);
            lemma_split_read(b1, b2, i + 2 + size);
            let first = frames_from(b1, i + 2 + size).unwrap();
            let second = deframe(first.1, b2).unwrap();
            assert(seq![m] + (first.0 + second.0) =~= (seq![m] + first.0) + second.0);
        }
    }
}

/// The views of the channels a remote announced, by id and swarm name.
pub open spec fn mappings_view(m: Seq<(u8, SwarmName)>) -> Seq<(u8, SwarmNameView)> {
    m.map_values(|p: (u8, SwarmName)| (p.0, p.1@))
}

/// The announced channels, in order, but those with id `id`.
pub open spec fn without_channel(m: Seq<(u8, SwarmNameView)>, id: u8) -> Seq<(u8, SwarmNameView)>
    decreases m.len(),
{
    if m.len() == 0 {
        seq![]
    } else {
        let rest = without_channel(m.drop_last(), id);
        if m.last().0 != id {
            rest.push(m.last())
        } else {
            rest
        }
    }
}

/// Whether the remote announced channel `id` for swarm `name` and it is not in
/// use.
pub open spec fn announced_free(m: Seq<(u8, SwarmName)>, taken: Seq<u8>, name: SwarmNameView, id: u8) -> bool {
    &&& !taken.contains(id)
    &&& exists|k: int| 0 <= k < m.len() && #[trigger] m[k].1@ == name && m[k].0 == id
}

/// Picks the channel for swarm `name`, added to a stream on which channels
/// `taken` are in use: a channel the remote announced for that swarm and not
/// in use, which is then forgotten; where there is none, the lowest channel
/// below 64 not in use, and nothing is forgotten; `None` where all 64 are in
/// use.
pub fn pick_extension_channel(mappings: &mut Vec<(u8, SwarmName)>, taken: &Vec<u8>, name: &SwarmName) -> (r: Option<u8>)
    ensures
        (exists|id: u8| announced_free(old(mappings)@, taken@, name@, id)) ==> match r {
            Some(id) => announced_free(old(mappings)@, taken@, name@, id) && mappings_view(final(mappings)@)
                == without_channel(mappings_view(old(mappings)@), id),
            None => false,
        },
        !(exists|id: u8| announced_free(old(mappings)@, taken@, name@, id)) ==> final(mappings)@ == old(mappings)@
            && match r {
            Some(i) => i < 64 && !taken@.contains(i) && forall|j: u8| j < i ==> taken@.contains(j),
            None => forall|i: u8| i < 64 ==> taken@.contains(i),
        },
{
    let mut found: Option<u8> = None;
    let mut i: usize = 0;
    while i < mappings.len()
        invariant
            i <= mappings@.len(),
            mappings@ == old(mappings)@,
            found matches Some(id) ==> announced_free(mappings@, taken@, name@, id),
            found is None ==> forall|k: int| 0 <= k < i ==> (#[trigger] mappings@[k].1@ == name@ ==> taken@.contains(mappings@[k].0)),
        decreases mappings@.len() - i,
    {
        let id = mappings[i].0;
        if mappings[i].1.same_as(name) && !holds(taken, id) {
            found = Some(id);
        }
        i = i + 1;
    }
    match found {
        Some(id) => {
            forget_channel(mappings, id);
            Some(id)
        },
        None => {
            assert forall|id: u8| !announced_free(old(mappings)@, taken@, name@, id) by {
                if announced_free(old(mappings)@, taken@, name@, id) {
                    let k = choose|k: int| 0 <= k < mappings@.len() && #[trigger] mappings@[k].1@ == name@ && mappings@[k].0 == id;
                    assert(mappings@[k].1@ == name@);
                }
            }
            first_free_swarm_slot(taken)
        },
    }
}

/// Whether `ids` holds `id`.
fn holds(ids: &Vec<u8>, id: u8) -> (r: bool)
    ensures
        r == ids@.contains(id),
{
    let mut i: usize = 0;
    while i < ids.len()
        invariant
            i <= ids@.len(),
            forall|k: int| 0 <= k < i ==> ids@[k] != id,
        decreases ids@.len() - i,
    {
        if ids[i] == id {
            return true;
        }
        i = i + 1;
    }
    false
}

/// Forgets every announced channel with id `id`.
fn forget_channel(mappings: &mut Vec<(u8, SwarmName)>, id: u8)
    ensures
        mappings_view(final(mappings)@) == without_channel(mappings_view(old(mappings)@), id),
{
    let mut kept: Vec<(u8, SwarmName)> = Vec::new();
    let mut i: usize = 0;
    while i < mappings.len()
        invariant
            i <= mappings@.len(),
            mappings@ == old(mappings)@,
            mappings_view(kept@) == without_channel(mappings_view(mappings@).take(i as int), id),
        decreases mappings@.len() - i,
    {
        assert(mappings_view(mappings@).take(i as int + 1).drop_last() =~= mappings_view(mappings@).take(i as int));
        let k_id = mappings[i].0;
        if k_id != id {
            let ghost before = kept@;
            let n = mappings[i].1.duplicate();
            kept.push((k_id, n));
            assert(mappings_view(kept@) =~= mappings_view(before).push((k_id, mappings@[i as int].1@)));
        }
        i = i + 1;
    }
    assert(mappings_view(mappings@).take(mappings@.len() as int) =~= mappings_view(mappings@));
    *mappings = kept;
}

/// What the TCP service does with a ciphered message.
pub enum TcpStep {
    /// Write these bytes to the stream.
    Write(Vec<u8>),
    /// Ask the dispenser for this many tokens and come back with what it gives.
    AskTokens(u64),
}

/// What a TCP service does with a ciphered message, on a stream with the
/// budget `budget`. First (`provision` is `None`): where the budget holds the
/// message's cost, the cost is spent and the framed message written; else twice
/// the cost is asked for and the budget kept. After a provision of `amount`
/// tokens arrives: the tokens are added, the cost is spent, or all there are
/// where they do not reach, and the framed message is written.
pub fn tcp_on_outgoing(budget: &mut SendBudget, ciphered: &[u8], provision: Option<u64>) -> (r: TcpStep)
    requires
        2 * (ciphered@.len() + 45) <= u64::MAX,
        provision matches Some(amount) ==> old(budget).available + amount <= u64::MAX,
    ensures
        ({
            let cost = ciphered@.len() + 45;
            match provision {
                None => if cost <= old(budget).available {
                    r matches TcpStep::Write(b) && b@ == framed(ciphered@) && final(budget).available
                        == old(budget).available - cost
                } else {
                    r matches TcpStep::AskTokens(n) && n == 2 * cost && final(budget).available
                        == old(budget).available
                },
                Some(amount) => r matches TcpStep::Write(b) && b@ == framed(ciphered@)
                    && final(budget).available == if cost > old(budget).available + amount {
                    0
                } else {
                    old(budget).available + amount - cost
                },
            }
        }),
{
    let cost = tcp_send_cost(ciphered.len());
    match provision {
        None => {
            if budget.try_spend(cost) {
                TcpStep::Write(frame_message(ciphered))
            } else {
                TcpStep::AskTokens(2 * cost)
            }
        },
        Some(amount) => {
            budget.spend_after_provision(amount, cost);
            TcpStep::Write(frame_message(ciphered))
        },
    }
}

} // verus!
