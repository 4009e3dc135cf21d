//! Hole punching: the magic ports it binds to, so that a remote peer can tell
//! that the port it sees was chosen on purpose, and the decisions of its rounds:
//! what is assumed of the remote peer, which ports are tried next, and how a
//! cluster of sockets walks through the remote ports.
use vstd::prelude::*;
use std::collections::VecDeque;
use crate::crypto::{public_der_decodes, rsa_encrypt_accepts_der, rsa_public_decryption, Encrypter, SessionKey};
use crate::neighbor::SwarmNetworkSettings;
use crate::crypto::keys_match;
use crate::networking::client::{lemma_matching_key_reads_the_session_key, received_session_key};
use crate::networking::{Nat, PortAllocationRule};

verus! {

/// The low nine bits that every magic port ends in.
pub const MAGIC_LOW_END: u16 = 0b00000001_01010101;

/// The `k`-th magic port in the initial order: the high seven bits count down
/// from 127 to 1.
pub open spec fn initial_magic_port(k: int) -> u16 {
    ((127 - k) * 512 + MAGIC_LOW_END) as u16
}

/// The magic ports in their initial order.
pub open spec fn initial_magic_ports() -> Seq<u16> {
    Seq::new(127, |k: int| initial_magic_port(k))
}

/// Whether `port` is one of the magic ports: it ends in the nine magic bits and
/// its high seven bits are not all zero.
pub open spec fn is_magic_port(port: u16) -> bool {
    port % 512 == MAGIC_LOW_END && port / 512 >= 1
}

/// The magic ports, in the order in which they are handed out.
pub struct MagicPorts(VecDeque<u16>);

impl View for MagicPorts {
    type V = Seq<u16>;

    closed spec fn view(&self) -> Seq<u16> {
        self.0@
    }
}

impl MagicPorts {
    /// All 127 magic ports, the one with the highest high bits first.
    pub fn new() -> (r: Self)
        ensures
            r@ == initial_magic_ports(),
    {
        let mut port_list: VecDeque<u16> = VecDeque::with_capacity(127);
        let low_end: u16 = MAGIC_LOW_END;
        let mut i: u16 = 1;
        while i < 128
            invariant
                1 <= i <= 128,
                low_end == MAGIC_LOW_END,
                port_list@.len() == i - 1,
                forall|k: int|
                    0 <= k < i - 1 ==> port_list@[k] == ((i - 1 - k) * 512 + MAGIC_LOW_END) as u16,
            decreases 128 - i,
        {
            assert((i << 9u16) == i * 512) by (bit_vector)
                requires
                    i < 128,
            ;
            let port = (i << 9) + low_end;
            let ghost before = port_list@;
            port_list.push_front(port);
            assert forall|k: int| 0 <= k < i implies port_list@[k] == ((i - k) * 512
                + MAGIC_LOW_END) as u16 by {
                if k > 0 {
                    assert(port_list@[k] == before[k - 1]);
                }
            }
            i = i + 1;
        }
        let r = MagicPorts(port_list);
        assert(r@ =~= initial_magic_ports());
        r
    }

    /// Hands out the next magic port and puts it at the back of the line.
    pub fn next(&mut self) -> (r: u16)
        requires
            old(self)@.len() > 0,
        ensures
            r == old(self)@[0],
            final(self)@ == old(self)@.drop_first().push(r),
    {
        let port = self.0.pop_front().unwrap();
        self.0.push_back(port);
        port
    }

    /// Whether `port` is one of the magic ports.
    pub fn is_magic(&self, port: u16) -> (r: bool)
        ensures
            r == self@.contains(port),
    {
        let mut i: usize = 0;
        while i < self.0.len()
            invariant
                i <= self@.len(),
                forall|k: int| 0 <= k < i ==> self@[k] != port,
            decreases self@.len() - i,
        {
            if self.0[i] == port {
                assert(self@[i as int] == port);
                return true;
            }
            i = i + 1;
        }
        false
    }
}

/// The initial magic ports are exactly the ports that end in the nine magic bits
/// and have some high bit set.
pub proof fn lemma_initial_magic_ports(port: u16)
    ensures
        initial_magic_ports().contains(port) <==> is_magic_port(port),
{
    if is_magic_port(port) {
        let k = 127 - port / 512;
        assert(initial_magic_ports()[k] == port);
    }
}

/// Handing out a port keeps the set of magic ports as it was.
pub proof fn lemma_next_keeps_ports(ports: Seq<u16>, port: u16)
    requires
        ports.len() > 0,
    ensures
        ports.drop_first().push(ports[0]).contains(port) <==> ports.contains(port),
{
    let rotated = ports.drop_first().push(ports[0]);
    if ports.contains(port) {
        let k = choose|k: int| 0 <= k < ports.len() && ports[k] == port;
        if k == 0 {
            assert(rotated[rotated.len() - 1] == port);
        } else {
            assert(rotated[k - 1] == port);
        }
    }
    if rotated.contains(port) {
        let k = choose|k: int| 0 <= k < rotated.len() && rotated[k] == port;
        if k == rotated.len() - 1 {
            assert(ports[0] == port);
        } else {
            assert(ports[k + 1] == port);
        }
    }
}

/// The ports after `n` ports were handed out by `MagicPorts::next`: each one goes
/// from the front to the back.
pub open spec fn rotated(ports: Seq<u16>, n: nat) -> Seq<u16>
    decreases n,
{
    if n == 0 || ports.len() == 0 {
        ports
    } else {
        rotated(ports.drop_first().push(ports[0]), (n - 1) as nat)
    }
}

/// Handing out ports keeps the set of ports.
proof fn lemma_rotated_keeps(ports: Seq<u16>, n: nat, port: u16)
    ensures
        rotated(ports, n).len() == ports.len(),
        rotated(ports, n).contains(port) <==> ports.contains(port),
    decreases n,
{
    if n > 0 && ports.len() > 0 {
        lemma_next_keeps_ports(ports, port);
        lemma_rotated_keeps(ports.drop_first().push(ports[0]), (n - 1) as nat, port);
    }
}

/// However many ports `MagicPorts::new` has handed out, a port is magic exactly
/// when it ends in the nine magic bits and some high bit is set.
pub proof fn lemma_magic_after_handing_out(n: nat, port: u16)
    ensures
        rotated(initial_magic_ports(), n).contains(port) <==> is_magic_port(port),
{
    lemma_rotated_keeps(initial_magic_ports(), n, port);
    lemma_initial_magic_ports(port);
}

/// What is assumed of a remote peer from the first port a proxy reports for it:
/// a magic port tells of a symmetric NAT under the peer's control that keeps its
/// ports; any other port, an unknown NAT that allocates ports per destination
/// port, one at a time.
pub open spec fn remote_guess(magic: bool) -> (Nat, (PortAllocationRule, i8)) {
    if magic {
        (Nat::SymmetricWithPortControl, (PortAllocationRule::FullCone, 0))
    } else {
        (Nat::Unknown, (PortAllocationRule::PortSensitive, 1))
    }
}

/// The NAT kind and port allocation rule assumed of a remote peer whose reported
/// port is `port`.
pub fn guess_remote(magic: &MagicPorts, port: u16) -> (r: (Nat, (PortAllocationRule, i8)))
    ensures
        r == remote_guess(magic@.contains(port)),
{
    if magic.is_magic(port) {
        (Nat::SymmetricWithPortControl, (PortAllocationRule::FullCone, 0))
    } else {
        (Nat::Unknown, (PortAllocationRule::PortSensitive, 1))
    }
}

/// The step by which a NAT with these settings moves its public port.
pub open spec fn allocation_step(ns: SwarmNetworkSettings) -> int {
    match ns.port_allocation.0 {
        PortAllocationRule::AddressSensitive | PortAllocationRule::PortSensitive => {
            ns.port_allocation.1 as int
        },
        _ => 0,
    }
}

/// Whether the next public port of a NAT with these settings can be foreseen.
pub open spec fn allocation_predictable(ns: SwarmNetworkSettings) -> bool {
    ns.port_allocation.0 != PortAllocationRule::Random
}

/// After a probe from `local_port` to `remote_port` went unanswered, with
/// `retries_left` tries left: where both sides allocate ports predictably and a
/// try is left, the next local port and the remote port the remote NAT is
/// expected to use next; otherwise `None`, and punching stops.
pub fn retry_after_silence(
    mine: &SwarmNetworkSettings,
    other: &SwarmNetworkSettings,
    retries_left: u8,
    local_port: u16,
    remote_port: u16,
) -> (r: Option<(u16, u16)>)
    requires
        retries_left > 0 && allocation_predictable(*mine) && allocation_predictable(*other)
            ==> local_port < u16::MAX && 0 <= remote_port + allocation_step(*other) <= u16::MAX,
    ensures
        retries_left > 0 && allocation_predictable(*mine) && allocation_predictable(*other) ==> r
            == Some(((local_port + 1) as u16, (remote_port + allocation_step(*other)) as u16)),
        !(retries_left > 0 && allocation_predictable(*mine) && allocation_predictable(*other))
            ==> r is None,
{
    if retries_left == 0 || mine.port_allocation.0 == PortAllocationRule::Random
        || other.port_allocation.0 == PortAllocationRule::Random {
        return None;
    }
    let next_remote = match other.port_allocation {
        (PortAllocationRule::AddressSensitive, value)
        | (PortAllocationRule::PortSensitive, value) => {
            if value > 0 {
                remote_port + (value as u16)
            } else {
                remote_port - ((0i16 - value as i16) as u16)
            }
        },
        _ => remote_port,
    };
    Some((local_port + 1, next_remote))
}

/// The local ports of the second round, counted from the port the first round
/// bound to: one for each of the two questions to the proxy, and the one that
/// punches.
pub fn second_round_ports(bind_port: u16) -> (r: (u16, u16, u16))
    requires
        bind_port >= 3,
    ensures
        r == ((bind_port - 3) as u16, (bind_port - 2) as u16, (bind_port - 1) as u16),
{
    (bind_port - 3, bind_port - 2, bind_port - 1)
}

/// From the two remote ports the proxy reported in the second round: the step
/// between them, and the port the remote NAT is expected to use next.
pub fn predict_remote_port(first: u16, second: u16) -> (r: (u16, u16))
    requires
        first <= second,
        second + (second - first) <= u16::MAX,
    ensures
        r.0 == second - first,
        r.1 == second + (second - first),
{
    let delta = second - first;
    (delta, second + delta)
}

/// The third round's bounds: the first of the 50 local ports, two above the port
/// that punched in the second round, and the range of remote ports to walk,
/// from one step past the predicted port up to fifty steps past it.
pub fn third_round_bounds(punch_port: u16, target: u16, delta: u16) -> (r: (u16, u16, u16))
    requires
        punch_port + 2 + 50 <= u16::MAX + 1,
        target + 50 * delta <= u16::MAX,
    ensures
        r == ((punch_port + 2) as u16, (target + delta) as u16, (target + 50 * delta) as u16),
{
    (punch_port + 2, target + delta, target + 50 * delta)
}

/// The remote port a cluster socket tries after `current`: one step further, or
/// back to the lowest where that passes the highest.
pub open spec fn advance_target(current: int, step: int, min: int, max: int) -> int {
    if current + step > max {
        min
    } else {
        current + step
    }
}

/// The remote port the `i`-th socket of a cluster tries first.
pub open spec fn cluster_target(i: nat, min: int, step: int, max: int) -> int
    decreases i,
{
    if i == 0 {
        min
    } else {
        advance_target(cluster_target((i - 1) as nat, min, step, max), step, min, max)
    }
}

/// A cluster of local sockets on consecutive ports, each walking through the
/// remote ports from `min` to `max` by `step`; `next` holds, for each socket in
/// port order, the remote port it tries once its current probe goes unanswered.
pub struct ClusterPlan {
    pub base: u16,
    pub min: u16,
    pub step: u16,
    pub max: u16,
    pub next: Vec<u16>,
}

impl ClusterPlan {
    /// Whether no step can overflow: every remote port held is the lowest or at
    /// most the highest, a step from either fits in 16 bits, and the local ports
    /// fit in 16 bits.
    pub open spec fn wf(&self) -> bool {
        &&& self.min + self.step <= u16::MAX
        &&& self.max + self.step <= u16::MAX
        &&& self.base + self.next@.len() <= u16::MAX + 1
        &&& forall|k: int| 0 <= k < self.next@.len() ==> #[trigger] self.next@[k] == self.min || self.next@[k] <= self.max
    }

    /// Sets up `count` sockets from local port `base` on: gives the plan and the
    /// first probe of each socket, its local port and the remote port it tries.
    pub fn new(base: u16, count: u16, min: u16, step: u16, max: u16) -> (r: (Self, Vec<(u16, u16)>))
        requires
            base + count <= u16::MAX + 1,
            min + step <= u16::MAX,
            max + step <= u16::MAX,
        ensures
            r.0.wf(),
            r.0.base == base && r.0.min == min && r.0.step == step && r.0.max == max,
            r.0.next@.len() == count,
            r.1@.len() == count,
            forall|i: int|
                0 <= i < count ==> #[trigger] r.1@[i] == ((base + i) as u16, cluster_target(
                    i as nat,
                    min as int,
                    step as int,
                    max as int,
                ) as u16),
            forall|i: int|
                0 <= i < count ==> #[trigger] r.0.next@[i] == cluster_target(
                    (i + 1) as nat,
                    min as int,
                    step as int,
                    max as int,
                ),
    {
        let mut probes: Vec<(u16, u16)> = Vec::new();
        let mut next: Vec<u16> = Vec::new();
        let mut current: u16 = min;
        let mut i: u16 = 0;
        while i < count
            invariant
                i <= count,
                base + count <= u16::MAX + 1,
                min + step <= u16::MAX,
                max + step <= u16::MAX,
                current == min || current <= max,
                current == cluster_target(i as nat, min as int, step as int, max as int),
                probes@.len() == i,
                next@.len() == i,
                forall|k: int|
                    0 <= k < i ==> #[trigger] probes@[k] == ((base + k) as u16, cluster_target(
                        k as nat,
                        min as int,
                        step as int,
                        max as int,
                    ) as u16),
                forall|k: int|
                    0 <= k < i ==> #[trigger] next@[k] == cluster_target(
                        (k + 1) as nat,
                        min as int,
                        step as int,
                        max as int,
                    ),
                forall|k: int| 0 <= k < i ==> #[trigger] next@[k] == min || next@[k] <= max,
            decreases count - i,
        {
            probes.push((base + i, current));
            current = current + step;
            if current > max {
                current = min;
            }
            next.push(current);
            i = i + 1;
        }
        (ClusterPlan { base, min, step, max, next }, probes)
    }

    /// The probe from local port `local` went unanswered: gives the remote port
    /// it tries now, and moves that socket's next port one step on.
    pub fn on_silence(&mut self, local: u16) -> (r: u16)
        requires
            old(self).wf(),
            old(self).base <= local < old(self).base + old(self).next@.len(),
        ensures
            final(self).wf(),
            final(self).base == old(self).base && final(self).min == old(self).min
                && final(self).step == old(self).step && final(self).max == old(self).max,
            r == old(self).next@[local - old(self).base],
            final(self).next@ == old(self).next@.update(
                local - old(self).base,
                advance_target(r as int, old(self).step as int, old(self).min as int, old(self).max as int) as u16,
            ),
    {
        let k = (local - self.base) as usize;
        let current = self.next[k];
        let mut following = current + self.step;
        if following > self.max {
            following = self.min;
        }
        self.next.set(k, following);
        current
    }
}

/// Which side of a punched connection makes up the session key and sends it:
/// the gnome whose id is the larger one.
pub fn sends_session_key(my_id: u64, remote_id: u64) -> (r: bool)
    ensures
        r == (remote_id < my_id),
{
    remote_id < my_id
}

/// How a gnome starts on the session key of a punched connection.
pub enum KeyOpening {
    /// Send these bytes, the fresh key encrypted to the peer, and use this key.
    Send(Vec<u8>, SessionKey),
    /// Wait for the peer's key.
    Receive,
}

/// What a gnome with id `my_id` does first about the session key of a punched
/// connection with the gnome `remote_id`, whose public key is `remote`: the
/// gnome with the larger id encrypts its fresh key `key` to the peer and uses
/// it, or gives the error that it could not encrypt it; the other waits for the
/// peer's key.
pub fn open_session_key(my_id: u64, remote_id: u64, remote: &Encrypter, key: &[u8; 32]) -> (r: Result<KeyOpening, String>)
    ensures
        !sends_session_key_spec(my_id, remote_id) ==> r matches Ok(KeyOpening::Receive),
        sends_session_key_spec(my_id, remote_id) ==> {
            &&& r is Ok <==> (public_der_decodes(remote.der()) && rsa_encrypt_accepts_der(remote.der(), 32))
            &&& r matches Ok(o) ==> (o matches KeyOpening::Send(sent, s) && s@ == key@
                && rsa_public_decryption(remote.der(), sent@) == Some(key@))
            &&& r matches Err(e) ==> e@ == "Unable to encrypt data"@
        },
{
    if sends_session_key(my_id, remote_id) {
        match remote.encrypt(key.as_slice()) {
            Ok(sent) => Ok(KeyOpening::Send(sent, SessionKey::from_key(key))),
            Err(e) => Err(e),
        }
    } else {
        Ok(KeyOpening::Receive)
    }
}

/// Whether the gnome `my_id` makes up the session key with `remote_id`.
pub open spec fn sends_session_key_spec(my_id: u64, remote_id: u64) -> bool {
    remote_id < my_id
}

/// After a punch between gnome `a` and gnome `b` with the smaller id, where
/// `b`'s private key matches the public key that `a` encrypts to, both end with
/// the key `a` drew: `a` sends it and uses it, `b` waits and reads that same key
/// from what `a` sent. The keys of a pair that `new_cipher_pair` makes match.
pub proof fn lemma_both_ends_hold_the_senders_key(
    a_id: u64,
    b_id: u64,
    b_priv: Seq<u8>,
    b_pub: Seq<u8>,
    key: Seq<u8>,
    sent: Seq<u8>,
)
    requires
        b_id < a_id,
        keys_match(b_priv, b_pub),
        key.len() == 32,
        rsa_public_decryption(b_pub, sent) == Some(key),
    ensures
        sends_session_key_spec(a_id, b_id),
        !sends_session_key_spec(b_id, a_id),
        received_session_key(b_priv, sent) == Some(key),
{
    lemma_matching_key_reads_the_session_key(b_priv, b_pub, key, sent);
}

/// The NAT kind learned once a punched peer told us our public port: where it is
/// the port we bound to, a symmetric NAT that lets us control our ports, else a
/// symmetric NAT.
pub fn nat_after_punch(my_pub_port: u16, local_port: u16) -> (r: Nat)
    ensures
        r == if my_pub_port == local_port { Nat::SymmetricWithPortControl } else { Nat::Symmetric },
{
    if my_pub_port == local_port {
        Nat::SymmetricWithPortControl
    } else {
        Nat::Symmetric
    }
}

} // verus!
