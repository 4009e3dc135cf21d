//! Big-endian integer encoding and the byte layouts of swarm messages.
use vstd::prelude::*;
use crate::messages::{
    configuration_content, configuration_tag, signature_bytes, signature_header_byte, signer,
    CastMessage, Configuration, ConfigurationView, Header, Message, MessageView, Payload,
    PayloadView, Signature, SignatureView,
};
use crate::networking::sock::CastKind;
use crate::networking::{nat_byte, nat_from_byte, rule_byte, rule_from_byte, IpAddr, Nat, PortAllocationRule};
use crate::neighbor::{
    cap_pairs_view, key_pairs_view, NeighborRequest, NeighborRequestView, NeighborResponse,
    NeighborResponseView, SwarmNetworkSettings, SwarmNetworkSettingsView, SwarmSyncInfo,
    SwarmSyncInfoView,
};

verus! {

/// The value of two bytes read in big-endian order.
pub open spec fn be16(b0: u8, b1: u8) -> int {
    b0 * 0x100 + b1
}

/// The value of four bytes read in big-endian order.
pub open spec fn be32(b: Seq<u8>) -> int
    recommends b.len() == 4,
{
    b[0] * 0x1000000 + b[1] * 0x10000 + b[2] * 0x100 + b[3]
}

/// The value of eight bytes read in big-endian order.
pub open spec fn be64(b: Seq<u8>) -> int
    recommends b.len() == 8,
{
    b[0] * 0x100000000000000 + b[1] * 0x1000000000000 + b[2] * 0x10000000000
        + b[3] * 0x100000000 + b[4] * 0x1000000 + b[5] * 0x10000 + b[6] * 0x100 + b[7]
}

/// The two big-endian bytes of `v`.
pub open spec fn u16_bytes(v: u16) -> Seq<u8> {
    seq![(v / 0x100) as u8, (v % 0x100) as u8]
}

/// The four big-endian bytes of `v`.
pub open spec fn u32_bytes(v: u32) -> Seq<u8> {
    seq![
        (v / 0x1000000) as u8,
        ((v / 0x10000) % 0x100) as u8,
        ((v / 0x100) % 0x100) as u8,
        (v % 0x100) as u8,
    ]
}

/// The eight big-endian bytes of `v`.
pub open spec fn u64_bytes(v: u64) -> Seq<u8> {
    seq![
        (v / 0x100000000000000) as u8,
        ((v / 0x1000000000000) % 0x100) as u8,
        ((v / 0x10000000000) % 0x100) as u8,
        ((v / 0x100000000) % 0x100) as u8,
        ((v / 0x1000000) % 0x100) as u8,
        ((v / 0x10000) % 0x100) as u8,
        ((v / 0x100) % 0x100) as u8,
        (v % 0x100) as u8,
    ]
}

/// Reads a big-endian `u16`.
pub fn as_u16_be(array: &[u8; 2]) -> (r: u16)
    ensures
        r == be16(array@[0], array@[1]),
{
    let a0 = array[0];
    let a1 = array[1];
    assert(((a0 as u16) << 8u16) + (a1 as u16) == a0 * 0x100 + a1) by (bit_vector);
    ((a0 as u16) << 8u16) + (a1 as u16)
}


/// Reads a big-endian `u32`.
pub fn as_u32_be(array: &[u8; 4]) -> (r: u32)
    ensures
        r == be32(array@),
{
    let a0 = array[0];
    let a1 = array[1];
    let a2 = array[2];
    let a3 = array[3];
    assert(((a0 as u32) << 24u32) + ((a1 as u32) << 16u32) + ((a2 as u32) << 8u32) + (a3 as u32)
        == a0 * 0x1000000 + a1 * 0x10000 + a2 * 0x100 + a3) by (bit_vector);
    ((a0 as u32) << 24u32) + ((a1 as u32) << 16u32) + ((a2 as u32) << 8u32) + (a3 as u32)
}

/// Reads a big-endian `u64`.
pub fn as_u64_be(array: &[u8; 8]) -> (r: u64)
    ensures
        r == be64(array@),
{
    let a0 = array[0] as u64;
    let a1 = array[1] as u64;
    let a2 = array[2] as u64;
    let a3 = array[3] as u64;
    let a4 = array[4] as u64;
    let a5 = array[5] as u64;
    let a6 = array[6] as u64;
    let a7 = array[7] as u64;
    assert(a0 < 256 && a1 < 256 && a2 < 256 && a3 < 256 && a4 < 256 && a5 < 256 && a6 < 256 && a7 < 256);
    assert((a0 << 56u64) + (a1 << 48u64) + (a2 << 40u64) + (a3 << 32u64) + (a4 << 24u64) + (a5
        << 16u64) + (a6 << 8u64) + a7 == a0 * 0x100000000000000 + a1 * 0x1000000000000 + a2
        * 0x10000000000 + a3 * 0x100000000 + a4 * 0x1000000 + a5 * 0x10000 + a6 * 0x100 + a7)
        by (bit_vector)
        requires
            a0 < 256 && a1 < 256 && a2 < 256 && a3 < 256 && a4 < 256 && a5 < 256 && a6 < 256 && a7
                < 256,
    ;
    (a0 << 56u64) + (a1 << 48u64) + (a2 << 40u64) + (a3 << 32u64) + (a4 << 24u64) + (a5 << 16u64)
        + (a6 << 8u64) + a7
}

/// Appends the two big-endian bytes of `value`.
pub fn put_u16(vec: &mut Vec<u8>, value: u16)
    ensures
        final(vec)@ == old(vec)@ + u16_bytes(value),
{
    let b0 = (value >> 8u16) as u8;
    let b1 = (value & 0xff) as u8;
    assert(b0 == (value / 0x100) as u8 && b1 == (value % 0x100) as u8) by (bit_vector)
        requires b0 == (value >> 8u16) as u8, b1 == (value & 0xff) as u8;
    vec.push(b0);
    vec.push(b1);
}

/// Appends the four big-endian bytes of `value`.
pub fn put_u32(vec: &mut Vec<u8>, value: u32)
    ensures
        final(vec)@ == old(vec)@ + u32_bytes(value),
{
    let b0 = (value >> 24u32) as u8;
    let b1 = ((value >> 16u32) & 0xff) as u8;
    let b2 = ((value >> 8u32) & 0xff) as u8;
    let b3 = (value & 0xff) as u8;
    assert(b0 == (value / 0x1000000) as u8 && b1 == ((value / 0x10000) % 0x100) as u8 && b2 == ((
    value / 0x100) % 0x100) as u8 && b3 == (value % 0x100) as u8) by (bit_vector)
        requires
            b0 == (value >> 24u32) as u8,
            b1 == ((value >> 16u32) & 0xff) as u8,
            b2 == ((value >> 8u32) & 0xff) as u8,
            b3 == (value & 0xff) as u8,
    ;
    vec.push(b0);
    vec.push(b1);
    vec.push(b2);
    vec.push(b3);
}

/// Appends the eight big-endian bytes of `value`.
pub fn put_u64(vec: &mut Vec<u8>, value: u64)
    ensures
        final(vec)@ == old(vec)@ + u64_bytes(value),
{
    let ghost start = vec@;
    let mut shift: u64 = 64;
    let mut i: usize = 0;
    while i < 8
        invariant
            0 <= i <= 8,
            shift == 64 - 8 * i,
            vec@.len() == start.len() + i,
            forall|j: int| 0 <= j < start.len() ==> vec@[j] == start[j],
            forall|j: int| 0 <= j < i ==> vec@[start.len() + j] == u64_bytes(value)[j],
        decreases 8 - i,
    {
        shift = shift - 8;
        let b = ((value >> shift) & 0xff) as u8;
        proof {
            lemma_u64_byte(value, shift, i as int);
        }
        vec.push(b);
        i = i + 1;
    }
    assert(vec@ =~= start + u64_bytes(value));
}

/// The byte that `put_u64` writes at position `i` is the shifted value.
proof fn lemma_u64_byte(value: u64, shift: u64, i: int)
    requires
        0 <= i < 8,
        shift == 56 - 8 * i,
    ensures
        ((value >> shift) & 0xff) as u8 == u64_bytes(value)[i],
{
    if i == 0 {
        assert(((value >> 56u64) & 0xff) as u8 == (value / 0x100000000000000) as u8) by (bit_vector);
    } else if i == 1 {
        assert(((value >> 48u64) & 0xff) as u8 == ((value / 0x1000000000000) % 0x100) as u8) by (bit_vector);
    } else if i == 2 {
        assert(((value >> 40u64) & 0xff) as u8 == ((value / 0x10000000000) % 0x100) as u8) by (bit_vector);
    } else if i == 3 {
        assert(((value >> 32u64) & 0xff) as u8 == ((value / 0x100000000) % 0x100) as u8) by (bit_vector);
    } else if i == 4 {
        assert(((value >> 24u64) & 0xff) as u8 == ((value / 0x1000000) % 0x100) as u8) by (bit_vector);
    } else if i == 5 {
        assert(((value >> 16u64) & 0xff) as u8 == ((value / 0x10000) % 0x100) as u8) by (bit_vector);
    } else if i == 6 {
        assert(((value >> 8u64) & 0xff) as u8 == ((value / 0x100) % 0x100) as u8) by (bit_vector);
    } else {
        assert(((value >> 0u64) & 0xff) as u8 == (value % 0x100) as u8) by (bit_vector);
    }
}

/// Reading back what `put_u16` writes gives the written value.
pub proof fn lemma_u16_roundtrip(v: u16)
    ensures
        be16(u16_bytes(v)[0], u16_bytes(v)[1]) == v,
{
}

/// Reading back what `put_u32` writes gives the written value.
pub proof fn lemma_u32_roundtrip(v: u32)
    ensures
        be32(u32_bytes(v)) == v,
{
}

/// Reading back what `put_u64` writes gives the written value.
pub proof fn lemma_u64_roundtrip(v: u64)
    ensures
        be64(u64_bytes(v)) == v,
{
    let b0: u64 = v / 0x100000000000000;
    let b1: u64 = (v / 0x1000000000000) % 0x100;
    let b2: u64 = (v / 0x10000000000) % 0x100;
    let b3: u64 = (v / 0x100000000) % 0x100;
    let b4: u64 = (v / 0x1000000) % 0x100;
    let b5: u64 = (v / 0x10000) % 0x100;
    let b6: u64 = (v / 0x100) % 0x100;
    let b7: u64 = v % 0x100;
    assert(b0 * 0x100000000000000 + b1 * 0x1000000000000 + b2 * 0x10000000000 + b3 * 0x100000000
        + b4 * 0x1000000 + b5 * 0x10000 + b6 * 0x100 + b7 == v) by (bit_vector)
        requires
            b0 == v / 0x100000000000000,
            b1 == (v / 0x1000000000000) % 0x100,
            b2 == (v / 0x10000000000) % 0x100,
            b3 == (v / 0x100000000) % 0x100,
            b4 == (v / 0x1000000) % 0x100,
            b5 == (v / 0x10000) % 0x100,
            b6 == (v / 0x100) % 0x100,
            b7 == v % 0x100,
    ;
    assert(b0 < 0x100) by (bit_vector) requires b0 == v / 0x100000000000000;
}

/// The failure to read a message from bytes.
#[derive(Debug, Clone, Copy, PartialEq, Eq, Structural)]
pub struct ConversionError;

impl ConversionError {
    /// What the error says.
    pub fn to_string(&self) -> (r: String)
        ensures
            r@ == "ConversionError"@,
    {
        "ConversionError".to_owned()
    }
}

/// The eight bytes at offset `i` of `b`, read in big-endian order.
pub open spec fn be64_at(b: Seq<u8>, i: int) -> u64 {
    be64(b.subrange(i, i + 8)) as u64
}

/// Reads the big-endian `u64` at offset `i`.
fn read_u64_at(b: &[u8], i: usize) -> (r: u64)
    requires
        i + 8 <= b@.len(),
    ensures
        r == be64_at(b@, i as int),
{
    let a = [b[i], b[i + 1], b[i + 2], b[i + 3], b[i + 4], b[i + 5], b[i + 6], b[i + 7]];
    assert(a@ =~= b@.subrange(i as int, i + 8));
    as_u64_be(&a)
}

/// The bytes of `b` from `start` up to `end`.
pub fn copy_range(b: &[u8], start: usize, end: usize) -> (r: Vec<u8>)
    requires
        start <= end <= b@.len(),
    ensures
        r@ == b@.subrange(start as int, end as int),
{
    let mut v: Vec<u8> = Vec::with_capacity(end - start);
    let mut i = start;
    while i < end
        invariant
            start <= i <= end,
            end <= b@.len(),
            v@ == b@.subrange(start as int, i as int),
        decreases end - i,
    {
        v.push(b[i]);
        i = i + 1;
        assert(v@ =~= b@.subrange(start as int, i as int));
    }
    v
}

/// Appends all of `src` to `dst`.
fn push_all(dst: &mut Vec<u8>, src: &[u8])
    ensures
        final(dst)@ == old(dst)@ + src@,
{
    let ghost start = dst@;
    let mut i: usize = 0;
    while i < src.len()
        invariant
            i <= src@.len(),
            dst@ == start + src@.take(i as int),
        decreases src@.len() - i,
    {
        dst.push(src[i]);
        i = i + 1;
        assert(dst@ =~= start + src@.take(i as int));
    }
    assert(src@.take(i as int) =~= src@);
}

/// The signature at offset `idx`, by `signer`, and the offset past it: a kind
/// byte, 0 for a 256-byte signature, 255 for a 270-byte key and a 256-byte
/// signature. `None` where the kind is neither or the bytes run out.
pub open spec fn decode_signature(b: Seq<u8>, idx: int, gnome: u64) -> Option<(SignatureView, int)> {
    if idx < 0 || idx >= b.len() {
        None
    } else if b[idx] == 0 {
        if idx + 257 > b.len() {
            None
        } else {
            Some((SignatureView::Regular(gnome, b.subrange(idx + 1, idx + 257)), idx + 257))
        }
    } else if b[idx] == 255 {
        if idx + 527 > b.len() {
            None
        } else {
            Some(
                (
                    SignatureView::Extended(
                        gnome,
                        b.subrange(idx + 1, idx + 271),
                        b.subrange(idx + 271, idx + 527),
                    ),
                    idx + 527,
                ),
            )
        }
    } else {
        None
    }
}

/// The configuration whose tag is at offset `idx`, by `gnome`, and the offset
/// past what is read of it: a cast configuration finds its cast id nine bytes
/// after the tag, a key insertion its 270-byte key there.
pub open spec fn decode_configuration(b: Seq<u8>, idx: int, gnome: u64) -> Option<
    (ConfigurationView, int),
> {
    if idx < 0 || idx >= b.len() {
        None
    } else {
        let tag = b[idx];
        if 249 <= tag <= 254 {
            if idx + 10 > b.len() {
                None
            } else {
                let c = b[idx + 9];
                let cfg = if tag == 254 {
                    ConfigurationView::StartBroadcast(gnome, c)
                } else if tag == 253 {
                    ConfigurationView::ChangeBroadcastOrigin(gnome, c)
                } else if tag == 252 {
                    ConfigurationView::EndBroadcast(c)
                } else if tag == 251 {
                    ConfigurationView::StartMulticast(gnome, c)
                } else if tag == 250 {
                    ConfigurationView::ChangeMulticastOrigin(gnome, c)
                } else {
                    ConfigurationView::EndMulticast(c)
                };
                Some((cfg, idx + 10))
            }
        } else if tag == 248 {
            Some((ConfigurationView::CreateGroup, idx + 1))
        } else if tag == 247 {
            Some((ConfigurationView::DeleteGroup, idx + 1))
        } else if tag == 246 {
            Some((ConfigurationView::ModifyGroup, idx + 1))
        } else if tag == 245 {
            if idx + 279 > b.len() {
                None
            } else {
                Some((ConfigurationView::InsertPubkey(gnome, b.subrange(idx + 9, idx + 279)), idx + 279))
            }
        } else {
            Some((ConfigurationView::UserDefined(tag), idx + 1))
        }
    }
}

/// The regular message that `b` stands for. The first byte holds three flag
/// bits and the neighborhood in its low five bits; the next four the swarm time.
/// Flags 000: sync with keep-alive; 010: sync with bye; 110: block header with
/// keep-alive; 111: block; 100: reconfiguration header with keep-alive; 101:
/// reconfiguration. `None` where the flags are 001 or 011, a signature's kind
/// is unknown, or the bytes run out.
pub open spec fn decode_regular(b: Seq<u8>) -> Option<MessageView> {
    if b.len() < 5 {
        None
    } else {
        let f = b[0];
        let mid = (f / 32) % 4;
        let swarm_time = be32(b.subrange(1, 5)) as u32;
        let neighborhood = f % 32;
        if f < 128 {
            if mid == 0 {
                if b.len() < 13 {
                    None
                } else {
                    Some(
                        MessageView {
                            swarm_time,
                            neighborhood,
                            header: Header::Sync,
                            payload: PayloadView::KeepAlive(be64_at(b, 5)),
                        },
                    )
                }
            } else if mid == 2 {
                Some(MessageView { swarm_time, neighborhood, header: Header::Sync, payload: PayloadView::Bye })
            } else {
                None
            }
        } else if mid >= 2 {
            if b.len() < 21 {
                None
            } else {
                let header = Header::Block(be64_at(b, 5));
                if mid == 2 {
                    Some(
                        MessageView {
                            swarm_time,
                            neighborhood,
                            header,
                            payload: PayloadView::KeepAlive(be64_at(b, 13)),
                        },
                    )
                } else {
                    match decode_signature(b, 21, be64_at(b, 13)) {
                        None => None,
                        Some((sig, next)) => Some(
                            MessageView {
                                swarm_time,
                                neighborhood,
                                header,
                                payload: PayloadView::Block(
                                    be64_at(b, 5),
                                    sig,
                                    b.subrange(next, b.len() as int),
                                ),
                            },
                        ),
                    }
                }
            }
        } else {
            if b.len() < 14 {
                None
            } else {
                let gnome = be64_at(b, 6);
                let header = Header::Reconfigure(b[5], gnome);
                if mid == 0 {
                    if b.len() < 22 {
                        None
                    } else {
                        Some(
                            MessageView {
                                swarm_time,
                                neighborhood,
                                header,
                                payload: PayloadView::KeepAlive(be64_at(b, 14)),
                            },
                        )
                    }
                } else {
                    match decode_configuration(b, 5, gnome) {
                        None => None,
                        Some((cfg, next)) => match decode_signature(b, next, gnome) {
                            None => None,
                            Some((sig, _)) => Some(
                                MessageView {
                                    swarm_time,
                                    neighborhood,
                                    header,
                                    payload: PayloadView::Reconfigure(sig, cfg),
                                },
                            ),
                        },
                    }
                }
            }
        }
    }
}

/// Reads the signature at offset `idx`, by `gnome`; gives it and the offset past it.
fn read_signature(b: &[u8], idx: usize, gnome: u64) -> (r: (Signature, usize))
    requires
        decode_signature(b@, idx as int, gnome) is Some,
    ensures
        decode_signature(b@, idx as int, gnome) == Some((r.0@, r.1 as int)),
{
    let sig_type = b[idx];
    if sig_type == 0 {
        let sig_bytes = copy_range(b, idx + 1, idx + 257);
        (Signature::Regular(gnome, sig_bytes), idx + 257)
    } else {
        let pub_key = copy_range(b, idx + 1, idx + 271);
        let sig_bytes = copy_range(b, idx + 271, idx + 527);
        (Signature::Extended(gnome, pub_key, sig_bytes), idx + 527)
    }
}

/// Reads the configuration whose tag is at offset `idx`, by `gnome`; gives it
/// and the offset past what was read of it.
fn read_configuration(b: &[u8], idx: usize, gnome: u64) -> (r: (Configuration, usize))
    requires
        decode_configuration(b@, idx as int, gnome) is Some,
    ensures
        decode_configuration(b@, idx as int, gnome) == Some((r.0@, r.1 as int)),
{
    match b[idx] {
        254 => (Configuration::StartBroadcast(gnome, b[idx + 9]), idx + 10),
        253 => (Configuration::ChangeBroadcastOrigin(gnome, b[idx + 9]), idx + 10),
        252 => (Configuration::EndBroadcast(b[idx + 9]), idx + 10),
        251 => (Configuration::StartMulticast(gnome, b[idx + 9]), idx + 10),
        250 => (Configuration::ChangeMulticastOrigin(gnome, b[idx + 9]), idx + 10),
        249 => (Configuration::EndMulticast(b[idx + 9]), idx + 10),
        248 => (Configuration::CreateGroup, idx + 1),
        247 => (Configuration::DeleteGroup, idx + 1),
        246 => (Configuration::ModifyGroup, idx + 1),
        245 => {
            let key = copy_range(b, idx + 9, idx + 279);
            (Configuration::InsertPubkey(gnome, key), idx + 279)
        },
        other => (Configuration::UserDefined(other), idx + 1),
    }
}

/// Reads a regular swarm message from the bytes that follow a datagram's first
/// byte.
pub fn bytes_to_message(bytes: Vec<u8>) -> (r: Result<Message, ConversionError>)
    requires
        decode_regular(bytes@) is Some,
    ensures
        r matches Ok(m) && decode_regular(bytes@) == Some(m@),
{
    let b = bytes.as_slice();
    let f = b[0];
    let swarm_time = as_u32_be(&[b[1], b[2], b[3], b[4]]);
    assert([b@[1], b@[2], b@[3], b@[4]]@ =~= b@.subrange(1, 5));
    let neighborhood = f & 0b0001_1111;
    assert(f & 0b0001_1111 == f % 32) by (bit_vector);
    assert(f & 0b1000_0000 == 128 <==> f >= 128) by (bit_vector);
    assert(f & 0b0110_0000 == ((f / 32) % 4) * 32) by (bit_vector);
    let message = if f & 0b1000_0000 == 128 {
        if f & 0b0110_0000 == 96 {
            let block_id = read_u64_at(b, 5);
            let gnome_id = read_u64_at(b, 13);
            let (signature, data_idx) = read_signature(b, 21, gnome_id);
            let data = copy_range(b, data_idx, b.len());
            Message {
                swarm_time,
                neighborhood,
                header: Header::Block(block_id),
                payload: Payload::Block(block_id, signature, data),
            }
        } else if f & 0b0110_0000 == 64 {
            let block_id = read_u64_at(b, 5);
            let bandwith = read_u64_at(b, 13);
            Message {
                swarm_time,
                neighborhood,
                header: Header::Block(block_id),
                payload: Payload::KeepAlive(bandwith),
            }
        } else if f & 0b0110_0000 == 32 {
            let gnome_id = read_u64_at(b, 6);
            let (config, data_idx) = read_configuration(b, 5, gnome_id);
            let (signature, _) = read_signature(b, data_idx, gnome_id);
            Message {
                swarm_time,
                neighborhood,
                header: Header::Reconfigure(b[5], gnome_id),
                payload: Payload::Reconfigure(signature, config),
            }
        } else {
            let gnome_id = read_u64_at(b, 6);
            let bandwith = read_u64_at(b, 14);
            Message {
                swarm_time,
                neighborhood,
                header: Header::Reconfigure(b[5], gnome_id),
                payload: Payload::KeepAlive(bandwith),
            }
        }
    } else {
        if f & 0b0110_0000 == 0 {
            let bandwith = read_u64_at(b, 5);
            Message { swarm_time, neighborhood, header: Header::Sync, payload: Payload::KeepAlive(bandwith) }
        } else {
            Message { swarm_time, neighborhood, header: Header::Sync, payload: Payload::Bye }
        }
    };
    Ok(message)
}

/// The three flag bits of a message's first byte.
pub open spec fn message_flags(m: MessageView) -> u8 {
    match m.header {
        Header::Block(_) => if m.payload is Block {
            7
        } else {
            6
        },
        Header::Reconfigure(_, _) => if m.payload is Reconfigure {
            5
        } else {
            4
        },
        Header::Sync => if m.payload is Bye {
            2
        } else {
            0
        },
    }
}

/// The bytes of a payload, after the header; a block's id is left out where the
/// header already carries it.
pub open spec fn payload_bytes(p: PayloadView, block_id_inserted: bool) -> Seq<u8> {
    match p {
        PayloadView::KeepAlive(bandwith) => u64_bytes(bandwith),
        PayloadView::Bye => seq![],
        PayloadView::Reconfigure(sig, cfg) => configuration_content(cfg) + seq![
            signature_header_byte(sig),
        ] + signature_bytes(sig),
        PayloadView::Block(block_id, sig, data) => (if block_id_inserted {
            seq![]
        } else {
            u64_bytes(block_id)
        }) + u64_bytes(signer(sig)) + seq![signature_header_byte(sig)] + signature_bytes(sig)
            + data,
    }
}

/// The bytes of a regular message: the flags and neighborhood, the swarm time,
/// the header's block id or configuration tag and gnome id, then the payload;
/// a sync bye is only the first five bytes.
pub open spec fn message_bytes(m: MessageView) -> Seq<u8> {
    let head = seq![(m.neighborhood + message_flags(m) * 32) as u8] + u32_bytes(m.swarm_time);
    match m.header {
        Header::Block(block_id) => head + u64_bytes(block_id) + payload_bytes(m.payload, true),
        Header::Reconfigure(tag, gnome) => head + seq![tag] + u64_bytes(gnome) + payload_bytes(
            m.payload,
            false,
        ),
        Header::Sync => if m.payload is Bye {
            head
        } else {
            head + payload_bytes(m.payload, false)
        },
    }
}

/// Whether a message can be written: its neighborhood fits in five bits, and a
/// bye goes with a sync header only.
pub open spec fn message_writable(m: MessageView) -> bool {
    &&& m.neighborhood <= 31
    &&& m.payload is Bye ==> m.header is Sync
}

/// Writes a regular swarm message as bytes.
pub fn message_to_bytes(msg: Message) -> (r: Vec<u8>)
    requires
        message_writable(msg@),
    ensures
        r@ == message_bytes(msg@),
{
    let ghost m = msg@;
    let mut bytes: Vec<u8> = Vec::with_capacity(1033);
    let nhood = msg.neighborhood;
    let flags: u8 = match msg.header {
        Header::Block(_) => if matches!(msg.payload, Payload::Block(_, _, _)) {
            7
        } else {
            6
        },
        Header::Reconfigure(_, _) => if matches!(msg.payload, Payload::Reconfigure(_, _)) {
            5
        } else {
            4
        },
        Header::Sync => if matches!(msg.payload, Payload::Bye) {
            2
        } else {
            0
        },
    };
    assert(nhood | (flags << 5u8) == nhood + flags * 32) by (bit_vector)
        requires
            nhood <= 31,
            flags <= 7,
    ;
    bytes.push(nhood | (flags << 5));
    put_u32(&mut bytes, msg.swarm_time);
    let ghost head = bytes@;
    let mut block_id_inserted = false;
    match msg.header {
        Header::Block(block_id) => {
            put_u64(&mut bytes, block_id);
            block_id_inserted = true;
        },
        Header::Reconfigure(conf_id, gnome_id) => {
            bytes.push(conf_id);
            put_u64(&mut bytes, gnome_id);
        },
        Header::Sync => {
            if matches!(msg.payload, Payload::Bye) {
                return bytes;
            }
        },
    }
    let ghost before_payload = bytes@;
    match msg.payload {
        Payload::KeepAlive(bandwith) => {
            put_u64(&mut bytes, bandwith);
        },
        Payload::Bye => {},
        Payload::Reconfigure(signature, config) => {
            let content = config.content_bytes();
            push_all(&mut bytes, content.as_slice());
            bytes.push(signature.header_byte());
            let sig = signature.bytes();
            push_all(&mut bytes, sig.as_slice());
        },
        Payload::Block(block_id, signature, data) => {
            if !block_id_inserted {
                put_u64(&mut bytes, block_id);
            }
            put_u64(&mut bytes, signature.gnome_id());
            bytes.push(signature.header_byte());
            let sig = signature.bytes();
            push_all(&mut bytes, sig.as_slice());
            push_all(&mut bytes, data.as_slice());
        },
    }
    assert(bytes@ =~= before_payload + payload_bytes(m.payload, block_id_inserted));
    bytes
}

/// Whether a configuration is read back as written, in a reconfiguration by
/// `gnome`: a cast configuration or key insertion by that gnome (the key 270
/// bytes long), or the end of a cast.
pub open spec fn configuration_readable(cfg: ConfigurationView, gnome: u64) -> bool {
    match cfg {
        ConfigurationView::StartBroadcast(g, _) => g == gnome,
        ConfigurationView::ChangeBroadcastOrigin(g, _) => g == gnome,
        ConfigurationView::EndBroadcast(_) => true,
        ConfigurationView::StartMulticast(g, _) => g == gnome,
        ConfigurationView::ChangeMulticastOrigin(g, _) => g == gnome,
        ConfigurationView::EndMulticast(_) => true,
        ConfigurationView::InsertPubkey(g, key) => g == gnome && key.len() == crate::messages::PUBKEY_LEN,
        _ => false,
    }
}

/// Whether a message is read back from its bytes as it was written: its
/// neighborhood fits in five bits, its header and payload go together (a sync
/// with a keep-alive or bye; a block header with a keep-alive or the block it
/// names; a reconfiguration header with a keep-alive or a configuration of its
/// tag, signed by its gnome), and signatures have the lengths the format reads.
pub open spec fn message_roundtrips(m: MessageView) -> bool {
    &&& m.neighborhood < 32
    &&& match m.header {
        Header::Sync => m.payload is KeepAlive || m.payload is Bye,
        Header::Block(block_id) => match m.payload {
            PayloadView::KeepAlive(_) => true,
            PayloadView::Block(b, sig, _) => b == block_id && crate::messages::signature_well_sized(sig),
            _ => false,
        },
        Header::Reconfigure(tag, gnome) => match m.payload {
            PayloadView::KeepAlive(_) => true,
            PayloadView::Reconfigure(sig, cfg) => tag == configuration_tag(cfg) && signer(sig)
                == gnome && crate::messages::signature_well_sized(sig) && configuration_readable(
                cfg,
                gnome,
            ),
            _ => false,
        },
    }
}

/// A well-sized signature is read back from its kind byte and bytes.
proof fn lemma_signature_roundtrip(b: Seq<u8>, idx: int, sig: SignatureView)
    requires
        crate::messages::signature_well_sized(sig),
        0 <= idx,
        idx + 1 + signature_bytes(sig).len() <= b.len(),
        b.subrange(idx, idx + 1 + signature_bytes(sig).len()) == seq![signature_header_byte(sig)]
            + signature_bytes(sig),
    ensures
        decode_signature(b, idx, signer(sig)) == Some((sig, idx + 1 + signature_bytes(sig).len())),
{
    let w = seq![signature_header_byte(sig)] + signature_bytes(sig);
    assert(b[idx] == w[0]);
    match sig {
        SignatureView::Regular(g, s) => {
            assert(b.subrange(idx + 1, idx + 257) =~= s) by {
                assert forall|k: int| 0 <= k < 256 implies b.subrange(idx + 1, idx + 257)[k] == s[k] by {
                    assert(b[idx + 1 + k] == w[1 + k]);
                }
            }
        },
        SignatureView::Extended(g, key, s) => {
            assert(b.subrange(idx + 1, idx + 271) =~= key) by {
                assert forall|k: int| 0 <= k < 270 implies b.subrange(idx + 1, idx + 271)[k] == key[k] by {
                    assert(b[idx + 1 + k] == w[1 + k]);
                }
            }
            assert(b.subrange(idx + 271, idx + 527) =~= s) by {
                assert forall|k: int| 0 <= k < 256 implies b.subrange(idx + 271, idx + 527)[k] == s[k] by {
                    assert(b[idx + 271 + k] == w[271 + k]);
                }
            }
        },
    }
}

/// The eight bytes of `v` at offset `i` of `b` are read back as `v`.
proof fn lemma_u64_at(b: Seq<u8>, i: int, v: u64)
    requires
        0 <= i,
        i + 8 <= b.len(),
        b.subrange(i, i + 8) == u64_bytes(v),
    ensures
        be64_at(b, i) == v,
{
    lemma_u64_roundtrip(v);
}

/// The first byte of a message tells its neighborhood and flags back.
proof fn lemma_first_byte(nb: u8, flags: u8)
    requires
        nb < 32,
        flags <= 7,
    ensures
        ((nb + flags * 32) as u8) % 32 == nb,
        (((nb + flags * 32) as u8) / 32) % 4 == flags % 4,
        ((nb + flags * 32) as u8) >= 128 <==> flags >= 4,
{
    assert(((nb + flags * 32) as u8) % 32 == nb && (((nb + flags * 32) as u8) / 32) % 4 == flags % 4
        && (((nb + flags * 32) as u8) >= 128 <==> flags >= 4)) by (bit_vector)
        requires
            nb < 32,
            flags <= 7,
    ;
}

/// The first five bytes of a message are read back as its neighborhood, flags
/// and swarm time.
proof fn lemma_message_head(m: MessageView)
    requires
        m.neighborhood < 32,
    ensures
        message_bytes(m).len() >= 5,
        message_bytes(m)[0] % 32 == m.neighborhood,
        (message_bytes(m)[0] / 32) % 4 == message_flags(m) % 4,
        message_bytes(m)[0] >= 128 <==> message_flags(m) >= 4,
        be32(message_bytes(m).subrange(1, 5)) as u32 == m.swarm_time,
{
    let b = message_bytes(m);
    lemma_first_byte(m.neighborhood, message_flags(m));
    assert(b.subrange(1, 5) =~= u32_bytes(m.swarm_time));
    lemma_u32_roundtrip(m.swarm_time);
}

/// A block message is read back from its bytes.
#[verifier::spinoff_prover]
#[verifier::rlimit(40)]
proof fn lemma_block_roundtrip(m: MessageView)
    requires
        message_roundtrips(m),
        m.header is Block,
    ensures
        decode_regular(message_bytes(m)) == Some(m),
{
    let b = message_bytes(m);
    let block_id = m.header->Block_0;
    lemma_message_head(m);
    let head = seq![b[0]] + u32_bytes(m.swarm_time);
    assert(b.subrange(5, 13) =~= u64_bytes(block_id));
    lemma_u64_at(b, 5, block_id);
    match m.payload {
        PayloadView::KeepAlive(bw) => {
            assert(b.subrange(13, 21) =~= u64_bytes(bw));
            lemma_u64_at(b, 13, bw);
        },
        PayloadView::Block(_, sig, data) => {
            let g = signer(sig);
            let sb = seq![signature_header_byte(sig)] + signature_bytes(sig);
            assert(b =~= head + u64_bytes(block_id) + u64_bytes(g) + sb + data);
            assert(b.subrange(13, 21) =~= u64_bytes(g));
            lemma_u64_at(b, 13, g);
            let end: int = 21 + sb.len() as int;
            assert(b.subrange(21, end) =~= sb);
            lemma_signature_roundtrip(b, 21, sig);
            assert(b.subrange(end, b.len() as int) =~= data);
        },
        _ => {},
    }
}

/// A reconfiguration message is read back from its bytes.
#[verifier::spinoff_prover]
#[verifier::rlimit(40)]
proof fn lemma_reconfigure_roundtrip(m: MessageView)
    requires
        message_roundtrips(m),
        m.header is Reconfigure,
    ensures
        decode_regular(message_bytes(m)) == Some(m),
{
    let b = message_bytes(m);
    let tag = m.header->Reconfigure_0;
    let gnome = m.header->Reconfigure_1;
    lemma_message_head(m);
    let head = seq![b[0]] + u32_bytes(m.swarm_time);
    assert(b[5] == tag);
    assert(b.subrange(6, 14) =~= u64_bytes(gnome));
    lemma_u64_at(b, 6, gnome);
    match m.payload {
        PayloadView::KeepAlive(bw) => {
            assert(b.subrange(14, 22) =~= u64_bytes(bw));
            lemma_u64_at(b, 14, bw);
        },
        PayloadView::Reconfigure(sig, cfg) => {
            let content = configuration_content(cfg);
            let sb = seq![signature_header_byte(sig)] + signature_bytes(sig);
            assert(b =~= head + seq![tag] + u64_bytes(gnome) + content + sb);
            let next: int = 14 + content.len() as int;
            match cfg {
                ConfigurationView::InsertPubkey(_, key) => {
                    assert(b.subrange(14, 284) =~= key);
                },
                _ => {
                    assert(b[14] == content[0]);
                },
            }
            assert(decode_configuration(b, 5, gnome) == Some((cfg, next)));
            assert(b.subrange(next, next + sb.len() as int) =~= sb);
            lemma_signature_roundtrip(b, next, sig);
        },
        _ => {},
    }
}

/// A message is read back from its bytes as it was written, where its header
/// and payload go together as `message_roundtrips` says.
pub proof fn lemma_message_roundtrip(m: MessageView)
    requires
        message_roundtrips(m),
    ensures
        decode_regular(message_bytes(m)) == Some(m),
{
    match m.header {
        Header::Sync => {
            let b = message_bytes(m);
            lemma_message_head(m);
            if let PayloadView::KeepAlive(bw) = m.payload {
                assert(b.subrange(5, 13) =~= u64_bytes(bw));
                lemma_u64_at(b, 5, bw);
            }
        },
        Header::Block(_) => lemma_block_roundtrip(m),
        Header::Reconfigure(_, _) => lemma_reconfigure_roundtrip(m),
    }
}

/// The cast that a datagram stands for: its first byte's two high bits tell
/// the kind (01 unicast, 10 multicast, 11 broadcast), the second byte is the
/// cast id, the rest the data; `None` where the high bits are 00.
pub open spec fn decode_cast(b: Seq<u8>) -> Option<crate::messages::CastMessageView> {
    let kind_bits = b[0] / 64;
    if kind_bits == 0 {
        None
    } else {
        Some(
            crate::messages::CastMessageView {
                kind: if kind_bits == 1 {
                    CastKind::Unicast
                } else if kind_bits == 2 {
                    CastKind::Multicast
                } else {
                    CastKind::Broadcast
                },
                id: b[1],
                data: b.subrange(2, b.len() as int),
            },
        )
    }
}

/// Reads a cast from a whole datagram, its first byte included.
pub fn bytes_to_cast_message(bytes: &[u8]) -> (r: Result<CastMessage, ConversionError>)
    requires
        bytes@.len() >= 2,
    ensures
        decode_cast(bytes@) is None ==> r == Err::<CastMessage, ConversionError>(ConversionError),
        decode_cast(bytes@) matches Some(c) ==> r matches Ok(m) && m@ == c,
{
    let dgram_header = bytes[0];
    let c_id = bytes[1];
    let data = copy_range(bytes, 2, bytes.len());
    assert(dgram_header & 0b11000000 == (dgram_header / 64) * 64) by (bit_vector);
    if dgram_header & 0b11000000 == 192 {
        Ok(CastMessage { kind: CastKind::Broadcast, id: c_id, data })
    } else if dgram_header & 0b11000000 == 128 {
        Ok(CastMessage { kind: CastKind::Multicast, id: c_id, data })
    } else if dgram_header & 0b11000000 == 64 {
        Ok(CastMessage { kind: CastKind::Unicast, id: c_id, data })
    } else {
        Err(ConversionError)
    }
}

/// The bytes of a neighbor's settings: NAT byte, port, rule byte, port step,
/// then the address's octets.
pub open spec fn swarm_settings_bytes(ns: SwarmNetworkSettingsView) -> Seq<u8> {
    seq![nat_byte(ns.nat)] + u16_bytes(ns.port) + seq![rule_byte(ns.rule), ns.delta as u8] + ns.ip
}

/// The settings read from `b`: NAT, port, rule and port step from the first
/// five bytes; the rest is the address where it is four or sixteen bytes long,
/// else the unspecified IPv4 address.
pub open spec fn decode_swarm_settings(b: Seq<u8>) -> SwarmNetworkSettingsView
    recommends
        b.len() >= 5,
{
    let rest = b.subrange(5, b.len() as int);
    SwarmNetworkSettingsView {
        ip: if rest.len() == 4 || rest.len() == 16 {
            rest
        } else {
            seq![0u8, 0u8, 0u8, 0u8]
        },
        port: be16(b[1], b[2]) as u16,
        nat: nat_from_byte(b[0]),
        rule: rule_from_byte(b[3]),
        delta: b[4] as i8,
    }
}

/// Appends a neighbor's settings to `bytes`.
pub fn insert_network_settings(bytes: &mut Vec<u8>, network_settings: SwarmNetworkSettings)
    ensures
        final(bytes)@ == old(bytes)@ + swarm_settings_bytes(network_settings@),
{
    let ghost start = bytes@;
    bytes.push(network_settings.nat_type.byte());
    put_u16(bytes, network_settings.pub_port);
    bytes.push(network_settings.port_allocation.0.byte());
    bytes.push(network_settings.port_allocation.1 as u8);
    match network_settings.pub_ip {
        IpAddr::V4(ip4) => push_all(bytes, ip4.as_slice()),
        IpAddr::V6(ip6) => push_all(bytes, ip6.as_slice()),
    }
    assert(bytes@ =~= start + swarm_settings_bytes(network_settings@));
}

/// Reads a neighbor's settings.
pub fn parse_network_settings(bytes: &[u8]) -> (r: SwarmNetworkSettings)
    requires
        bytes@.len() >= 5,
    ensures
        r@ == decode_swarm_settings(bytes@),
{
    let nat_type = Nat::from(bytes[0]);
    let pub_port = as_u16_be(&[bytes[1], bytes[2]]);
    let port_allocation_rule = PortAllocationRule::from(bytes[3]);
    let delta_port = bytes[4] as i8;
    let ip_bytes = copy_range(bytes, 5, bytes.len());
    let bytes_len = ip_bytes.len();
    let pub_ip = if bytes_len == 4 {
        let a = [ip_bytes[0], ip_bytes[1], ip_bytes[2], ip_bytes[3]];
        assert(a@ =~= ip_bytes@);
        IpAddr::V4(a)
    } else if bytes_len == 16 {
        let a = [
            ip_bytes[0],
            ip_bytes[1],
            ip_bytes[2],
            ip_bytes[3],
            ip_bytes[4],
            ip_bytes[5],
            ip_bytes[6],
            ip_bytes[7],
            ip_bytes[8],
            ip_bytes[9],
            ip_bytes[10],
            ip_bytes[11],
            ip_bytes[12],
            ip_bytes[13],
            ip_bytes[14],
            ip_bytes[15],
        ];
        assert(a@ =~= ip_bytes@);
        IpAddr::V6(a)
    } else {
        let a = [0u8, 0u8, 0u8, 0u8];
        assert(a@ =~= seq![0u8, 0u8, 0u8, 0u8]);
        IpAddr::V4(a)
    };
    SwarmNetworkSettings {
        pub_ip,
        pub_port,
        nat_type,
        port_allocation: (port_allocation_rule, delta_port),
    }
}

/// The bytes of a list of `u64`s, each big-endian.
pub open spec fn u64s_bytes(s: Seq<u64>) -> Seq<u8>
    decreases s.len(),
{
    if s.len() == 0 {
        seq![]
    } else {
        u64s_bytes(s.drop_last()) + u64_bytes(s.last())
    }
}

/// The byte of a flag: 1 for set, 0 for clear.
pub open spec fn bool_byte(b: bool) -> u8 {
    if b {
        1
    } else {
        0
    }
}

/// The bytes of a neighbor request: a tag byte (255 down to 246, or the
/// application's own tag), then its fields.
pub open spec fn request_bytes(r: NeighborRequestView) -> Seq<u8> {
    match r {
        NeighborRequestView::ListingRequest(st) => seq![255u8] + u32_bytes(st),
        NeighborRequestView::UnicastRequest(s, ids) => seq![254u8, s] + ids,
        NeighborRequestView::BlockRequest(c, ids) => seq![253u8, c] + u64s_bytes(ids),
        NeighborRequestView::ForwardConnectRequest(ns) => seq![252u8] + swarm_settings_bytes(ns),
        NeighborRequestView::ConnectRequest(id, g, ns) => seq![251u8, id] + u64_bytes(g)
            + swarm_settings_bytes(ns),
        NeighborRequestView::SwarmSyncRequest(a, b, c, d, e, h) => seq![
            250u8,
            bool_byte(a),
            bool_byte(b),
            bool_byte(c),
            bool_byte(d),
            bool_byte(e),
        ] + u64_bytes(h),
        NeighborRequestView::SubscribeRequest(b, c) => seq![249u8, bool_byte(b), c],
        NeighborRequestView::CreateNeighbor(g, name) => seq![248u8] + u64_bytes(g) + name,
        NeighborRequestView::SwarmJoinedInfo(name) => seq![247u8] + name,
        NeighborRequestView::AppSyncRequest(id, d) => seq![246u8, id] + d,
        NeighborRequestView::CustomRequest(id, d) => seq![id] + d,
    }
}

/// Appends the bytes of a list of `u64`s to `bytes`.
fn put_u64s(bytes: &mut Vec<u8>, values: &[u64])
    ensures
        final(bytes)@ == old(bytes)@ + u64s_bytes(values@),
{
    let ghost start = bytes@;
    let mut i: usize = 0;
    while i < values.len()
        invariant
            i <= values@.len(),
            bytes@ == start + u64s_bytes(values@.take(i as int)),
        decreases values@.len() - i,
    {
        put_u64(bytes, values[i]);
        assert(values@.take(i as int + 1).drop_last() =~= values@.take(i as int));
        i = i + 1;
        assert(bytes@ =~= start + u64s_bytes(values@.take(i as int)));
    }
    assert(values@.take(i as int) =~= values@);
}

/// Appends the bytes of a neighbor request to `bytes`.
pub fn neighbor_request_to_bytes(n_req: NeighborRequest, bytes: &mut Vec<u8>)
    ensures
        final(bytes)@ == old(bytes)@ + request_bytes(n_req@),
{
    let ghost start = bytes@;
    let ghost r = n_req@;
    match n_req {
        NeighborRequest::ListingRequest(st) => {
            bytes.push(255);
            put_u32(bytes, st);
        },
        NeighborRequest::UnicastRequest(swarm_id, cast_ids) => {
            bytes.push(254);
            bytes.push(swarm_id);
            push_all(bytes, cast_ids.as_slice());
        },
        NeighborRequest::BlockRequest(count, data) => {
            bytes.push(253);
            bytes.push(count);
            put_u64s(bytes, data.as_slice());
        },
        NeighborRequest::ForwardConnectRequest(network_settings) => {
            bytes.push(252);
            insert_network_settings(bytes, network_settings);
        },
        NeighborRequest::ConnectRequest(id, gnome_id, network_settings) => {
            bytes.push(251);
            bytes.push(id);
            put_u64(bytes, gnome_id);
            insert_network_settings(bytes, network_settings);
        },
        NeighborRequest::SwarmSyncRequest(
            sync_key_reg,
            sync_caps,
            sync_poli,
            sync_bcasts,
            sync_mcasts,
            app_data_hash,
        ) => {
            bytes.push(250);
            bytes.push(if sync_key_reg { 1 } else { 0 });
            bytes.push(if sync_caps { 1 } else { 0 });
            bytes.push(if sync_poli { 1 } else { 0 });
            bytes.push(if sync_bcasts { 1 } else { 0 });
            bytes.push(if sync_mcasts { 1 } else { 0 });
            put_u64(bytes, app_data_hash);
        },
        NeighborRequest::SubscribeRequest(is_bcast, cast_id) => {
            bytes.push(249);
            if is_bcast {
                bytes.push(1);
            } else {
                bytes.push(0);
            }
            bytes.push(cast_id);
        },
        NeighborRequest::CreateNeighbor(g_id, swarm_name) => {
            bytes.push(248);
            put_u64(bytes, g_id);
            push_all(bytes, swarm_name.as_slice());
        },
        NeighborRequest::SwarmJoinedInfo(swarm_name) => {
            bytes.push(247);
            push_all(bytes, swarm_name.as_slice());
        },
        NeighborRequest::AppSyncRequest(id, data) => {
            bytes.push(246);
            bytes.push(id);
            push_all(bytes, data.as_slice());
        },
        NeighborRequest::CustomRequest(id, data) => {
            bytes.push(id);
            push_all(bytes, data.as_slice());
        },
    }
    assert(bytes@ =~= start + request_bytes(r));
}

/// The neighbor request that `b` stands for, read by its tag byte; `None` where
/// the bytes run out, a unicast names more than 256 cast ids, or a block
/// request's count, read from its third byte, is above 128. A block request's
/// ids are read from the fourth byte on; the rest of its 128 ids, and of a
/// unicast's 256 cast ids, are zero. An application's request leaves out the
/// byte after its tag.
pub open spec fn decode_request(b: Seq<u8>) -> Option<NeighborRequestView> {
    let len = b.len() as int;
    if len < 1 {
        None
    } else {
        let tag = b[0];
        if tag == 255 {
            if len < 5 {
                None
            } else {
                Some(NeighborRequestView::ListingRequest(be32(b.subrange(1, 5)) as u32))
            }
        } else if tag == 254 {
            if len < 2 || len - 2 > 256 {
                None
            } else {
                Some(
                    NeighborRequestView::UnicastRequest(
                        b[1],
                        b.subrange(2, len) + Seq::new((256 - (len - 2)) as nat, |i: int| 0u8),
                    ),
                )
            }
        } else if tag == 253 {
            if len < 3 || b[2] > 128 || 3 + 8 * b[2] > len {
                None
            } else {
                Some(
                    NeighborRequestView::BlockRequest(
                        b[2],
                        Seq::new(
                            128,
                            |i: int|
                                if i < b[2] {
                                    be64_at(b, 3 + 8 * i)
                                } else {
                                    0u64
                                },
                        ),
                    ),
                )
            }
        } else if tag == 252 {
            if len < 6 {
                None
            } else {
                Some(NeighborRequestView::ForwardConnectRequest(decode_swarm_settings(b.subrange(1, len))))
            }
        } else if tag == 251 {
            if len < 15 {
                None
            } else {
                Some(
                    NeighborRequestView::ConnectRequest(
                        b[1],
                        be64_at(b, 2),
                        decode_swarm_settings(b.subrange(10, len)),
                    ),
                )
            }
        } else if tag == 250 {
            if len < 14 {
                None
            } else {
                Some(
                    NeighborRequestView::SwarmSyncRequest(
                        b[1] > 0,
                        b[2] > 0,
                        b[3] > 0,
                        b[4] > 0,
                        b[5] > 0,
                        be64_at(b, 6),
                    ),
                )
            }
        } else if tag == 249 {
            if len < 3 {
                None
            } else {
                Some(NeighborRequestView::SubscribeRequest(b[1] > 0, b[2]))
            }
        } else if tag == 248 {
            if len < 9 {
                None
            } else {
                Some(NeighborRequestView::CreateNeighbor(be64_at(b, 1), b.subrange(9, len)))
            }
        } else if tag == 247 {
            Some(NeighborRequestView::SwarmJoinedInfo(b.subrange(1, len)))
        } else if tag == 246 {
            if len < 2 {
                None
            } else {
                Some(NeighborRequestView::AppSyncRequest(b[1], b.subrange(2, len)))
            }
        } else {
            if len < 2 {
                None
            } else {
                Some(NeighborRequestView::CustomRequest(tag, b.subrange(2, len)))
            }
        }
    }
}

/// Reads a neighbor request.
pub fn bytes_to_neighbor_request(bytes: Vec<u8>) -> (r: NeighborRequest)
    requires
        decode_request(bytes@) is Some,
    ensures
        decode_request(bytes@) == Some(r@),
{
    let b = bytes.as_slice();
    let bytes_len = b.len();
    match b[0] {
        255 => {
            let st_value = as_u32_be(&[b[1], b[2], b[3], b[4]]);
            assert([b@[1], b@[2], b@[3], b@[4]]@ =~= b@.subrange(1, 5));
            NeighborRequest::ListingRequest(st_value)
        },
        254 => {
            let swarm_id = b[1];
            let mut cast_ids = [0u8; 256];
            let mut inserted: usize = 0;
            while inserted < bytes_len - 2
                invariant
                    bytes_len == b@.len(),
                    2 <= bytes_len,
                    bytes_len - 2 <= 256,
                    inserted <= bytes_len - 2,
                    cast_ids@.len() == 256,
                    forall|k: int| 0 <= k < inserted ==> cast_ids@[k] == b@[2 + k],
                    forall|k: int| inserted <= k < 256 ==> cast_ids@[k] == 0,
                decreases bytes_len - 2 - inserted,
            {
                cast_ids[inserted] = b[2 + inserted];
                inserted = inserted + 1;
            }
            assert(cast_ids@ =~= b@.subrange(2, bytes_len as int) + Seq::new(
                (256 - (bytes_len - 2)) as nat,
                |i: int| 0u8,
            ));
            NeighborRequest::UnicastRequest(swarm_id, cast_ids)
        },
        253 => {
            let count = b[2];
            let mut data = [0u64; 128];
            let mut i: usize = 0;
            while i < count as usize
                invariant
                    bytes_len == b@.len(),
                    count == b@[2],
                    count <= 128,
                    3 + 8 * count <= bytes_len,
                    i <= count,
                    data@.len() == 128,
                    forall|k: int| 0 <= k < i ==> data@[k] == be64_at(b@, 3 + 8 * k),
                    forall|k: int| i <= k < 128 ==> data@[k] == 0,
                decreases count - i,
            {
                data[i] = read_u64_at(b, 8 * i + 3);
                i = i + 1;
            }
            assert(data@ =~= Seq::new(
                128,
                |k: int|
                    if k < b@[2] {
                        be64_at(b@, 3 + 8 * k)
                    } else {
                        0u64
                    },
            ));
            NeighborRequest::BlockRequest(count, data)
        },
        252 => {
            let rest = copy_range(b, 1, bytes_len);
            let net_set = parse_network_settings(rest.as_slice());
            NeighborRequest::ForwardConnectRequest(net_set)
        },
        251 => {
            let id = b[1];
            let g_id = read_u64_at(b, 2);
            let rest = copy_range(b, 10, bytes_len);
            let net_set = parse_network_settings(rest.as_slice());
            NeighborRequest::ConnectRequest(id, g_id, net_set)
        },
        250 => {
            let app_data_hash = read_u64_at(b, 6);
            NeighborRequest::SwarmSyncRequest(
                b[1] > 0,
                b[2] > 0,
                b[3] > 0,
                b[4] > 0,
                b[5] > 0,
                app_data_hash,
            )
        },
        249 => NeighborRequest::SubscribeRequest(b[1] > 0, b[2]),
        248 => {
            let gnome_id = read_u64_at(b, 1);
            let swarm_name = copy_range(b, 9, bytes_len);
            NeighborRequest::CreateNeighbor(gnome_id, swarm_name)
        },
        247 => {
            let swarm_name = copy_range(b, 1, bytes_len);
            NeighborRequest::SwarmJoinedInfo(swarm_name)
        },
        246 => {
            let req_id = b[1];
            let dta = copy_range(b, 2, bytes_len);
            NeighborRequest::AppSyncRequest(req_id, dta)
        },
        other => {
            let dta = copy_range(b, 2, bytes_len);
            NeighborRequest::CustomRequest(other, dta)
        },
    }
}

/// The bytes of gnome ids with their keys: each id, then its key.
pub open spec fn key_pairs_bytes(pairs: Seq<(u64, Seq<u8>)>) -> Seq<u8>
    decreases pairs.len(),
{
    if pairs.len() == 0 {
        seq![]
    } else {
        key_pairs_bytes(pairs.drop_last()) + u64_bytes(pairs.last().0) + pairs.last().1
    }
}

/// The bytes of capabilities with their gnomes: each capability's byte, the
/// number of its gnomes in 8 bits, then their ids.
pub open spec fn cap_pairs_bytes(pairs: Seq<(u8, Seq<u64>)>) -> Seq<u8>
    decreases pairs.len(),
{
    if pairs.len() == 0 {
        seq![]
    } else {
        cap_pairs_bytes(pairs.drop_last()) + seq![pairs.last().0, pairs.last().1.len() as u8]
            + u64s_bytes(pairs.last().1)
    }
}

/// The bytes of cast ids with their origins: each cast id, then its origin.
pub open spec fn cast_pairs_bytes(pairs: Seq<(u8, u64)>) -> Seq<u8>
    decreases pairs.len(),
{
    if pairs.len() == 0 {
        seq![]
    } else {
        cast_pairs_bytes(pairs.drop_last()) + seq![pairs.last().0] + u64_bytes(pairs.last().1)
    }
}

/// The bytes of a swarm sync's state, after its tag.
pub open spec fn swarm_sync_bytes(i: SwarmSyncInfoView) -> Seq<u8> {
    u16_bytes(i.chill_phase) + u64_bytes(i.founder) + u32_bytes(i.swarm_time) + seq![i.swarm_type]
        + u64_bytes(i.app_data_hash) + seq![
        i.key_reg_size,
        i.caps_size,
        i.poli_size,
        i.bcasts_size,
        i.mcasts_size,
        bool_byte(i.more_pubkeys_incoming),
    ] + key_pairs_bytes(i.id_pubkey_pairs)
}

/// The bytes of a neighbor response: a tag byte (255 down to 241, or the
/// application's own tag), then its fields.
pub open spec fn response_bytes(r: NeighborResponseView) -> Seq<u8> {
    match r {
        NeighborResponseView::Listing(c, ids) => seq![255u8, c] + u64s_bytes(ids),
        NeighborResponseView::Unicast(s, c) => seq![254u8, s, c],
        NeighborResponseView::Block(b, d) => seq![253u8] + u64_bytes(b) + d,
        NeighborResponseView::ForwardConnectResponse(ns) => seq![252u8] + swarm_settings_bytes(ns),
        NeighborResponseView::ForwardConnectFailed => seq![251u8],
        NeighborResponseView::AlreadyConnected(id) => seq![250u8, id],
        NeighborResponseView::ConnectResponse(id, ns) => seq![249u8, id] + swarm_settings_bytes(ns),
        NeighborResponseView::SwarmSync(info) => seq![248u8] + swarm_sync_bytes(info),
        NeighborResponseView::Subscribed(b, c, o, _) => seq![247u8, bool_byte(b), c] + u64_bytes(o),
        NeighborResponseView::KeyRegistrySync(p, t, pairs) => seq![246u8, p, t] + key_pairs_bytes(
            pairs,
        ),
        NeighborResponseView::CapabilitySync(p, t, pairs) => seq![245u8, p, t] + cap_pairs_bytes(
            pairs,
        ),
        NeighborResponseView::PolicySync(p, t, raw) => seq![244u8, p, t] + raw,
        NeighborResponseView::BroadcastSync(p, t, pairs) => seq![243u8, p, t] + cast_pairs_bytes(
            pairs,
        ),
        NeighborResponseView::MulticastSync(p, t, pairs) => seq![242u8, p, t] + cast_pairs_bytes(
            pairs,
        ),
        NeighborResponseView::AppSync(s, c, p, t, d) => seq![241u8, s] + u16_bytes(c) + u16_bytes(p)
            + u16_bytes(t) + d,
        NeighborResponseView::CustomResponse(id, d) => seq![id] + d,
    }
}

/// Appends the bytes of gnome ids with their keys to `bytes`.
fn put_key_pairs(bytes: &mut Vec<u8>, pairs: &Vec<(u64, Vec<u8>)>)
    ensures
        final(bytes)@ == old(bytes)@ + key_pairs_bytes(key_pairs_view(pairs@)),
{
    let ghost start = bytes@;
    let ghost all = key_pairs_view(pairs@);
    let mut i: usize = 0;
    while i < pairs.len()
        invariant
            i <= pairs@.len(),
            all == key_pairs_view(pairs@),
            bytes@ == start + key_pairs_bytes(all.take(i as int)),
        decreases pairs@.len() - i,
    {
        let (g_id, pubkey) = &pairs[i];
        put_u64(bytes, *g_id);
        push_all(bytes, pubkey.as_slice());
        assert(all.take(i as int + 1).drop_last() =~= all.take(i as int));
        i = i + 1;
        assert(bytes@ =~= start + key_pairs_bytes(all.take(i as int)));
    }
    assert(all.take(i as int) =~= all);
}

/// Appends the bytes of capabilities with their gnomes to `bytes`.
fn put_cap_pairs(bytes: &mut Vec<u8>, pairs: &Vec<(u8, Vec<u64>)>)
    ensures
        final(bytes)@ == old(bytes)@ + cap_pairs_bytes(cap_pairs_view(pairs@)),
{
    let ghost start = bytes@;
    let ghost all = cap_pairs_view(pairs@);
    let mut i: usize = 0;
    while i < pairs.len()
        invariant
            i <= pairs@.len(),
            all == cap_pairs_view(pairs@),
            bytes@ == start + cap_pairs_bytes(all.take(i as int)),
        decreases pairs@.len() - i,
    {
        let (c_id, g_ids) = &pairs[i];
        bytes.push(*c_id);
        bytes.push(g_ids.len() as u8);
        put_u64s(bytes, g_ids.as_slice());
        assert(all.take(i as int + 1).drop_last() =~= all.take(i as int));
        i = i + 1;
        assert(bytes@ =~= start + cap_pairs_bytes(all.take(i as int)));
    }
    assert(all.take(i as int) =~= all);
}

/// Appends the bytes of cast ids with their origins to `bytes`.
fn put_cast_pairs(bytes: &mut Vec<u8>, pairs: &Vec<(u8, u64)>)
    ensures
        final(bytes)@ == old(bytes)@ + cast_pairs_bytes(pairs@),
{
    let ghost start = bytes@;
    let mut i: usize = 0;
    while i < pairs.len()
        invariant
            i <= pairs@.len(),
            bytes@ == start + cast_pairs_bytes(pairs@.take(i as int)),
        decreases pairs@.len() - i,
    {
        let (c_id, origin) = pairs[i];
        bytes.push(c_id);
        put_u64(bytes, origin);
        assert(pairs@.take(i as int + 1).drop_last() =~= pairs@.take(i as int));
        i = i + 1;
        assert(bytes@ =~= start + cast_pairs_bytes(pairs@.take(i as int)));
    }
    assert(pairs@.take(i as int) =~= pairs@);
}

/// Appends the bytes of a neighbor response to `bytes`.
pub fn neighbor_response_to_bytes(n_resp: NeighborResponse, bytes: &mut Vec<u8>)
    ensures
        final(bytes)@ == old(bytes)@ + response_bytes(n_resp@),
{
    let ghost start = bytes@;
    let ghost r = n_resp@;
    match n_resp {
        NeighborResponse::Listing(count, data) => {
            bytes.push(255);
            bytes.push(count);
            put_u64s(bytes, data.as_slice());
        },
        NeighborResponse::Unicast(swarm_id, cast_id) => {
            bytes.push(254);
            bytes.push(swarm_id);
            bytes.push(cast_id);
        },
        NeighborResponse::Block(b_id, data) => {
            bytes.push(253);
            put_u64(bytes, b_id);
            push_all(bytes, data.as_slice());
        },
        NeighborResponse::ForwardConnectResponse(network_settings) => {
            bytes.push(252);
            insert_network_settings(bytes, network_settings);
        },
        NeighborResponse::ForwardConnectFailed => {
            bytes.push(251);
        },
        NeighborResponse::AlreadyConnected(id) => {
            bytes.push(250);
            bytes.push(id);
        },
        NeighborResponse::ConnectResponse(id, network_settings) => {
            bytes.push(249);
            bytes.push(id);
            insert_network_settings(bytes, network_settings);
        },
        NeighborResponse::SwarmSync(info) => {
            bytes.push(248);
            put_u16(bytes, info.chill_phase);
            put_u64(bytes, info.founder);
            put_u32(bytes, info.swarm_time);
            bytes.push(info.swarm_type);
            put_u64(bytes, info.app_data_hash);
            bytes.push(info.key_reg_size);
            bytes.push(info.caps_size);
            bytes.push(info.poli_size);
            bytes.push(info.bcasts_size);
            bytes.push(info.mcasts_size);
            bytes.push(if info.more_pubkeys_incoming { 1 } else { 0 });
            put_key_pairs(bytes, &info.id_pubkey_pairs);
        },
        NeighborResponse::Subscribed(is_bcast, cast_id, origin_id, _source_opt) => {
            bytes.push(247);
            if is_bcast {
                bytes.push(1);
            } else {
                bytes.push(0);
            }
            bytes.push(cast_id);
            put_u64(bytes, origin_id);
        },
        NeighborResponse::KeyRegistrySync(part_no, total_parts, id_pubkey_pairs) => {
            bytes.push(246);
            bytes.push(part_no);
            bytes.push(total_parts);
            put_key_pairs(bytes, &id_pubkey_pairs);
        },
        NeighborResponse::CapabilitySync(part_no, total_parts, caps_ids_pairs) => {
            bytes.push(245);
            bytes.push(part_no);
            bytes.push(total_parts);
            put_cap_pairs(bytes, &caps_ids_pairs);
        },
        NeighborResponse::PolicySync(part_no, total_parts, pol_req_bytes) => {
            bytes.push(244);
            bytes.push(part_no);
            bytes.push(total_parts);
            push_all(bytes, pol_req_bytes.as_slice());
        },
        NeighborResponse::BroadcastSync(part_no, total_parts, cast_id_origin_pairs) => {
            bytes.push(243);
            bytes.push(part_no);
            bytes.push(total_parts);
            put_cast_pairs(bytes, &cast_id_origin_pairs);
        },
        NeighborResponse::MulticastSync(part_no, total_parts, cast_id_origin_pairs) => {
            bytes.push(242);
            bytes.push(part_no);
            bytes.push(total_parts);
            put_cast_pairs(bytes, &cast_id_origin_pairs);
        },
        NeighborResponse::AppSync(id, c_id, part_no, total, data) => {
            bytes.push(241);
            bytes.push(id);
            put_u16(bytes, c_id);
            put_u16(bytes, part_no);
            put_u16(bytes, total);
            push_all(bytes, data.as_slice());
        },
        NeighborResponse::CustomResponse(id, data) => {
            bytes.push(id);
            push_all(bytes, data.as_slice());
        },
    }
    assert(bytes@ =~= start + response_bytes(r));
}

/// The gnome ids with their 270-byte keys read from offset `idx` on, 278 bytes
/// each; `None` where the last one is cut short.
pub open spec fn key_pairs_from(b: Seq<u8>, idx: int) -> Option<Seq<(u64, Seq<u8>)>>
    decreases b.len() - idx,
{
    if idx < 0 || idx >= b.len() {
        Some(seq![])
    } else if idx + 278 > b.len() {
        None
    } else {
        match key_pairs_from(b, idx + 278) {
            None => None,
            Some(rest) => Some(seq![(be64_at(b, idx), b.subrange(idx + 8, idx + 278))] + rest),
        }
    }
}

/// The cast ids with their origins read from offset `idx` on, nine bytes each;
/// `None` where the last one is cut short.
pub open spec fn cast_pairs_from(b: Seq<u8>, idx: int) -> Option<Seq<(u8, u64)>>
    decreases b.len() - idx,
{
    if idx < 0 || idx >= b.len() {
        Some(seq![])
    } else if idx + 9 > b.len() {
        None
    } else {
        match cast_pairs_from(b, idx + 9) {
            None => None,
            Some(rest) => Some(seq![(b[idx], be64_at(b, idx + 1))] + rest),
        }
    }
}

/// The capabilities with their gnomes read from offset `idx` on: a capability
/// byte, a count, and that many ids; `None` where one is cut short.
pub open spec fn cap_groups_from(b: Seq<u8>, idx: int) -> Option<Seq<(u8, Seq<u64>)>>
    decreases b.len() - idx,
{
    if idx < 0 || idx >= b.len() {
        Some(seq![])
    } else if idx + 2 + 8 * b[idx + 1] > b.len() {
        None
    } else {
        let n = b[idx + 1];
        match cap_groups_from(b, idx + 2 + 8 * n) {
            None => None,
            Some(rest) => Some(
                seq![(b[idx], Seq::new(n as nat, |k: int| be64_at(b, idx + 2 + 8 * k)))] + rest,
            ),
        }
    }
}

/// The swarm sync state read from the bytes of a swarm sync response.
pub open spec fn swarm_sync_from(b: Seq<u8>, pairs: Seq<(u64, Seq<u8>)>) -> SwarmSyncInfoView {
    SwarmSyncInfoView {
        chill_phase: be16(b[1], b[2]) as u16,
        founder: be64_at(b, 3),
        swarm_time: be32(b.subrange(11, 15)) as u32,
        swarm_type: b[15],
        app_data_hash: be64_at(b, 16),
        key_reg_size: b[24],
        caps_size: b[25],
        poli_size: b[26],
        bcasts_size: b[27],
        mcasts_size: b[28],
        more_pubkeys_incoming: b[29] != 0,
        id_pubkey_pairs: pairs,
    }
}

/// The neighbor response that `b` stands for, read by its tag byte; `None`
/// where the bytes run out or a list's last entry is cut short. A subscription
/// is read without the gnome the data comes through; policies are kept as the
/// bytes that follow the part numbers.
pub open spec fn decode_response(b: Seq<u8>) -> Option<NeighborResponseView> {
    let len = b.len() as int;
    if len < 1 {
        None
    } else {
        let tag = b[0];
        if tag == 255 {
            if len < 2 || 2 + 8 * b[1] > len {
                None
            } else {
                Some(
                    NeighborResponseView::Listing(
                        b[1],
                        Seq::new(b[1] as nat, |i: int| be64_at(b, 2 + 8 * i)),
                    ),
                )
            }
        } else if tag == 254 {
            if len < 3 {
                None
            } else {
                Some(NeighborResponseView::Unicast(b[1], b[2]))
            }
        } else if tag == 253 {
            if len < 9 {
                None
            } else {
                Some(NeighborResponseView::Block(be64_at(b, 1), b.subrange(9, len)))
            }
        } else if tag == 252 {
            if len < 6 {
                None
            } else {
                Some(NeighborResponseView::ForwardConnectResponse(decode_swarm_settings(b.subrange(1, len))))
            }
        } else if tag == 251 {
            Some(NeighborResponseView::ForwardConnectFailed)
        } else if tag == 250 {
            if len < 2 {
                None
            } else {
                Some(NeighborResponseView::AlreadyConnected(b[1]))
            }
        } else if tag == 249 {
            if len < 7 {
                None
            } else {
                Some(NeighborResponseView::ConnectResponse(b[1], decode_swarm_settings(b.subrange(2, len))))
            }
        } else if tag == 248 {
            if len < 30 {
                None
            } else {
                match key_pairs_from(b, 30) {
                    None => None,
                    Some(pairs) => Some(NeighborResponseView::SwarmSync(swarm_sync_from(b, pairs))),
                }
            }
        } else if tag == 247 {
            if len < 11 {
                None
            } else {
                Some(NeighborResponseView::Subscribed(b[1] > 0, b[2], be64_at(b, 3), None))
            }
        } else if tag == 246 {
            if len < 3 {
                None
            } else {
                match key_pairs_from(b, 3) {
                    None => None,
                    Some(pairs) => Some(NeighborResponseView::KeyRegistrySync(b[1], b[2], pairs)),
                }
            }
        } else if tag == 245 {
            if len < 3 {
                None
            } else {
                match cap_groups_from(b, 3) {
                    None => None,
                    Some(groups) => Some(NeighborResponseView::CapabilitySync(b[1], b[2], groups)),
                }
            }
        } else if tag == 244 {
            if len < 3 {
                None
            } else {
                Some(NeighborResponseView::PolicySync(b[1], b[2], b.subrange(3, len)))
            }
        } else if tag == 243 || tag == 242 {
            if len < 3 {
                None
            } else {
                match cast_pairs_from(b, 3) {
                    None => None,
                    Some(pairs) => if tag == 243 {
                        Some(NeighborResponseView::BroadcastSync(b[1], b[2], pairs))
                    } else {
                        Some(NeighborResponseView::MulticastSync(b[1], b[2], pairs))
                    },
                }
            }
        } else if tag == 241 {
            if len < 8 {
                None
            } else {
                Some(
                    NeighborResponseView::AppSync(
                        b[1],
                        be16(b[2], b[3]) as u16,
                        be16(b[4], b[5]) as u16,
                        be16(b[6], b[7]) as u16,
                        b.subrange(8, len),
                    ),
                )
            }
        } else {
            Some(NeighborResponseView::CustomResponse(tag, b.subrange(1, len)))
        }
    }
}

/// Reads the gnome ids with their keys from offset `start` on.
fn read_key_pairs(b: &[u8], start: usize) -> (r: Vec<(u64, Vec<u8>)>)
    requires
        key_pairs_from(b@, start as int) is Some,
    ensures
        key_pairs_from(b@, start as int) == Some(key_pairs_view(r@)),
{
    let mut pairs: Vec<(u64, Vec<u8>)> = Vec::new();
    let mut idx = start;
    let ghost all = key_pairs_from(b@, start as int)->0;
    while idx < b.len()
        invariant
            start <= idx,
            key_pairs_from(b@, idx as int) is Some,
            all == key_pairs_from(b@, start as int)->0,
            all == key_pairs_view(pairs@) + key_pairs_from(b@, idx as int)->0,
        decreases b@.len() - idx,
    {
        let g = read_u64_at(b, idx);
        let key = copy_range(b, idx + 8, idx + 278);
        let ghost before = key_pairs_view(pairs@);
        let ghost rest = key_pairs_from(b@, idx + 278)->0;
        pairs.push((g, key));
        assert(key_pairs_view(pairs@) =~= before.push((g, key@)));
        assert(before + (seq![(g, key@)] + rest) =~= before.push((g, key@)) + rest);
        idx = idx + 278;
    }
    assert(key_pairs_view(pairs@) + seq![] =~= key_pairs_view(pairs@));
    pairs
}

/// Reads the cast ids with their origins from offset `start` on.
fn read_cast_pairs(b: &[u8], start: usize) -> (r: Vec<(u8, u64)>)
    requires
        cast_pairs_from(b@, start as int) is Some,
    ensures
        cast_pairs_from(b@, start as int) == Some(r@),
{
    let mut pairs: Vec<(u8, u64)> = Vec::new();
    let mut idx = start;
    let ghost all = cast_pairs_from(b@, start as int)->0;
    while idx < b.len()
        invariant
            start <= idx,
            cast_pairs_from(b@, idx as int) is Some,
            all == cast_pairs_from(b@, start as int)->0,
            all == pairs@ + cast_pairs_from(b@, idx as int)->0,
        decreases b@.len() - idx,
    {
        let c_id = b[idx];
        let origin = read_u64_at(b, idx + 1);
        let ghost before = pairs@;
        let ghost rest = cast_pairs_from(b@, idx + 9)->0;
        pairs.push((c_id, origin));
        assert(before + (seq![(c_id, origin)] + rest) =~= pairs@ + rest);
        idx = idx + 9;
    }
    assert(pairs@ + seq![] =~= pairs@);
    pairs
}

/// Reads the capabilities with their gnomes from offset `start` on.
fn read_cap_groups(b: &[u8], start: usize) -> (r: Vec<(u8, Vec<u64>)>)
    requires
        cap_groups_from(b@, start as int) is Some,
    ensures
        cap_groups_from(b@, start as int) == Some(cap_pairs_view(r@)),
{
    let mut groups: Vec<(u8, Vec<u64>)> = Vec::new();
    let mut idx = start;
    let ghost all = cap_groups_from(b@, start as int)->0;
    while idx < b.len()
        invariant
            start <= idx,
            cap_groups_from(b@, idx as int) is Some,
            all == cap_groups_from(b@, start as int)->0,
            all == cap_pairs_view(groups@) + cap_groups_from(b@, idx as int)->0,
        decreases b@.len() - idx,
    {
        let cap_id = b[idx];
        let ids_len = b[idx + 1];
        let ghost first = idx + 2;
        let mut ids: Vec<u64> = Vec::with_capacity(ids_len as usize);
        let mut k: u8 = 0;
        let mut pos = idx + 2;
        while k < ids_len
            invariant
                k <= ids_len,
                pos == first + 8 * k,
                first + 8 * ids_len <= b@.len(),
                b@.len() <= usize::MAX,
                ids@.len() == k,
                forall|j: int| 0 <= j < k ==> ids@[j] == be64_at(b@, first + 8 * j),
            decreases ids_len - k,
        {
            ids.push(read_u64_at(b, pos));
            assert(pos + 8 <= first + 8 * ids_len);
            pos = pos + 8;
            k = k + 1;
        }
        assert(ids@ =~= Seq::new(ids_len as nat, |j: int| be64_at(b@, idx + 2 + 8 * j)));
        let ghost before = cap_pairs_view(groups@);
        let ghost rest = cap_groups_from(b@, pos as int)->0;
        groups.push((cap_id, ids));
        assert(cap_pairs_view(groups@) =~= before.push((cap_id, ids@)));
        assert(before + (seq![(cap_id, ids@)] + rest) =~= before.push((cap_id, ids@)) + rest);
        idx = pos;
    }
    assert(cap_pairs_view(groups@) + seq![] =~= cap_pairs_view(groups@));
    groups
}

/// Reads a neighbor response.
pub fn bytes_to_neighbor_response(bytes: Vec<u8>) -> (r: NeighborResponse)
    requires
        decode_response(bytes@) is Some,
    ensures
        decode_response(bytes@) == Some(r@),
{
    let b = bytes.as_slice();
    let bytes_len = b.len();
    let response_type = b[0];
    match response_type {
        255 => {
            let count = b[1];
            let mut data: Vec<u64> = Vec::new();
            let mut i: usize = 0;
            while i < count as usize
                invariant
                    bytes_len == b@.len(),
                    count == b@[1],
                    2 + 8 * count <= bytes_len,
                    i <= count,
                    data@.len() == i,
                    forall|k: int| 0 <= k < i ==> data@[k] == be64_at(b@, 2 + 8 * k),
                decreases count - i,
            {
                data.push(read_u64_at(b, 8 * i + 2));
                i = i + 1;
            }
            assert(data@ =~= Seq::new(count as nat, |k: int| be64_at(b@, 2 + 8 * k)));
            NeighborResponse::Listing(count, data)
        },
        254 => NeighborResponse::Unicast(b[1], b[2]),
        253 => {
            let b_id = read_u64_at(b, 1);
            let data = copy_range(b, 9, bytes_len);
            NeighborResponse::Block(b_id, data)
        },
        252 => {
            let rest = copy_range(b, 1, bytes_len);
            NeighborResponse::ForwardConnectResponse(parse_network_settings(rest.as_slice()))
        },
        251 => NeighborResponse::ForwardConnectFailed,
        250 => NeighborResponse::AlreadyConnected(b[1]),
        249 => {
            let id = b[1];
            let rest = copy_range(b, 2, bytes_len);
            NeighborResponse::ConnectResponse(id, parse_network_settings(rest.as_slice()))
        },
        248 => {
            let chill_phase = as_u16_be(&[b[1], b[2]]);
            let founder = read_u64_at(b, 3);
            let swarm_time = as_u32_be(&[b[11], b[12], b[13], b[14]]);
            assert([b@[11], b@[12], b@[13], b@[14]]@ =~= b@.subrange(11, 15));
            let swarm_type = b[15];
            let app_data_hash = read_u64_at(b, 16);
            let id_pubkey_pairs = read_key_pairs(b, 30);
            NeighborResponse::SwarmSync(
                SwarmSyncInfo {
                    chill_phase,
                    founder,
                    swarm_time,
                    swarm_type,
                    app_data_hash,
                    key_reg_size: b[24],
                    caps_size: b[25],
                    poli_size: b[26],
                    bcasts_size: b[27],
                    mcasts_size: b[28],
                    more_pubkeys_incoming: b[29] != 0,
                    id_pubkey_pairs,
                },
            )
        },
        247 => {
            let is_bcast = b[1] > 0;
            let cast_id = b[2];
            let origin_id = read_u64_at(b, 3);
            NeighborResponse::Subscribed(is_bcast, cast_id, origin_id, None)
        },
        246 => {
            let part_no = b[1];
            let total_parts = b[2];
            let id_pubkey_pairs = read_key_pairs(b, 3);
            NeighborResponse::KeyRegistrySync(part_no, total_parts, id_pubkey_pairs)
        },
        245 => {
            let part_no = b[1];
            let total_parts = b[2];
            let cap_ids_pairs = read_cap_groups(b, 3);
            NeighborResponse::CapabilitySync(part_no, total_parts, cap_ids_pairs)
        },
        244 => {
            let part_no = b[1];
            let total_parts = b[2];
            let pol_req_bytes = copy_range(b, 3, bytes_len);
            NeighborResponse::PolicySync(part_no, total_parts, pol_req_bytes)
        },
        243 => {
            let cid_origin_pairs = read_cast_pairs(b, 3);
            NeighborResponse::BroadcastSync(b[1], b[2], cid_origin_pairs)
        },
        242 => {
            let cid_origin_pairs = read_cast_pairs(b, 3);
            NeighborResponse::MulticastSync(b[1], b[2], cid_origin_pairs)
        },
        241 => {
            let s_type = b[1];
            let c_id = as_u16_be(&[b[2], b[3]]);
            let part_no = as_u16_be(&[b[4], b[5]]);
            let total = as_u16_be(&[b[6], b[7]]);
            let data = copy_range(b, 8, bytes_len);
            NeighborResponse::AppSync(s_type, c_id, part_no, total, data)
        },
        other => {
            let data = copy_range(b, 1, bytes_len);
            NeighborResponse::CustomResponse(other, data)
        },
    }
}

/// A neighbor's settings are read back from their bytes.
pub proof fn lemma_settings_roundtrip(ns: SwarmNetworkSettingsView)
    requires
        ns.ip.len() == 4 || ns.ip.len() == 16,
    ensures
        decode_swarm_settings(swarm_settings_bytes(ns)) == ns,
{
    let b = swarm_settings_bytes(ns);
    lemma_u16_roundtrip(ns.port);
    let d = ns.delta;
    assert((d as u8) as i8 == d) by (bit_vector);
    assert(b.subrange(5, b.len() as int) =~= ns.ip);
    crate::networking::lemma_nat_byte_roundtrip(ns.nat);
    crate::networking::lemma_rule_byte_roundtrip(ns.rule);
}

/// The bytes of a list of `u64`s are eight to each, in order.
proof fn lemma_u64s_bytes(s: Seq<u64>)
    ensures
        u64s_bytes(s).len() == 8 * s.len(),
        forall|i: int| 0 <= i < s.len() ==> #[trigger] u64s_bytes(s).subrange(8 * i, 8 * i + 8) == u64_bytes(s[i]),
    decreases s.len(),
{
    if s.len() > 0 {
        let p = s.drop_last();
        lemma_u64s_bytes(p);
        let b = u64s_bytes(s);
        assert(b == u64s_bytes(p) + u64_bytes(s.last()));
        assert forall|i: int| 0 <= i < s.len() implies #[trigger] u64s_bytes(s).subrange(8 * i, 8 * i + 8) == u64_bytes(s[i]) by {
            if i < s.len() - 1 {
                assert(u64s_bytes(p).subrange(8 * i, 8 * i + 8) == u64_bytes(p[i]));
                assert(b.subrange(8 * i, 8 * i + 8) =~= u64s_bytes(p).subrange(8 * i, 8 * i + 8));
            } else {
                assert(b.subrange(8 * i, 8 * i + 8) =~= u64_bytes(s.last()));
            }
        }
    }
}

/// The `u64`s written at offset `start` of `b` are read back.
proof fn lemma_u64s_read_back(b: Seq<u8>, start: int, s: Seq<u64>)
    requires
        0 <= start,
        start + 8 * s.len() <= b.len(),
        b.subrange(start, start + 8 * s.len()) == u64s_bytes(s),
    ensures
        Seq::new(s.len(), |i: int| be64_at(b, start + 8 * i)) == s,
{
    lemma_u64s_bytes(s);
    assert forall|i: int| 0 <= i < s.len() implies be64_at(b, start + 8 * i) == s[i] by {
        assert(b.subrange(start + 8 * i, start + 8 * i + 8) =~= u64s_bytes(s).subrange(8 * i, 8 * i + 8));
        assert(u64s_bytes(s).subrange(8 * i, 8 * i + 8) == u64_bytes(s[i]));
        lemma_u64_roundtrip(s[i]);
    }
    assert(Seq::new(s.len(), |i: int| be64_at(b, start + 8 * i)) =~= s);
}

/// The bytes of gnome ids with their keys begin with the first pair.
proof fn lemma_key_pairs_front(pairs: Seq<(u64, Seq<u8>)>)
    requires
        pairs.len() > 0,
    ensures
        key_pairs_bytes(pairs) == u64_bytes(pairs[0].0) + pairs[0].1 + key_pairs_bytes(pairs.drop_first()),
    decreases pairs.len(),
{
    if pairs.len() > 1 {
        lemma_key_pairs_front(pairs.drop_last());
        assert(pairs.drop_last().drop_first() =~= pairs.drop_first().drop_last());
        assert(pairs.drop_first().last() == pairs.last());
    } else {
        assert(pairs.drop_last() =~= Seq::<(u64, Seq<u8>)>::empty());
        assert(pairs.drop_first() =~= Seq::<(u64, Seq<u8>)>::empty());
    }
}

/// Whether every key in a list of gnome ids with keys is 270 bytes long.
pub open spec fn keys_well_sized(pairs: Seq<(u64, Seq<u8>)>) -> bool {
    forall|i: int| 0 <= i < pairs.len() ==> #[trigger] pairs[i].1.len() == crate::messages::PUBKEY_LEN
}

/// Gnome ids with 270-byte keys, written at offset `idx` and running to the end
/// of `b`, are read back.
proof fn lemma_key_pairs_read_back(b: Seq<u8>, idx: int, pairs: Seq<(u64, Seq<u8>)>)
    requires
        0 <= idx <= b.len(),
        keys_well_sized(pairs),
        b.subrange(idx, b.len() as int) == key_pairs_bytes(pairs),
    ensures
        key_pairs_from(b, idx) == Some(pairs),
    decreases pairs.len(),
{
    let w = b.subrange(idx, b.len() as int);
    if pairs.len() == 0 {
        assert(w.len() == 0);
    } else {
        lemma_key_pairs_front(pairs);
        let rest = pairs.drop_first();
        let rb = key_pairs_bytes(rest);
        let key = pairs[0].1;
        assert(key.len() == 270);
        let first = u64_bytes(pairs[0].0) + key;
        assert(w == first + rb);
        assert(w.len() == 278 + rb.len());
        assert forall|k: int| 0 <= k < 8 implies b[idx + k] == u64_bytes(pairs[0].0)[k] by {
            assert(b[idx + k] == w[k]);
            assert(w[k] == first[k]);
        }
        assert(b.subrange(idx, idx + 8) =~= u64_bytes(pairs[0].0));
        lemma_u64_at(b, idx, pairs[0].0);
        assert forall|k: int| 0 <= k < 270 implies b[idx + 8 + k] == key[k] by {
            assert(b[idx + 8 + k] == w[8 + k]);
            assert(w[8 + k] == first[8 + k]);
        }
        assert(b.subrange(idx + 8, idx + 278) =~= key);
        assert forall|k: int| 0 <= k < rb.len() implies b[idx + 278 + k] == rb[k] by {
            assert(b[idx + 278 + k] == w[278 + k]);
            assert(w[278 + k] == rb[k]);
        }
        assert(b.subrange(idx + 278, b.len() as int) =~= rb);
        assert(keys_well_sized(rest)) by {
            assert forall|i: int| 0 <= i < rest.len() implies #[trigger] rest[i].1.len()
                == crate::messages::PUBKEY_LEN by {
                assert(rest[i] == pairs[i + 1]);
            }
        }
        lemma_key_pairs_read_back(b, idx + 278, rest);
        assert(seq![(pairs[0].0, pairs[0].1)] + rest =~= pairs);
    }
}

/// The bytes of cast ids with origins begin with the first pair.
proof fn lemma_cast_pairs_front(pairs: Seq<(u8, u64)>)
    requires
        pairs.len() > 0,
    ensures
        cast_pairs_bytes(pairs) == seq![pairs[0].0] + u64_bytes(pairs[0].1) + cast_pairs_bytes(pairs.drop_first()),
    decreases pairs.len(),
{
    if pairs.len() > 1 {
        lemma_cast_pairs_front(pairs.drop_last());
        assert(pairs.drop_last().drop_first() =~= pairs.drop_first().drop_last());
        assert(pairs.drop_first().last() == pairs.last());
    } else {
        assert(pairs.drop_last() =~= Seq::<(u8, u64)>::empty());
        assert(pairs.drop_first() =~= Seq::<(u8, u64)>::empty());
    }
}

/// Cast ids with origins, written at offset `idx` and running to the end of `b`,
/// are read back.
#[verifier::spinoff_prover]
proof fn lemma_cast_pairs_read_back(b: Seq<u8>, idx: int, pairs: Seq<(u8, u64)>)
    requires
        0 <= idx <= b.len(),
        b.subrange(idx, b.len() as int) == cast_pairs_bytes(pairs),
    ensures
        cast_pairs_from(b, idx) == Some(pairs),
    decreases pairs.len(),
{
    let w = b.subrange(idx, b.len() as int);
    if pairs.len() == 0 {
        assert(w.len() == 0);
    } else {
        lemma_cast_pairs_front(pairs);
        let rest = pairs.drop_first();
        let rb = cast_pairs_bytes(rest);
        let first = seq![pairs[0].0] + u64_bytes(pairs[0].1);
        assert(w == first + rb);
        assert(w.len() == 9 + rb.len());
        assert(b[idx] == w[0]);
        assert forall|k: int| 0 <= k < 8 implies b[idx + 1 + k] == u64_bytes(pairs[0].1)[k] by {
            assert(b[idx + 1 + k] == w[1 + k]);
            assert(w[1 + k] == first[1 + k]);
        }
        assert(b.subrange(idx + 1, idx + 9) =~= u64_bytes(pairs[0].1));
        lemma_u64_at(b, idx + 1, pairs[0].1);
        assert forall|k: int| 0 <= k < rb.len() implies b[idx + 9 + k] == rb[k] by {
            assert(b[idx + 9 + k] == w[9 + k]);
            assert(w[9 + k] == rb[k]);
        }
        assert(b.subrange(idx + 9, b.len() as int) =~= rb);
        lemma_cast_pairs_read_back(b, idx + 9, rest);
        assert(seq![(pairs[0].0, pairs[0].1)] + rest =~= pairs);
    }
}

/// The bytes of capabilities with their gnomes begin with the first group.
proof fn lemma_cap_pairs_front(pairs: Seq<(u8, Seq<u64>)>)
    requires
        pairs.len() > 0,
    ensures
        cap_pairs_bytes(pairs) == seq![pairs[0].0, pairs[0].1.len() as u8] + u64s_bytes(pairs[0].1)
            + cap_pairs_bytes(pairs.drop_first()),
    decreases pairs.len(),
{
    if pairs.len() > 1 {
        lemma_cap_pairs_front(pairs.drop_last());
        assert(pairs.drop_last().drop_first() =~= pairs.drop_first().drop_last());
        assert(pairs.drop_first().last() == pairs.last());
    } else {
        assert(pairs.drop_last() =~= Seq::<(u8, Seq<u64>)>::empty());
        assert(pairs.drop_first() =~= Seq::<(u8, Seq<u64>)>::empty());
    }
}

/// Whether every capability in a list names at most 255 gnomes, so that its
/// count fits in its byte.
pub open spec fn cap_counts_fit(pairs: Seq<(u8, Seq<u64>)>) -> bool {
    forall|i: int| 0 <= i < pairs.len() ==> #[trigger] pairs[i].1.len() <= 255
}

/// Capabilities with their gnomes, written at offset `idx` and running to the
/// end of `b`, are read back where their counts fit in a byte.
proof fn lemma_cap_groups_read_back(b: Seq<u8>, idx: int, pairs: Seq<(u8, Seq<u64>)>)
    requires
        0 <= idx <= b.len(),
        cap_counts_fit(pairs),
        b.subrange(idx, b.len() as int) == cap_pairs_bytes(pairs),
    ensures
        cap_groups_from(b, idx) == Some(pairs),
    decreases pairs.len(),
{
    let w = b.subrange(idx, b.len() as int);
    if pairs.len() == 0 {
        assert(w.len() == 0);
    } else {
        lemma_cap_pairs_front(pairs);
        let ids = pairs[0].1;
        lemma_u64s_bytes(ids);
        let rest = pairs.drop_first();
        let rb = cap_pairs_bytes(rest);
        let n = ids.len();
        assert(n <= 255);
        let ib = u64s_bytes(ids);
        let first = seq![pairs[0].0, n as u8] + ib;
        assert(w == first + rb);
        assert(first.len() == 2 + 8 * n);
        assert(b[idx] == w[0]);
        assert(b[idx + 1] == w[1]);
        assert(w[1] == n as u8);
        let end = idx + 2 + 8 * n;
        assert forall|k: int| 0 <= k < 8 * n implies b[idx + 2 + k] == ib[k] by {
            assert(b[idx + 2 + k] == w[2 + k]);
            assert(w[2 + k] == first[2 + k]);
        }
        assert(b.subrange(idx + 2, end) =~= ib);
        lemma_u64s_read_back(b, idx + 2, ids);
        assert forall|k: int| 0 <= k < rb.len() implies b[end + k] == rb[k] by {
            assert(b[end + k] == w[first.len() + k]);
            assert(w[first.len() + k] == rb[k]);
        }
        assert(b.subrange(end, b.len() as int) =~= rb);
        assert(cap_counts_fit(rest)) by {
            assert forall|i: int| 0 <= i < rest.len() implies #[trigger] rest[i].1.len() <= 255 by {
                assert(rest[i] == pairs[i + 1]);
            }
        }
        lemma_cap_groups_read_back(b, end, rest);
        assert(seq![(pairs[0].0, pairs[0].1)] + rest =~= pairs);
    }
}

/// The part of `p + t` after `p` is `t`.
proof fn lemma_tail(p: Seq<u8>, t: Seq<u8>)
    ensures
        (p + t).subrange(p.len() as int, (p + t).len() as int) == t,
{
    assert((p + t).subrange(p.len() as int, (p + t).len() as int) =~= t);
}

/// Whether a neighbor request is read back from its bytes as it was written: a
/// unicast request carries all 256 cast ids, addresses are four or sixteen
/// bytes long, and it is neither a block request nor an application's own.
pub open spec fn request_roundtrips(r: NeighborRequestView) -> bool {
    match r {
        NeighborRequestView::UnicastRequest(_, ids) => ids.len() == 256,
        NeighborRequestView::BlockRequest(_, _) => false,
        NeighborRequestView::ForwardConnectRequest(ns) => ns.ip.len() == 4 || ns.ip.len() == 16,
        NeighborRequestView::ConnectRequest(_, _, ns) => ns.ip.len() == 4 || ns.ip.len() == 16,
        NeighborRequestView::CustomRequest(_, _) => false,
        _ => true,
    }
}

/// A neighbor request is read back from its bytes as it was written, where
/// `request_roundtrips` says so.
#[verifier::spinoff_prover]
#[verifier::rlimit(60)]
pub proof fn lemma_request_roundtrip(r: NeighborRequestView)
    requires
        request_roundtrips(r),
    ensures
        decode_request(request_bytes(r)) == Some(r),
{
    let b = request_bytes(r);
    match r {
        NeighborRequestView::ListingRequest(st) => {
            assert(b.subrange(1, 5) =~= u32_bytes(st));
            lemma_u32_roundtrip(st);
        },
        NeighborRequestView::UnicastRequest(s, ids) => {
            lemma_tail(seq![254u8, s], ids);
            assert(b.subrange(2, b.len() as int) + Seq::new(0, |i: int| 0u8) =~= ids);
        },
        NeighborRequestView::ForwardConnectRequest(ns) => {
            lemma_tail(seq![252u8], swarm_settings_bytes(ns));
            lemma_settings_roundtrip(ns);
        },
        NeighborRequestView::ConnectRequest(id, g, ns) => {
            assert(b.subrange(2, 10) =~= u64_bytes(g));
            lemma_u64_at(b, 2, g);
            lemma_tail(seq![251u8, id] + u64_bytes(g), swarm_settings_bytes(ns));
            lemma_settings_roundtrip(ns);
        },
        NeighborRequestView::SwarmSyncRequest(a, bb, c, d, e, h) => {
            assert(b.subrange(6, 14) =~= u64_bytes(h));
            lemma_u64_at(b, 6, h);
        },
        NeighborRequestView::SubscribeRequest(bb, c) => {},
        NeighborRequestView::CreateNeighbor(g, name) => {
            assert(b.subrange(1, 9) =~= u64_bytes(g));
            lemma_u64_at(b, 1, g);
            lemma_tail(seq![248u8] + u64_bytes(g), name);
        },
        NeighborRequestView::SwarmJoinedInfo(name) => {
            lemma_tail(seq![247u8], name);
        },
        NeighborRequestView::AppSyncRequest(id, d) => {
            lemma_tail(seq![246u8, id], d);
        },
        _ => {},
    }
}

/// Whether a neighbor response is read back from its bytes as it was written:
/// a listing's count is its number of ids, keys are 270 bytes long, each
/// capability names at most 255 gnomes, addresses are four or sixteen bytes
/// long, a subscription names no gnome the data comes through, and an
/// application's own tag is below 241.
pub open spec fn response_roundtrips(r: NeighborResponseView) -> bool {
    match r {
        NeighborResponseView::Listing(c, ids) => ids.len() == c,
        NeighborResponseView::ForwardConnectResponse(ns) => ns.ip.len() == 4 || ns.ip.len() == 16,
        NeighborResponseView::ConnectResponse(_, ns) => ns.ip.len() == 4 || ns.ip.len() == 16,
        NeighborResponseView::SwarmSync(info) => keys_well_sized(info.id_pubkey_pairs),
        NeighborResponseView::Subscribed(_, _, _, source) => source is None,
        NeighborResponseView::KeyRegistrySync(_, _, pairs) => keys_well_sized(pairs),
        NeighborResponseView::CapabilitySync(_, _, groups) => cap_counts_fit(groups),
        NeighborResponseView::CustomResponse(id, _) => id < 241,
        _ => true,
    }
}

/// A swarm sync response is read back from its bytes.
proof fn lemma_swarm_sync_roundtrip(info: SwarmSyncInfoView)
    requires
        keys_well_sized(info.id_pubkey_pairs),
    ensures
        decode_response(response_bytes(NeighborResponseView::SwarmSync(info))) == Some(
            NeighborResponseView::SwarmSync(info),
        ),
{
    let b = response_bytes(NeighborResponseView::SwarmSync(info));
    let head = seq![248u8] + u16_bytes(info.chill_phase) + u64_bytes(info.founder) + u32_bytes(
        info.swarm_time,
    ) + seq![info.swarm_type] + u64_bytes(info.app_data_hash) + seq![
        info.key_reg_size,
        info.caps_size,
        info.poli_size,
        info.bcasts_size,
        info.mcasts_size,
        bool_byte(info.more_pubkeys_incoming),
    ];
    let kb = key_pairs_bytes(info.id_pubkey_pairs);
    assert(b =~= head + kb);
    assert(head.len() == 30);
    lemma_u16_roundtrip(info.chill_phase);
    assert(b.subrange(3, 11) =~= u64_bytes(info.founder));
    lemma_u64_at(b, 3, info.founder);
    assert(b.subrange(11, 15) =~= u32_bytes(info.swarm_time));
    lemma_u32_roundtrip(info.swarm_time);
    assert(b.subrange(16, 24) =~= u64_bytes(info.app_data_hash));
    lemma_u64_at(b, 16, info.app_data_hash);
    lemma_tail(head, kb);
    lemma_key_pairs_read_back(b, 30, info.id_pubkey_pairs);
    assert(swarm_sync_from(b, info.id_pubkey_pairs) == info);
}

/// A neighbor response is read back from its bytes as it was written, where
/// `response_roundtrips` says so.
#[verifier::spinoff_prover]
#[verifier::rlimit(60)]
pub proof fn lemma_response_roundtrip(r: NeighborResponseView)
    requires
        response_roundtrips(r),
    ensures
        decode_response(response_bytes(r)) == Some(r),
{
    let b = response_bytes(r);
    match r {
        NeighborResponseView::Listing(c, ids) => {
            lemma_u64s_bytes(ids);
            lemma_tail(seq![255u8, c], u64s_bytes(ids));
            lemma_u64s_read_back(b, 2, ids);
        },
        NeighborResponseView::Block(bid, d) => {
            assert(b.subrange(1, 9) =~= u64_bytes(bid));
            lemma_u64_at(b, 1, bid);
            lemma_tail(seq![253u8] + u64_bytes(bid), d);
        },
        NeighborResponseView::ForwardConnectResponse(ns) => {
            lemma_tail(seq![252u8], swarm_settings_bytes(ns));
            lemma_settings_roundtrip(ns);
        },
        NeighborResponseView::ConnectResponse(id, ns) => {
            lemma_tail(seq![249u8, id], swarm_settings_bytes(ns));
            lemma_settings_roundtrip(ns);
        },
        NeighborResponseView::SwarmSync(info) => {
            lemma_swarm_sync_roundtrip(info);
        },
        NeighborResponseView::Subscribed(bb, c, o, _) => {
            assert(b.subrange(3, 11) =~= u64_bytes(o));
            lemma_u64_at(b, 3, o);
        },
        NeighborResponseView::KeyRegistrySync(p, t, pairs) => {
            lemma_tail(seq![246u8, p, t], key_pairs_bytes(pairs));
            lemma_key_pairs_read_back(b, 3, pairs);
        },
        NeighborResponseView::CapabilitySync(p, t, groups) => {
            lemma_tail(seq![245u8, p, t], cap_pairs_bytes(groups));
            lemma_cap_groups_read_back(b, 3, groups);
        },
        NeighborResponseView::PolicySync(p, t, raw) => {
            lemma_tail(seq![244u8, p, t], raw);
        },
        NeighborResponseView::BroadcastSync(p, t, pairs) => {
            lemma_tail(seq![243u8, p, t], cast_pairs_bytes(pairs));
            lemma_cast_pairs_read_back(b, 3, pairs);
        },
        NeighborResponseView::MulticastSync(p, t, pairs) => {
            lemma_tail(seq![242u8, p, t], cast_pairs_bytes(pairs));
            lemma_cast_pairs_read_back(b, 3, pairs);
        },
        NeighborResponseView::AppSync(st, c, p, t, d) => {
            lemma_u16_roundtrip(c);
            lemma_u16_roundtrip(p);
            lemma_u16_roundtrip(t);
            lemma_tail(seq![241u8, st] + u16_bytes(c) + u16_bytes(p) + u16_bytes(t), d);
        },
        NeighborResponseView::CustomResponse(id, d) => {
            lemma_tail(seq![id], d);
        },
        _ => {},
    }
}

} // verus!
