//! The decisions of a client that contacts a server over UDP or TCP: reading
//! the public address the server reports back, and the settings that follow
//! from comparing it with the local socket.
use vstd::prelude::*;
use vstd::utf8::{decode_utf8, valid_utf8};
use crate::crypto::{keys_match, rsa_decryption, rsa_public_decryption, session_open, Decrypter, SessionKey};
use crate::data_conversion::{as_u16_be, be16};
use crate::networking::server::text_from_utf8;
use crate::networking::{IpAddr, Nat, NetworkSettings, PortAllocationRule, SocketAddr, Transport};

verus! {

/// The public address a server reports back, as the client reads it: the port in
/// two bytes, big end first, then four octets for IPv4 or sixteen for IPv6; any
/// other length reports nothing.
pub open spec fn reported_address_ok(pib: Seq<u8>, r: Option<(IpAddr, u16)>) -> bool {
    if pib.len() == 6 {
        r matches Some((ip, port)) && ip is V4 && ip.octets() == pib.subrange(2, 6)
            && port == be16(pib[0], pib[1])
    } else if pib.len() == 18 {
        r matches Some((ip, port)) && ip is V6 && ip.octets() == pib.subrange(2, 18) && port == be16(
            pib[0],
            pib[1],
        )
    } else {
        r is None
    }
}

/// Reads the public address a server reported back.
pub fn reported_address(pib: &[u8]) -> (r: Option<(IpAddr, u16)>)
    requires
        pib@.len() >= 2,
    ensures
        reported_address_ok(pib@, r),
{
    let port = as_u16_be(&[pib[0], pib[1]]);
    if pib.len() == 6 {
        let octets: [u8; 4] = [pib[2], pib[3], pib[4], pib[5]];
        assert(octets@ =~= pib@.subrange(2, 6));
        Some((IpAddr::V4(octets), port))
    } else if pib.len() == 18 {
        let mut octets: [u8; 16] = [0; 16];
        let mut i: usize = 0;
        while i < 16
            invariant
                pib@.len() == 18,
                i <= 16,
                forall|k: int| 0 <= k < i ==> octets@[k] == pib@[k + 2],
            decreases 16 - i,
        {
            octets.set(i, pib[i + 2]);
            i = i + 1;
        }
        assert(octets@ =~= pib@.subrange(2, 18));
        Some((IpAddr::V6(octets), port))
    } else {
        None
    }
}

/// Whether two addresses are the same.
pub fn same_ip(a: &IpAddr, b: &IpAddr) -> (r: bool)
    ensures
        r == (*a == *b),
{
    match *a {
        IpAddr::V4(x) => match *b {
            IpAddr::V4(y) => same_octets4(&x, &y),
            IpAddr::V6(_) => false,
        },
        IpAddr::V6(x) => match *b {
            IpAddr::V6(y) => same_octets16(&x, &y),
            IpAddr::V4(_) => false,
        },
    }
}

fn same_octets4(x: &[u8; 4], y: &[u8; 4]) -> (r: bool)
    ensures
        r == (*x == *y),
{
    let mut i: usize = 0;
    while i < 4
        invariant
            i <= 4,
            forall|k: int| 0 <= k < i ==> x@[k] == y@[k],
        decreases 4 - i,
    {
        if x[i] != y[i] {
            assert(x@[i as int] != y@[i as int]);
            return false;
        }
        i = i + 1;
    }
    assert(*x =~= *y);
    true
}

fn same_octets16(x: &[u8; 16], y: &[u8; 16]) -> (r: bool)
    ensures
        r == (*x == *y),
{
    let mut i: usize = 0;
    while i < 16
        invariant
            i <= 16,
            forall|k: int| 0 <= k < i ==> x@[k] == y@[k],
        decreases 16 - i,
    {
        if x[i] != y[i] {
            assert(x@[i as int] != y@[i as int]);
            return false;
        }
        i = i + 1;
    }
    assert(*x =~= *y);
    true
}

/// The settings a client learns of itself once a server reported its public
/// address: with the local port kept and the local address public, no NAT; with
/// the port kept behind another address, an unknown NAT marked with step 127;
/// with another port, an unknown NAT marked with step 126. The transport is UDP
/// over the public address's IP version.
pub open spec fn own_settings_spec(local: SocketAddr, public_ip: IpAddr, public_port: u16) -> NetworkSettings {
    let transport = if public_ip is V4 {
        Transport::UDPoverIP4
    } else {
        Transport::UDPoverIP6
    };
    if local.port == public_port && local.ip == public_ip {
        NetworkSettings {
            pub_ip: public_ip,
            pub_port: public_port,
            nat_type: Nat::NoNat,
            port_allocation: (PortAllocationRule::FullCone, 0),
            transport,
        }
    } else {
        NetworkSettings {
            pub_ip: public_ip,
            pub_port: public_port,
            nat_type: Nat::Unknown,
            port_allocation: (
                PortAllocationRule::Random,
                if local.port == public_port { 127 } else { 126 },
            ),
            transport,
        }
    }
}

/// The settings that follow from the local socket's address and the public
/// address the server reported.
pub fn own_settings(local: &SocketAddr, public_ip: IpAddr, public_port: u16) -> (r: NetworkSettings)
    ensures
        r == own_settings_spec(*local, public_ip, public_port),
{
    let transport = if public_ip.is_ipv4() {
        Transport::UDPoverIP4
    } else {
        Transport::UDPoverIP6
    };
    if local.port == public_port {
        if same_ip(&local.ip, &public_ip) {
            NetworkSettings::new_not_natted(public_ip, public_port, transport)
        } else {
            NetworkSettings {
                pub_ip: public_ip,
                pub_port: public_port,
                nat_type: Nat::Unknown,
                port_allocation: (PortAllocationRule::Random, 127),
                transport,
            }
        }
    } else {
        NetworkSettings {
            pub_ip: public_ip,
            pub_port: public_port,
            nat_type: Nat::Unknown,
            port_allocation: (PortAllocationRule::Random, 126),
            transport,
        }
    }
}

/// The settings a client that reached a server over TCP learns of itself: as
/// over UDP, no NAT where the local address and port are the public ones; with
/// the port kept behind another address, an unknown NAT with full cone
/// allocation marked with step 127; with another port, an unknown NAT with
/// random allocation marked with step 127. The transport is TCP over the public
/// address's IP version.
pub open spec fn own_tcp_settings_spec(local: SocketAddr, public_ip: IpAddr, public_port: u16) -> NetworkSettings {
    let transport = if public_ip is V4 {
        Transport::TCPoverIP4
    } else {
        Transport::TCPoverIP6
    };
    if local.port == public_port && local.ip == public_ip {
        NetworkSettings {
            pub_ip: public_ip,
            pub_port: public_port,
            nat_type: Nat::NoNat,
            port_allocation: (PortAllocationRule::FullCone, 0),
            transport,
        }
    } else {
        NetworkSettings {
            pub_ip: public_ip,
            pub_port: public_port,
            nat_type: Nat::Unknown,
            port_allocation: (
                if local.port == public_port { PortAllocationRule::FullCone } else { PortAllocationRule::Random },
                127,
            ),
            transport,
        }
    }
}

/// The settings that follow, over TCP, from the local address of the stream
/// and the public address the server reported.
pub fn own_tcp_settings(local: &SocketAddr, public_ip: IpAddr, public_port: u16) -> (r: NetworkSettings)
    ensures
        r == own_tcp_settings_spec(*local, public_ip, public_port),
{
    let transport = if public_ip.is_ipv4() {
        Transport::TCPoverIP4
    } else {
        Transport::TCPoverIP6
    };
    if local.port == public_port {
        if same_ip(&local.ip, &public_ip) {
            NetworkSettings::new_not_natted(public_ip, public_port, transport)
        } else {
            NetworkSettings {
                pub_ip: public_ip,
                pub_port: public_port,
                nat_type: Nat::Unknown,
                port_allocation: (PortAllocationRule::FullCone, 127),
                transport,
            }
        }
    } else {
        NetworkSettings {
            pub_ip: public_ip,
            pub_port: public_port,
            nat_type: Nat::Unknown,
            port_allocation: (PortAllocationRule::Random, 127),
            transport,
        }
    }
}

/// The session key that the bytes `data` carry for the gnome whose private key
/// has the PKCS#1 DER bytes `priv_der`: what they decrypt to, where that is 32
/// bytes long.
pub open spec fn received_session_key(priv_der: Seq<u8>, data: Seq<u8>) -> Option<Seq<u8>> {
    match rsa_decryption(priv_der, data) {
        Some(k) => if k.len() == 32 {
            Some(k)
        } else {
            None
        },
        None => None,
    }
}

/// Reads the session key a peer sent, encrypted to this gnome's public key:
/// `None` where the bytes do not decrypt, or decrypt to something other than 32
/// bytes.
pub fn receive_session_key(decrypter: &Decrypter, data: &[u8]) -> (r: Option<SessionKey>)
    ensures
        match received_session_key(decrypter.der(), data@) {
            Some(k) => r matches Some(s) && s@ == k,
            None => r is None,
        },
{
    let plain = match decrypter.decrypt(data) {
        Ok(p) => p,
        Err(_) => return None,
    };
    if plain.len() != 32 {
        return None;
    }
    let mut key: [u8; 32] = [0; 32];
    let mut i: usize = 0;
    while i < 32
        invariant
            plain@.len() == 32,
            i <= 32,
            forall|k: int| 0 <= k < i ==> key@[k] == plain@[k],
        decreases 32 - i,
    {
        key.set(i, plain[i]);
        i = i + 1;
    }
    assert(key@ =~= plain@);
    Some(SessionKey::from_key(&key))
}

/// A session key of 32 bytes, sent encrypted to a public key, is read back as
/// it was by the gnome that holds the matching private key.
pub proof fn lemma_matching_key_reads_the_session_key(priv_der: Seq<u8>, pub_der: Seq<u8>, key: Seq<u8>, sent: Seq<u8>)
    requires
        keys_match(priv_der, pub_der),
        key.len() == 32,
        rsa_public_decryption(pub_der, sent) == Some(key),
    ensures
        received_session_key(priv_der, sent) == Some(key),
{
    assert(rsa_decryption(priv_der, sent) == rsa_public_decryption(pub_der, sent));
}

/// What a client reads from the server's two messages sealed under the session
/// key `key`: the server's public key as text and the public address it reports
/// for the client; `None` where one of them does not open, the key is not
/// UTF-8 text, or the address is shorter than its two bytes of port.
pub open spec fn server_reply_ok(key: Seq<u8>, sealed_key: Seq<u8>, sealed_address: Seq<u8>, r: Option<(String, Option<(IpAddr, u16)>)>) -> bool {
    match (session_open(key, sealed_key), session_open(key, sealed_address)) {
        (Some(pem), Some(pib)) => if valid_utf8(pem) && pib.len() >= 2 {
            r matches Some((text, addr)) && text@ == decode_utf8(pem) && reported_address_ok(pib, addr)
        } else {
            r is None
        },
        _ => r is None,
    }
}

/// Reads the server's reply to a client: its public key and the address it saw
/// the client at, both sealed under the session key.
pub fn read_server_reply(session: &SessionKey, sealed_key: &[u8], sealed_address: &[u8]) -> (r: Option<(String, Option<(IpAddr, u16)>)>)
    requires
        sealed_key@.len() >= 12,
        sealed_address@.len() >= 12,
    ensures
        server_reply_ok(session@, sealed_key@, sealed_address@, r),
{
    let pem = match session.decrypt(sealed_key) {
        Ok(p) => p,
        Err(_) => return None,
    };
    let pib = match session.decrypt(sealed_address) {
        Ok(p) => p,
        Err(_) => return None,
    };
    if pib.len() < 2 {
        return None;
    }
    let text = match text_from_utf8(pem.as_slice()) {
        Some(t) => t,
        None => return None,
    };
    let addr = reported_address(pib.as_slice());
    Some((text, addr))
}

} // verus!
