//! The server's side of the handshake with a client that sent its public key:
//! which greetings are refused, and what the server answers with.
use vstd::prelude::*;
use vstd::utf8::{decode_utf8, encode_utf8, valid_utf8};
use crate::crypto::{
    generate_symmetric_key, pem_der, public_der_decodes, public_pem_decodes, rsa_encrypt_accepts_der, rsa_public_decryption,
    sealed_by, Encrypter,
    SessionKey,
};

verus! {

/// Reads bytes as UTF-8 text with `std::str::from_utf8`: the text where they are
/// valid UTF-8, `None` where they are not.
#[verifier::external_body]
pub(crate) fn text_from_utf8(bytes: &[u8]) -> (r: Option<String>)
    ensures
        r is Some <==> valid_utf8(bytes@),
        r matches Some(s) ==> s@ == decode_utf8(bytes@),
{
    std::str::from_utf8(bytes).ok().map(|s| s.to_string())
}

/// Whether two byte strings are the same.
fn same_bytes(a: &[u8], b: &[u8]) -> (r: bool)
    ensures
        r == (a@ == b@),
{
    if a.len() != b.len() {
        return false;
    }
    let mut i: usize = 0;
    while i < a.len()
        invariant
            a@.len() == b@.len(),
            i <= a@.len(),
            forall|k: int| 0 <= k < i ==> a@[k] == b@[k],
        decreases a@.len() - i,
    {
        if a[i] != b[i] {
            return false;
        }
        i = i + 1;
    }
    assert(a@ =~= b@);
    true
}

/// What the server answers a client with: the client's key as it sent it, the
/// session key made up for the connection, that key encrypted to the client,
/// and the server's own public key sealed under the session key.
pub struct Greeting {
    pub remote_key_pem: String,
    pub remote: Encrypter,
    pub remote_id: u64,
    pub session_key: SessionKey,
    pub encrypted_session_key: Vec<u8>,
    pub sealed_own_key: Vec<u8>,
}

/// Whether the server refuses a client whose first message is `received`: where
/// it is not UTF-8 text, is the server's own key `my_pem`, or is no public key
/// the rsa crate reads.
pub open spec fn greeting_refused(received: Seq<u8>, my_pem: Seq<char>) -> bool {
    ||| !valid_utf8(received)
    ||| decode_utf8(received) == my_pem
    ||| !public_pem_decodes(decode_utf8(received))
}

/// Answers a client whose first message, its public key in PEM text, is
/// `received`: `None` where the greeting is refused, or where the client's key
/// cannot encrypt the 32 bytes of a session key; else the answer.
pub fn greet_client(received: &[u8], my_pem: &str) -> (r: Option<Greeting>)
    requires
        encode_utf8(my_pem@).len() <= 0x10_0000_0000,
    ensures
        r is Some <==> (!greeting_refused(received@, my_pem@) && public_der_decodes(pem_der(decode_utf8(received@)))
            && rsa_encrypt_accepts_der(pem_der(decode_utf8(received@)), 32)),
        r matches Some(g) ==> {
            &&& !greeting_refused(received@, my_pem@)
            &&& g.remote_key_pem@ == decode_utf8(received@)
            &&& g.remote.der() == pem_der(decode_utf8(received@))
            &&& g.session_key@.len() == 32
            &&& rsa_public_decryption(g.remote.der(), g.encrypted_session_key@) == Some(g.session_key@)
            &&& sealed_by(g.session_key@, encode_utf8(my_pem@), g.sealed_own_key@)
        },
{
    let text = match text_from_utf8(received) {
        Some(t) => t,
        None => return None,
    };
    let mine = my_pem.as_bytes();
    if same_bytes(received, mine) {
        proof {
            vstd::utf8::encode_utf8_decode_utf8(my_pem@);
        }
        return None;
    }
    proof {
        if decode_utf8(received@) == my_pem@ {
            vstd::utf8::decode_utf8_encode_utf8(received@);
        }
    }
    let remote = match Encrypter::create_from_data(text.as_str()) {
        Ok(e) => e,
        Err(_) => return None,
    };
    let key = generate_symmetric_key();
    let encrypted_session_key = match remote.encrypt(key.as_slice()) {
        Ok(bytes) => bytes,
        Err(_) => return None,
    };
    let session_key = SessionKey::from_key(&key);
    let sealed_own_key = session_key.encrypt(mine);
    let remote_id = remote.hash();
    Some(Greeting { remote_key_pem: text, remote, remote_id, session_key, encrypted_session_key, sealed_own_key })
}

} // verus!
