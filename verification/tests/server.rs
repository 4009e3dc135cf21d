use gnome::networking::client::{read_server_reply, receive_session_key};
use gnome::networking::holepunch::{open_session_key, KeyOpening};
use gnome::networking::IpAddr;
use gnome::crypto::{get_new_key_pair, Decrypter, Encrypter, SessionKey};
use gnome::networking::server::greet_client;
use rsa::pkcs1::{EncodeRsaPublicKey, LineEnding};

fn pem_pair() -> (Decrypter, String) {
    let (priv_key, pub_key) = get_new_key_pair(512).unwrap();
    let pem = pub_key.to_pkcs1_pem(LineEnding::LF).unwrap();
    (Decrypter::create(priv_key), pem)
}

#[test]
fn server_answers_another_gnome() {
    let (_server_dec, server_pem) = pem_pair();
    let (client_dec, client_pem) = pem_pair();
    let g = greet_client(client_pem.as_bytes(), &server_pem).unwrap();
    assert_eq!(g.remote_key_pem, client_pem);
    let key = client_dec.decrypt(&g.encrypted_session_key).unwrap();
    assert_eq!(key.len(), 32);
    let mut k = [0u8; 32];
    k.copy_from_slice(&key);
    let session = SessionKey::from_key(&k);
    assert_eq!(session.decrypt(&g.sealed_own_key).unwrap(), server_pem.as_bytes().to_vec());
    assert_eq!(g.session_key.decrypt(&session.encrypt(b"hi")).unwrap(), b"hi".to_vec());
    assert_eq!(g.remote_id, g.remote.hash());
    let client_key = <rsa::RsaPublicKey as rsa::pkcs1::DecodeRsaPublicKey>::from_pkcs1_pem(&client_pem).unwrap();
    assert_eq!(g.remote.pub_key_der(), client_key.to_pkcs1_der().unwrap().as_bytes().to_vec());
}

#[test]
fn server_refuses_itself_and_garbage() {
    let (_dec, server_pem) = pem_pair();
    assert!(greet_client(server_pem.as_bytes(), &server_pem).is_none());
    assert!(greet_client(&[0xff, 0xfe, 0x41], &server_pem).is_none());
    assert!(greet_client(b"hello there", &server_pem).is_none());
}

#[test]
fn server_refuses_a_key_too_small_for_the_session_key() {
    let (_dec, server_pem) = pem_pair();
    let (_p, small) = get_new_key_pair(256).unwrap();
    let small_pem = small.to_pkcs1_pem(LineEnding::LF).unwrap();
    assert!(greet_client(small_pem.as_bytes(), &server_pem).is_none());
}

#[test]
fn client_reads_the_server_greeting() {
    let (_server_dec, server_pem) = pem_pair();
    let (client_dec, client_pem) = pem_pair();
    let g = greet_client(client_pem.as_bytes(), &server_pem).unwrap();
    let session = receive_session_key(&client_dec, &g.encrypted_session_key).unwrap();
    let sealed_address = session.encrypt(&[0x1F, 0x90, 10, 20, 30, 40]);
    let (pem, addr) = read_server_reply(&session, &g.sealed_own_key, &sealed_address).unwrap();
    assert_eq!(pem, server_pem);
    assert_eq!(addr, Some((IpAddr::V4([10, 20, 30, 40]), 0x1F90)));
    let short = session.encrypt(&[1]);
    assert!(read_server_reply(&session, &g.sealed_own_key, &short).is_none());
    let (other_dec, _) = pem_pair();
    assert!(receive_session_key(&other_dec, &g.encrypted_session_key).is_none());
}

#[test]
fn the_larger_id_sends_the_session_key() {
    let (a_dec, a_pem) = pem_pair();
    let (b_dec, b_pem) = pem_pair();
    let a_enc = Encrypter::create_from_data(&a_pem).unwrap();
    let b_enc = Encrypter::create_from_data(&b_pem).unwrap();
    let key = [7u8; 32];
    let sent = match open_session_key(10, 3, &b_enc, &key).unwrap() {
        KeyOpening::Send(bytes, session) => {
            assert_eq!(session.decrypt(&SessionKey::from_key(&key).encrypt(b"x")).unwrap(), b"x".to_vec());
            bytes
        }
        KeyOpening::Receive => panic!("the larger id sends"),
    };
    assert!(matches!(open_session_key(3, 10, &a_enc, &key).unwrap(), KeyOpening::Receive));
    let got = receive_session_key(&b_dec, &sent).unwrap();
    assert_eq!(got.decrypt(&SessionKey::from_key(&key).encrypt(b"hi")).unwrap(), b"hi".to_vec());
    assert!(receive_session_key(&a_dec, &sent).is_none());
}
