use gnome::crypto::{
    decode_hex_signature, generate_symmetric_key, get_new_key_pair, key_pair_as_pems, key_pair_from_pems, new_cipher_pair, sign_at_time, signature_times, verify_at_time, Decrypter,
    Encrypter, SessionKey,
};
use rsa::pkcs1::{EncodeRsaPrivateKey, LineEnding};

#[test]
fn session_key_round_trip() {
    let key = SessionKey::from_key(&[7u8; 32]);
    let sealed = key.encrypt(b"hello gnome");
    assert_eq!(sealed.len(), 12 + 11 + 16);
    assert_eq!(key.decrypt(&sealed).unwrap(), b"hello gnome".to_vec());
    let other = key.encrypt(b"hello gnome");
    assert_ne!(sealed, other);
}

#[test]
fn session_key_refuses_tampering() {
    let key = SessionKey::from_key(&[1u8; 32]);
    let mut sealed = key.encrypt(&[1, 2, 3]);
    let last = sealed.len() - 1;
    sealed[last] ^= 1;
    assert_eq!(key.decrypt(&sealed), Err("Failed to decrypt data".to_string()));
    let wrong = SessionKey::from_key(&[2u8; 32]);
    let sealed = key.encrypt(&[1, 2, 3]);
    assert!(wrong.decrypt(&sealed).is_err());
}

#[test]
fn hex_signature_text() {
    assert_eq!(decode_hex_signature(b"00FF0A"), vec![0, 255, 10]);
    assert_eq!(decode_hex_signature(b""), Vec::<u8>::new());
}

#[test]
fn symmetric_keys_are_random() {
    assert_ne!(generate_symmetric_key(), generate_symmetric_key());
}

#[test]
fn bad_pem_is_refused() {
    assert_eq!(Encrypter::create_from_data("not a key").unwrap_err(), "Unable to create Encrypter from data");
    assert!(Decrypter::create_from_data("not a key").is_err());
}

#[test]
fn rsa_sign_verify_encrypt_decrypt() {
    let (priv_key, pub_key) = get_new_key_pair(512).unwrap();
    let dec = Decrypter::create(priv_key);
    let enc = Encrypter::create(pub_key);
    let sig = dec.sign(b"data").unwrap();
    assert_eq!(sig.len(), 64);
    assert!(enc.verify(b"data", &sig));
    assert!(!enc.verify(b"other", &sig));
    let cipher = enc.encrypt(b"secret").unwrap();
    assert_eq!(dec.decrypt(&cipher).unwrap(), b"secret".to_vec());
    assert!(!enc.pub_key_der().is_empty());
    assert_eq!(enc.hash(), enc.clone().hash());
}

#[test]
fn signatures_carry_the_swarm_time() {
    let (priv_key, pub_key) = get_new_key_pair(512).unwrap();
    let pem = priv_key.to_pkcs1_pem(LineEnding::LF).unwrap().to_string();
    let der = Encrypter::create(pub_key).pub_key_der();
    let mut data = b"block".to_vec();
    let sig = sign_at_time(&pem, 10, &mut data).unwrap();
    assert_eq!(data, b"block".to_vec());
    assert!(verify_at_time(5, 5, &der, 10, &mut data, &sig));
    // one after and one before are tried too
    assert!(verify_at_time(5, 5, &der, 9, &mut data, &sig));
    assert!(verify_at_time(5, 5, &der, 11, &mut data, &sig));
    assert!(!verify_at_time(5, 5, &der, 12, &mut data, &sig));
    assert_eq!(data, b"block".to_vec());
    // a key whose hash is not the gnome's id
    assert!(!verify_at_time(5, 6, &der, 10, &mut data, &sig));
    // bytes that hold no key
    assert!(!verify_at_time(5, 5, &vec![1, 2, 3], 10, &mut data, &sig));
    assert_eq!(sign_at_time("no key", 10, &mut data), Err(()));
}

#[test]
fn signature_at_time_zero_is_tried_at_one() {
    let (priv_key, pub_key) = get_new_key_pair(512).unwrap();
    let pem = priv_key.to_pkcs1_pem(LineEnding::LF).unwrap().to_string();
    let der = Encrypter::create(pub_key).pub_key_der();
    let mut data = b"x".to_vec();
    let sig = sign_at_time(&pem, 1, &mut data).unwrap();
    assert!(verify_at_time(1, 1, &der, 0, &mut data, &sig));
    let sig0 = sign_at_time(&pem, 0, &mut data).unwrap();
    assert!(verify_at_time(1, 1, &der, 1, &mut data, &sig0));
}

#[test]
fn signature_try_times() {
    assert_eq!(signature_times(10), vec![10, 11, 9]);
    assert_eq!(signature_times(1), vec![1, 2, 0]);
    assert_eq!(signature_times(0), vec![0, 1]);
}

#[test]
fn small_keys_cannot_sign() {
    let (priv_key, _pub_key) = get_new_key_pair(256).unwrap();
    let pem = priv_key.to_pkcs1_pem(LineEnding::LF).unwrap().to_string();
    let dec = Decrypter::create(priv_key);
    assert_eq!(dec.sign(b"data"), Err(()));
    let mut data = b"x".to_vec();
    assert_eq!(sign_at_time(&pem, 3, &mut data), Err(()));
    assert_eq!(data, b"x".to_vec());
}

#[test]
fn key_pair_round_trips_through_pem() {
    let (priv_key, pub_key) = get_new_key_pair(512).unwrap();
    let (priv_pem, pub_pem) = key_pair_as_pems(&priv_key, &pub_key).unwrap();
    let (p2, q2) = key_pair_from_pems(&priv_pem, &pub_pem).unwrap();
    assert_eq!(p2, priv_key);
    assert_eq!(q2, pub_key);
    assert!(key_pair_from_pems("not a key", &pub_pem).is_none());
    assert!(key_pair_from_pems(&priv_pem, "not a key").is_none());
}

#[test]
fn a_cipher_pair_decrypts_and_verifies_its_own() {
    let (dec, enc) = new_cipher_pair(512).unwrap();
    let sent = enc.encrypt(b"session").unwrap();
    assert_eq!(dec.decrypt(&sent).unwrap(), b"session".to_vec());
    let sig = dec.sign(b"data").unwrap();
    assert!(enc.verify(b"data", &sig));
    assert!(!enc.verify(b"other", &sig));
    let other = Encrypter::create_from_data("x");
    assert!(other.is_err());
}
