//! Keys and ciphers of a gnome: RSA keys that encrypt, decrypt, sign and
//! verify, and the AES-256-GCM session key that seals every datagram.
use vstd::prelude::*;
use aes_gcm::aead::{Aead, AeadCore, KeyInit, OsRng};
use aes_gcm::{Aes256Gcm, Key, Nonce};
use rsa::pkcs1::{DecodeRsaPrivateKey, DecodeRsaPublicKey, EncodeRsaPrivateKey, EncodeRsaPublicKey};
use rsa::pkcs1v15::{SigningKey, VerifyingKey};
use rsa::sha2::{Digest, Sha256};
use rsa::signature::{DigestSigner, Verifier};
use rsa::{Pkcs1v15Encrypt, RsaPrivateKey, RsaPublicKey};
use rsa::pkcs8::LineEnding;
use std::hash::{DefaultHasher, Hash, Hasher};
use crate::data_conversion::{put_u32, u32_bytes};

verus! {

/// An RSA public key.
#[verifier::external_type_specification]
#[verifier::external_body]
pub struct ExRsaPublicKey(RsaPublicKey);

/// An RSA private key.
#[verifier::external_type_specification]
#[verifier::external_body]
pub struct ExRsaPrivateKey(RsaPrivateKey);

/// Copies a public key (the rsa crate derives `Clone` for it).
pub assume_specification[ <RsaPublicKey as Clone>::clone ](key: &RsaPublicKey) -> RsaPublicKey;

/// Copies a private key (the rsa crate implements `Clone` for it).
pub assume_specification[ <RsaPrivateKey as Clone>::clone ](key: &RsaPrivateKey) -> RsaPrivateKey;

/// What PKCS#1 v1.5 decryption makes of `data` under the private key whose
/// PKCS#1 DER bytes are `der`: the plaintext, or `None` where it fails.
pub uninterp spec fn rsa_decryption(der: Seq<u8>, data: Seq<u8>) -> Option<Seq<u8>>;

/// The PKCS#1 v1.5 SHA-256 signature of `data` under the private key whose
/// PKCS#1 DER bytes are `der`, as the text that `Display` writes for it;
/// `None` where the key is too small to sign with.
pub uninterp spec fn rsa_signature_text_der(der: Seq<u8>, data: Seq<u8>) -> Option<Seq<u8>>;

/// Whether `data` is a PEM-encoded PKCS#1 RSA public key that the rsa crate
/// reads.
pub uninterp spec fn public_pem_decodes(data: Seq<char>) -> bool;

/// Whether `data` is a PEM-encoded PKCS#1 RSA private key that the rsa crate
/// reads.
pub uninterp spec fn private_pem_decodes(data: Seq<char>) -> bool;

/// Whether `der` is a DER-encoded PKCS#1 RSA public key that the rsa crate reads.
pub uninterp spec fn public_der_decodes(der: Seq<u8>) -> bool;

/// Whether `signature` is a PKCS#1 v1.5 SHA-256 signature of `data` under the
/// public key whose PKCS#1 DER bytes are `der`.
pub uninterp spec fn rsa_sha256_verifies(der: Seq<u8>, data: Seq<u8>, signature: Seq<u8>) -> bool;

/// The PKCS#1 v1.5 SHA-256 signature of `data` under the private key in the PEM
/// text `pem`, as the text that `Display` writes for it; `None` where the text
/// holds no key or the key is too small to sign with.
pub uninterp spec fn rsa_signature_text(pem: Seq<char>, data: Seq<u8>) -> Option<Seq<u8>>;

/// Whether the public key whose PKCS#1 DER bytes are `der` encrypts a message of
/// `len` bytes with PKCS#1 v1.5 padding (the crate refuses messages longer than
/// the key's size in bytes less 11, and keys that fail its checks).
pub uninterp spec fn rsa_encrypt_accepts_der(der: Seq<u8>, len: nat) -> bool;

/// What PKCS#1 v1.5 decryption by the private key that matches the public key
/// whose PKCS#1 DER bytes are `der` makes of `data`: the plaintext, or `None`
/// where it fails.
pub uninterp spec fn rsa_public_decryption(der: Seq<u8>, data: Seq<u8>) -> Option<Seq<u8>>;

/// The PKCS#1 DER encoding of the public key that the PEM text `pem` holds.
pub uninterp spec fn pem_der(pem: Seq<char>) -> Seq<u8>;

/// What AES-256-GCM makes of `plaintext` under `key` and `nonce`: the
/// ciphertext with its 16-byte tag.
pub uninterp spec fn aes256gcm_seal(key: Seq<u8>, nonce: Seq<u8>, plaintext: Seq<u8>) -> Seq<u8>;

/// What AES-256-GCM makes of `ciphertext` under `key` and `nonce`: the
/// plaintext, or `None` where the tag does not match.
pub uninterp spec fn aes256gcm_open(key: Seq<u8>, nonce: Seq<u8>, ciphertext: Seq<u8>) -> Option<Seq<u8>>;

/// Reads a public key from PEM text with `DecodeRsaPublicKey::from_pkcs1_pem`,
/// with its DER encoding by `EncodeRsaPublicKey::to_pkcs1_der`; `None` where the
/// crate refuses the text. Which texts it reads, and the DER bytes, are named.
#[verifier::external_body]
fn public_key_from_pem(data: &str) -> (r: Option<(RsaPublicKey, Vec<u8>)>)
    ensures
        r is Some == public_pem_decodes(data@),
        r matches Some((_, der)) ==> der@ == pem_der(data@),
{
    let key: RsaPublicKey = DecodeRsaPublicKey::from_pkcs1_pem(data).ok()?;
    let der = key.to_pkcs1_der().unwrap().to_vec();
    Some((key, der))
}

/// Reads a private key from PEM text with `DecodeRsaPrivateKey::from_pkcs1_pem`;
/// `None` where the crate refuses it. Which texts it reads is named, not stated.
#[verifier::external_body]
fn private_key_from_pem(data: &str) -> (r: Option<RsaPrivateKey>)
    ensures
        r is Some == private_pem_decodes(data@),
{
    DecodeRsaPrivateKey::from_pkcs1_pem(data).ok()
}

/// The DER encoding of a public key, by `EncodeRsaPublicKey::to_pkcs1_der`.
/// Nothing is stated of the bytes, which depend on the opaque key.
#[verifier::external_body]
fn public_key_der(key: &RsaPublicKey) -> Vec<u8> {
    key.to_pkcs1_der().unwrap().to_vec()
}

/// Reads the public key in the DER bytes `der` (`from_pkcs1_der`) and encrypts
/// `data` to it with `RsaPublicKey::encrypt`, PKCS#1 v1.5 padding and a thread
/// random generator. Whether it succeeds is named; the padding is random, so
/// the bytes are not named, but the matching private key decrypts them to
/// `data` (PKCS#1 v1.5 is a correct encryption scheme).
#[verifier::external_body]
fn encrypt_with_der(der: &[u8], data: &[u8]) -> (r: Option<Vec<u8>>)
    ensures
        r is Some <==> (public_der_decodes(der@) && rsa_encrypt_accepts_der(der@, data@.len())),
        r matches Some(c) ==> rsa_public_decryption(der@, c@) == Some(data@),
{
    let key: RsaPublicKey = DecodeRsaPublicKey::from_pkcs1_der(der).ok()?;
    let mut rng = rand::thread_rng();
    key.encrypt(&mut rng, Pkcs1v15Encrypt, data).ok()
}

/// The DER encoding of a private key, by `EncodeRsaPrivateKey::to_pkcs1_der`;
/// `None` where the crate cannot write the key (one of more than two primes, or
/// without a CRT coefficient). Nothing is stated of the bytes, which depend on
/// the opaque key.
#[verifier::external_body]
fn private_key_der(key: &RsaPrivateKey) -> Option<Vec<u8>> {
    key.to_pkcs1_der().ok().map(|d| d.as_bytes().to_vec())
}

/// Reads the private key in the DER bytes `der` (`from_pkcs1_der`) and decrypts
/// `data` with `RsaPrivateKey::decrypt`, PKCS#1 v1.5 padding and no blinding, so
/// that the result depends on its arguments alone and is named; `None` where the
/// bytes hold no key or decryption fails.
#[verifier::external_body]
fn decrypt_with_der(der: &[u8], data: &[u8]) -> (r: Option<Vec<u8>>)
    ensures
        match r {
            Some(p) => rsa_decryption(der@, data@) == Some(p@),
            None => rsa_decryption(der@, data@) is None,
        },
{
    let key: RsaPrivateKey = DecodeRsaPrivateKey::from_pkcs1_der(der).ok()?;
    key.decrypt(Pkcs1v15Encrypt, data).ok()
}

/// Reads the public key in the DER bytes `der` (`from_pkcs1_der`) and checks
/// `signature` over `data` with `VerifyingKey::<Sha256>::verify` (PKCS#1 v1.5).
/// Whether it holds is named; `false` where the bytes hold no key.
#[verifier::external_body]
fn verify_with_der(der: &[u8], data: &[u8], signature: &[u8]) -> (r: bool)
    ensures
        r == rsa_sha256_verifies(der@, data@, signature@),
        r ==> public_der_decodes(der@),
{
    match DecodeRsaPublicKey::from_pkcs1_der(der) {
        Ok(key) => {
            let signature = rsa::pkcs1v15::Signature::try_from(signature).unwrap();
            let verifier: VerifyingKey<Sha256> = VerifyingKey::new(key);
            verifier.verify(data, &signature).is_ok()
        },
        Err(_) => false,
    }
}

/// Whether `b` is an upper-case hexadecimal digit.
pub open spec fn is_upper_hex_digit(b: u8) -> bool {
    (0x30 <= b <= 0x39) || (0x41 <= b <= 0x46)
}

/// Reads the private key in the DER bytes `der` (`from_pkcs1_der`), signs the
/// SHA-256 digest of `data` with `SigningKey::try_sign_digest` (PKCS#1 v1.5,
/// which is deterministic) and gives the signature's text as `Display` writes
/// it: two upper-case hexadecimal digits for each byte. The text is named;
/// `None` where the bytes hold no key or signing fails (a key too small for the
/// digest).
#[verifier::external_body]
fn sign_hex_with_der(der: &[u8], data: &[u8]) -> (r: Option<Vec<u8>>)
    ensures
        match r {
            Some(t) => rsa_signature_text_der(der@, data@) == Some(t@),
            None => rsa_signature_text_der(der@, data@) is None,
        },
        r matches Some(t) ==> t@.len() % 2 == 0 && forall|i: int| 0 <= i < t@.len() ==> is_upper_hex_digit(#[trigger] t@[i]),
{
    let key: RsaPrivateKey = DecodeRsaPrivateKey::from_pkcs1_der(der).ok()?;
    let signer: SigningKey<Sha256> = SigningKey::new(key);
    let mut digest = <Sha256 as Digest>::new();
    digest.update(data);
    signer.try_sign_digest(digest).ok().map(|s| s.to_string().into_bytes())
}

/// Reads the private key in the PEM text `pem` (`from_pkcs1_pem`), signs the
/// SHA-256 digest of `data` with `SigningKey::try_sign_digest` (PKCS#1 v1.5,
/// which is deterministic) and gives the signature's text as `Display` writes
/// it: two upper-case hexadecimal digits for each byte. The text is named;
/// `None` where the PEM holds no key or signing fails.
#[verifier::external_body]
fn sign_hex_with_pem(pem: &str, data: &[u8]) -> (r: Option<Vec<u8>>)
    ensures
        match r {
            Some(t) => rsa_signature_text(pem@, data@) == Some(t@),
            None => rsa_signature_text(pem@, data@) is None,
        },
        r is Some ==> private_pem_decodes(pem@),
        r matches Some(t) ==> t@.len() % 2 == 0 && forall|i: int| 0 <= i < t@.len() ==> is_upper_hex_digit(#[trigger] t@[i]),
{
    let key: RsaPrivateKey = DecodeRsaPrivateKey::from_pkcs1_pem(pem).ok()?;
    let signer: SigningKey<Sha256> = SigningKey::new(key);
    let mut digest = <Sha256 as Digest>::new();
    digest.update(data);
    signer.try_sign_digest(digest).ok().map(|s| s.to_string().into_bytes())
}

/// Whether the private key with the PKCS#1 DER bytes `priv_der` is the one that
/// matches the public key with the PKCS#1 DER bytes `pub_der`, as far as
/// decryption goes: it decrypts every ciphertext as the matching private key
/// does.
pub open spec fn keys_match(priv_der: Seq<u8>, pub_der: Seq<u8>) -> bool {
    forall|c: Seq<u8>| #[trigger] rsa_decryption(priv_der, c) == rsa_public_decryption(pub_der, c)
}

/// Whether every signature that the private key with the PKCS#1 DER bytes
/// `priv_der` makes verifies under the public key with the PKCS#1 DER bytes
/// `pub_der`.
pub open spec fn signatures_verify(priv_der: Seq<u8>, pub_der: Seq<u8>) -> bool {
    forall|data: Seq<u8>|
        #[trigger] rsa_signature_text_der(priv_der, data) matches Some(t) ==> rsa_sha256_verifies(pub_der, data, hex_decoded(t))
}

/// A fresh RSA key pair of `bits` bits, by `RsaPrivateKey::new` with a thread
/// random generator, given with its public half (`RsaPublicKey::from`) and the
/// PKCS#1 DER bytes of both (`to_pkcs1_der`); `None` where the crate refuses
/// the size. The keys are chosen at random, so nothing is stated of them but
/// that they are a pair: PKCS#1 v1.5 decryption and signing with the private key
/// are undone by the public half.
#[verifier::external_body]
fn new_key_pair(bits: usize) -> (r: Option<(RsaPrivateKey, Vec<u8>, RsaPublicKey, Vec<u8>)>)
    ensures
        r matches Some((_, priv_der, _, pub_der)) ==> keys_match(priv_der@, pub_der@) && signatures_verify(priv_der@, pub_der@),
{
    let mut rng = rand::thread_rng();
    let key = RsaPrivateKey::new(&mut rng, bits).ok()?;
    let priv_der = key.to_pkcs1_der().ok()?.as_bytes().to_vec();
    let public = RsaPublicKey::from(&key);
    let pub_der = public.to_pkcs1_der().ok()?.to_vec();
    Some((key, priv_der, public, pub_der))
}

/// The PEM text of a private key, by `EncodeRsaPrivateKey::to_pkcs1_pem` with
/// the default line ending; `None` where the crate cannot write the key.
/// Nothing is stated of the text, which depends on the opaque key.
#[verifier::external_body]
fn private_key_pem(key: &RsaPrivateKey) -> Option<String> {
    key.to_pkcs1_pem(LineEnding::default()).ok().map(|t| t.to_string())
}

/// The PEM text of a public key, by `EncodeRsaPublicKey::to_pkcs1_pem` with the
/// default line ending; `None` where the crate cannot write it. Nothing is
/// stated of the text, which depends on the opaque key.
#[verifier::external_body]
fn public_key_pem(key: &RsaPublicKey) -> Option<String> {
    key.to_pkcs1_pem(LineEnding::default()).ok()
}

/// Hashes a public key into `hasher` with the `Hash` impl that the rsa crate
/// derives for it. Nothing is stated of what it writes.
#[verifier::external_body]
fn hash_public_key(key: &RsaPublicKey, hasher: &mut DefaultHasher) {
    key.hash(hasher)
}

/// A random byte, by `rand::random`.
#[verifier::external_body]
fn random_u8() -> u8 {
    rand::random::<u8>()
}

/// A fresh random 12-byte nonce, by `Aes256Gcm::generate_nonce` with the
/// system's random source.
#[verifier::external_body]
fn random_nonce() -> [u8; 12] {
    Aes256Gcm::generate_nonce(&mut OsRng).into()
}

/// Encrypts with AES-256-GCM (`Aead::encrypt` of a cipher made from `key`):
/// the ciphertext with its 16-byte tag. The crate accepts any plaintext of at
/// most 2^36 bytes, and opening the result with the same key and nonce gives
/// the plaintext back.
#[verifier::external_body]
fn aes_gcm_seal(key: &[u8; 32], nonce: &[u8; 12], plaintext: &[u8]) -> (r: Vec<u8>)
    requires
        plaintext@.len() <= 0x10_0000_0000,
    ensures
        r@ == aes256gcm_seal(key@, nonce@, plaintext@),
        r@.len() == plaintext@.len() + 16,
        aes256gcm_open(key@, nonce@, r@) == Some(plaintext@),
{
    let cipher = Aes256Gcm::new(Key::<Aes256Gcm>::from_slice(key));
    cipher.encrypt(Nonce::from_slice(nonce), plaintext).unwrap()
}

/// Decrypts with AES-256-GCM (`Aead::decrypt` of a cipher made from `key`);
/// `None` where the crate refuses the ciphertext.
#[verifier::external_body]
fn aes_gcm_open(key: &[u8; 32], nonce: &[u8; 12], ciphertext: &[u8]) -> (r: Option<Vec<u8>>)
    ensures
        match r {
            Some(v) => aes256gcm_open(key@, nonce@, ciphertext@) == Some(v@),
            None => aes256gcm_open(key@, nonce@, ciphertext@) is None,
        },
{
    let cipher = Aes256Gcm::new(Key::<Aes256Gcm>::from_slice(key));
    cipher.decrypt(Nonce::from_slice(nonce), ciphertext).ok()
}

/// Encrypts to and verifies the signatures of a gnome, by its public key, kept
/// with its PKCS#1 DER encoding.
#[derive(Clone, Debug)]
pub struct Encrypter {
    key: RsaPublicKey,
    der: Vec<u8>,
}

impl Encrypter {
    /// The public key.
    pub closed spec fn key(&self) -> RsaPublicKey {
        self.key
    }

    /// The PKCS#1 DER encoding of the public key.
    pub closed spec fn der(&self) -> Seq<u8> {
        self.der@
    }

    /// The encrypter of `pub_key`.
    pub fn create(pub_key: RsaPublicKey) -> (r: Self)
        ensures
            r.key() == pub_key,
    {
        let der = public_key_der(&pub_key);
        Encrypter { key: pub_key, der }
    }

    /// A hash of the public key.
    pub fn hash(&self) -> u64 {
        let mut hasher = DefaultHasher::new();
        hash_public_key(&self.key, &mut hasher);
        hasher.finish()
    }

    /// The public key's DER encoding.
    pub fn pub_key_der(&self) -> (r: Vec<u8>)
        ensures
            r@ == self.der(),
    {
        let mut out: Vec<u8> = Vec::new();
        let mut i: usize = 0;
        while i < self.der.len()
            invariant
                i <= self.der@.len(),
                out@ == self.der@.take(i as int),
            decreases self.der@.len() - i,
        {
            out.push(self.der[i]);
            i = i + 1;
            assert(out@ =~= self.der@.take(i as int));
        }
        assert(self.der@.take(self.der@.len() as int) =~= self.der@);
        out
    }

    /// The encrypter of a PEM-encoded public key, or the error that it cannot
    /// be read.
    pub fn create_from_data(data: &str) -> (r: Result<Self, String>)
        ensures
            r is Ok <==> public_pem_decodes(data@),
            r matches Ok(e) ==> e.der() == pem_der(data@),
            r matches Err(e) ==> e@ == "Unable to create Encrypter from data"@,
    {
        match public_key_from_pem(data) {
            Some((key, der)) => Ok(Encrypter { key, der }),
            None => Err("Unable to create Encrypter from data".to_owned()),
        }
    }

    /// Encrypts `data` to this key, or gives the error that it could not: where
    /// the key refuses a message of that length. What it gives decrypts to
    /// `data` with the matching private key.
    pub fn encrypt(&self, data: &[u8]) -> (r: Result<Vec<u8>, String>)
        ensures
            r is Ok <==> (public_der_decodes(self.der()) && rsa_encrypt_accepts_der(self.der(), data@.len())),
            r matches Ok(c) ==> rsa_public_decryption(self.der(), c@) == Some(data@),
            r matches Err(e) ==> e@ == "Unable to encrypt data"@,
    {
        match encrypt_with_der(self.der.as_slice(), data) {
            Some(vector) => Ok(vector),
            None => Err("Unable to encrypt data".to_owned()),
        }
    }

    /// Whether `signature` is this key's PKCS#1 v1.5 SHA-256 signature of `data`.
    pub fn verify(&self, data: &[u8], signature: &[u8]) -> (r: bool)
        ensures
            r == rsa_sha256_verifies(self.der(), data@, signature@),
    {
        verify_with_der(self.der.as_slice(), data, signature)
    }
}

/// The value of an upper-case hexadecimal digit.
pub open spec fn hex_value(b: u8) -> u8 {
    if b <= 0x39 {
        (b - 0x30) as u8
    } else {
        (b - 0x41 + 10) as u8
    }
}

/// The bytes that a text of pairs of hexadecimal digits stands for.
pub open spec fn hex_decoded(s: Seq<u8>) -> Seq<u8> {
    Seq::new(s.len() / 2, |i: int| (hex_value(s[2 * i]) * 16 + hex_value(s[2 * i + 1])) as u8)
}

/// Reads a text of pairs of upper-case hexadecimal digits as the bytes they
/// stand for.
pub fn decode_hex_signature(s: &[u8]) -> (r: Vec<u8>)
    requires
        s@.len() % 2 == 0,
        forall|i: int| 0 <= i < s@.len() ==> is_upper_hex_digit(#[trigger] s@[i]),
    ensures
        r@ == hex_decoded(s@),
{
    let mut bytes: Vec<u8> = Vec::new();
    let mut i: usize = 0;
    while i < s.len()
        invariant
            i <= s@.len(),
            i % 2 == 0,
            s@.len() % 2 == 0,
            forall|k: int| 0 <= k < s@.len() ==> is_upper_hex_digit(#[trigger] s@[k]),
            bytes@.len() == i / 2,
            forall|k: int| 0 <= k < i / 2 ==> bytes@[k] == (hex_value(s@[2 * k]) * 16 + hex_value(s@[2 * k + 1])) as u8,
        decreases s@.len() - i,
    {
        let hi = s[i];
        let lo = s[i + 1];
        let hv: u8 = if hi <= 0x39 { hi - 0x30 } else { hi - 0x41 + 10 };
        let lv: u8 = if lo <= 0x39 { lo - 0x30 } else { lo - 0x41 + 10 };
        assert(is_upper_hex_digit(s@[i as int]) && is_upper_hex_digit(s@[i + 1]));
        bytes.push(hv * 16 + lv);
        i = i + 2;
    }
    assert(bytes@ =~= hex_decoded(s@));
    bytes
}

/// Decrypts what was encrypted to a gnome and signs in its name, by its private
/// key, kept with its PKCS#1 DER encoding.
#[derive(Clone)]
pub struct Decrypter {
    key: RsaPrivateKey,
    der: Vec<u8>,
}

impl Decrypter {
    /// The private key this decrypter holds.
    pub closed spec fn private_key(&self) -> RsaPrivateKey {
        self.key
    }

    /// The PKCS#1 DER encoding of the private key.
    pub closed spec fn der(&self) -> Seq<u8> {
        self.der@
    }

    /// The decrypter of `priv_key`. A key that the rsa crate cannot write as
    /// two-prime PKCS#1 DER is kept without DER bytes, and such a decrypter
    /// decrypts and signs nothing.
    pub fn create(priv_key: RsaPrivateKey) -> (r: Self)
        ensures
            r.private_key() == priv_key,
    {
        let der = match private_key_der(&priv_key) {
            Some(der) => der,
            None => Vec::new(),
        };
        Decrypter { key: priv_key, der }
    }

    /// The decrypter of a PEM-encoded private key, or the error that it cannot
    /// be read.
    pub fn create_from_data(data: &str) -> (r: Result<Self, String>)
        ensures
            r is Ok <==> private_pem_decodes(data@),
            r matches Err(e) ==> e@ == "Unable to create Encrypter from data"@,
    {
        match private_key_from_pem(data) {
            Some(priv_key) => Ok(Decrypter::create(priv_key)),
            None => Err("Unable to create Encrypter from data".to_owned()),
        }
    }

    /// Decrypts `data`, or gives the error that it could not.
    pub fn decrypt(&self, data: &[u8]) -> (r: Result<Vec<u8>, String>)
        ensures
            match rsa_decryption(self.der(), data@) {
                Some(p) => r matches Ok(v) && v@ == p,
                None => r matches Err(e) && e@ == "Unable to decrypt data"@,
            },
    {
        match decrypt_with_der(self.der.as_slice(), data) {
            Some(dec_data) => Ok(dec_data),
            None => Err("Unable to decrypt data".to_owned()),
        }
    }

    /// Signs `data`: the bytes of the PKCS#1 v1.5 SHA-256 signature, read from
    /// the text the crate writes for it; `Err` where the key cannot sign.
    pub fn sign(&self, data: &[u8]) -> (r: Result<Vec<u8>, ()>)
        ensures
            match rsa_signature_text_der(self.der(), data@) {
                Some(text) => r matches Ok(s) && s@ == hex_decoded(text),
                None => r is Err,
            },
    {
        match sign_hex_with_der(self.der.as_slice(), data) {
            Some(signature_text) => Ok(decode_hex_signature(signature_text.as_slice())),
            None => Err(()),
        }
    }
}

/// What a session key decrypts `data` to: the first 12 bytes are the nonce, the
/// rest the ciphertext.
pub open spec fn session_open(key: Seq<u8>, data: Seq<u8>) -> Option<Seq<u8>> {
    aes256gcm_open(key, data.take(12), data.skip(12))
}

/// The key that seals the datagrams between two gnomes.
pub struct SessionKey {
    key: [u8; 32],
}

impl View for SessionKey {
    type V = Seq<u8>;

    closed spec fn view(&self) -> Seq<u8> {
        self.key@
    }
}

impl SessionKey {
    /// The session key with the given 32 bytes.
    pub fn from_key(key_str: &[u8; 32]) -> (r: Self)
        ensures
            r@ == key_str@,
    {
        SessionKey { key: *key_str }
    }

    /// Seals `plaintext` under a fresh random nonce: the nonce, then the
    /// ciphertext with its tag.
    pub fn encrypt(&self, plaintext: &[u8]) -> (r: Vec<u8>)
        requires
            plaintext@.len() <= 0x10_0000_0000,
        ensures
            sealed_by(self@, plaintext@, r@),
    {
        let nonce = random_nonce();
        let ciphered_data = aes_gcm_seal(&self.key, &nonce, plaintext);
        let mut encrypted_data: Vec<u8> = Vec::new();
        let mut i: usize = 0;
        while i < 12
            invariant
                i <= 12,
                encrypted_data@ == nonce@.take(i as int),
            decreases 12 - i,
        {
            encrypted_data.push(nonce[i]);
            i = i + 1;
            assert(encrypted_data@ =~= nonce@.take(i as int));
        }
        let ghost n = encrypted_data@;
        let mut k: usize = 0;
        while k < ciphered_data.len()
            invariant
                k <= ciphered_data@.len(),
                encrypted_data@ == n + ciphered_data@.take(k as int),
            decreases ciphered_data@.len() - k,
        {
            encrypted_data.push(ciphered_data[k]);
            k = k + 1;
            assert(encrypted_data@ =~= n + ciphered_data@.take(k as int));
        }
        assert(nonce@.take(12) =~= nonce@);
        assert(ciphered_data@.take(k as int) =~= ciphered_data@);
        assert(encrypted_data@.take(12) =~= nonce@);
        assert(encrypted_data@.skip(12) =~= ciphered_data@);
        encrypted_data
    }

    /// Opens what was sealed under this key: its first 12 bytes are the nonce.
    pub fn decrypt(&self, encrypted_data: &[u8]) -> (r: Result<Vec<u8>, String>)
        requires
            encrypted_data@.len() >= 12,
        ensures
            match session_decrypt_result(self@, encrypted_data@) {
                Ok(p) => r matches Ok(v) && v@ == p,
                Err(m) => r matches Err(e) && e@ == m,
            },
    {
        let nonce = [
            encrypted_data[0],
            encrypted_data[1],
            encrypted_data[2],
            encrypted_data[3],
            encrypted_data[4],
            encrypted_data[5],
            encrypted_data[6],
            encrypted_data[7],
            encrypted_data[8],
            encrypted_data[9],
            encrypted_data[10],
            encrypted_data[11],
        ];
        assert(nonce@ =~= encrypted_data@.take(12));
        let mut ciphered: Vec<u8> = Vec::new();
        let mut i: usize = 12;
        while i < encrypted_data.len()
            invariant
                12 <= i <= encrypted_data@.len(),
                ciphered@ == encrypted_data@.subrange(12, i as int),
            decreases encrypted_data@.len() - i,
        {
            ciphered.push(encrypted_data[i]);
            i = i + 1;
            assert(ciphered@ =~= encrypted_data@.subrange(12, i as int));
        }
        assert(ciphered@ =~= encrypted_data@.skip(12));
        match aes_gcm_open(&self.key, &nonce, ciphered.as_slice()) {
            Some(data) => Ok(data),
            None => Err("Failed to decrypt data".to_owned()),
        }
    }
}

/// Whether `sealed` is what `SessionKey::encrypt` makes of `plaintext` under
/// `key`, as its contract says.
pub open spec fn sealed_by(key: Seq<u8>, plaintext: Seq<u8>, sealed: Seq<u8>) -> bool {
    &&& sealed.len() == 12 + plaintext.len() + 16
    &&& sealed.skip(12) == aes256gcm_seal(key, sealed.take(12), plaintext)
    &&& session_open(key, sealed) == Some(plaintext)
}

/// What `SessionKey::decrypt` gives for `data` under `key`, as its contract says:
/// the plaintext, or the error text.
pub open spec fn session_decrypt_result(key: Seq<u8>, data: Seq<u8>) -> Result<Seq<u8>, Seq<char>> {
    match session_open(key, data) {
        Some(p) => Ok(p),
        None => Err("Failed to decrypt data"@),
    }
}

/// Decrypting what a session key encrypted gives the plaintext back.
pub proof fn lemma_session_roundtrip(key: Seq<u8>, plaintext: Seq<u8>, sealed: Seq<u8>)
    requires
        sealed_by(key, plaintext, sealed),
    ensures
        sealed.len() >= 12,
        session_decrypt_result(key, sealed) == Ok::<Seq<u8>, Seq<char>>(plaintext),
{
}

/// A fresh random symmetric key of 32 bytes.
pub fn generate_symmetric_key() -> [u8; 32] {
    let mut resulting_array: [u8; 32] = [0; 32];
    let mut i: usize = 0;
    while i < 32
        invariant
            i <= 32,
        decreases 32 - i,
    {
        resulting_array[i] = random_u8();
        i = i + 1;
    }
    resulting_array
}

/// A fresh RSA key pair of `bits` bits, or `None` where the size is refused.
pub fn get_new_key_pair(bits: usize) -> Option<(RsaPrivateKey, RsaPublicKey)> {
    match new_key_pair(bits) {
        Some((priv_key, _, pub_key, _)) => Some((priv_key, pub_key)),
        None => None,
    }
}

/// A fresh RSA key pair of `bits` bits, as the decrypter of its private key and
/// the encrypter of its public half, or `None` where the size is refused. The
/// two are a pair: what is encrypted to the one the other decrypts, and what
/// the other signs the one verifies.
pub fn new_cipher_pair(bits: usize) -> (r: Option<(Decrypter, Encrypter)>)
    ensures
        r matches Some((d, e)) ==> keys_match(d.der(), e.der()) && signatures_verify(d.der(), e.der()),
{
    match new_key_pair(bits) {
        Some((priv_key, priv_der, pub_key, pub_der)) => Some((
            Decrypter { key: priv_key, der: priv_der },
            Encrypter { key: pub_key, der: pub_der },
        )),
        None => None,
    }
}

/// A signature that a private key makes verifies under the public key it is
/// paired with.
pub proof fn lemma_paired_signature_verifies(priv_der: Seq<u8>, pub_der: Seq<u8>, data: Seq<u8>, text: Seq<u8>)
    requires
        signatures_verify(priv_der, pub_der),
        rsa_signature_text_der(priv_der, data) == Some(text),
    ensures
        rsa_sha256_verifies(pub_der, data, hex_decoded(text)),
{
    assert(rsa_signature_text_der(priv_der, data) matches Some(t) ==> rsa_sha256_verifies(pub_der, data, hex_decoded(t)));
}

/// What a public key encrypts, the private key paired with it decrypts back.
pub proof fn lemma_paired_key_decrypts(priv_der: Seq<u8>, pub_der: Seq<u8>, data: Seq<u8>, sent: Seq<u8>)
    requires
        keys_match(priv_der, pub_der),
        rsa_public_decryption(pub_der, sent) == Some(data),
    ensures
        rsa_decryption(priv_der, sent) == Some(data),
{
    assert(rsa_decryption(priv_der, sent) == rsa_public_decryption(pub_der, sent));
}

/// The key pair in the PEM texts `priv_pem` and `pub_pem`, where both hold a
/// key the rsa crate reads.
pub fn key_pair_from_pems(priv_pem: &str, pub_pem: &str) -> (r: Option<(RsaPrivateKey, RsaPublicKey)>)
    ensures
        r is Some == (private_pem_decodes(priv_pem@) && public_pem_decodes(pub_pem@)),
{
    match private_key_from_pem(priv_pem) {
        Some(priv_key) => match public_key_from_pem(pub_pem) {
            Some((pub_key, _)) => Some((priv_key, pub_key)),
            None => None,
        },
        None => None,
    }
}

/// The PEM texts a key pair is stored as, private key first, or the error that
/// one of them cannot be written: the private key's first.
pub fn key_pair_as_pems(priv_key: &RsaPrivateKey, pub_key: &RsaPublicKey) -> (r: Result<(String, String), String>)
    ensures
        r matches Err(e) ==> (e@ == "Could not write priv file"@ || e@ == "Could not write pub file"@),
{
    match private_key_pem(priv_key) {
        Some(p) => match public_key_pem(pub_key) {
            Some(q) => Ok((p, q)),
            None => Err("Could not write pub file".to_owned()),
        },
        None => Err("Could not write priv file".to_owned()),
    }
}

/// Takes the last four bytes off `data`.
fn drop_time(data: &mut Vec<u8>)
    requires
        old(data)@.len() >= 4,
    ensures
        final(data)@ == old(data)@.take(old(data)@.len() - 4),
{
    data.pop();
    data.pop();
    data.pop();
    data.pop();
    assert(data@ =~= old(data)@.take(old(data)@.len() - 4));
}

/// Signs `data` followed by the four bytes of `swarm_time`, big end first, with
/// the private key in the PEM text `priv_key_pem`: the bytes that the
/// signature's text stands for, or `Err` where the text holds no key or the key
/// cannot sign. `data` is given back as it was.
pub fn sign_at_time(priv_key_pem: &str, swarm_time: u32, data: &mut Vec<u8>) -> (r: Result<Vec<u8>, ()>)
    ensures
        final(data)@ == old(data)@,
        match r {
            Ok(s) => rsa_signature_text(priv_key_pem@, old(data)@ + u32_bytes(swarm_time)) matches Some(
                text,
            ) && s@ == hex_decoded(text),
            Err(_) => rsa_signature_text(priv_key_pem@, old(data)@ + u32_bytes(swarm_time)) is None,
        },
        r is Ok ==> private_pem_decodes(priv_key_pem@),
{
    put_u32(data, swarm_time);
    let signed = sign_hex_with_pem(priv_key_pem, data.as_slice());
    drop_time(data);
    assert(data@ =~= old(data)@);
    match signed {
        Some(text) => Ok(decode_hex_signature(text.as_slice())),
        None => Err(()),
    }
}

/// The swarm times at which a signature made at about `swarm_time` is tried, in
/// order: that time, one after and one before it; at time 0, that time and one
/// after.
pub open spec fn signature_times_spec(swarm_time: u32) -> Seq<u32> {
    if swarm_time >= 1 {
        seq![swarm_time, (swarm_time + 1) as u32, (swarm_time - 1) as u32]
    } else {
        seq![swarm_time, (swarm_time + 1) as u32]
    }
}

/// The swarm times at which a signature made at about `swarm_time` is tried.
pub fn signature_times(swarm_time: u32) -> (r: Vec<u32>)
    requires
        swarm_time < u32::MAX,
    ensures
        r@ == signature_times_spec(swarm_time),
{
    let mut times: Vec<u32> = Vec::new();
    times.push(swarm_time);
    times.push(swarm_time + 1);
    if swarm_time >= 1 {
        times.push(swarm_time - 1);
    }
    assert(times@ =~= signature_times_spec(swarm_time));
    times
}

/// Whether `signature` holds for `data` followed by the four bytes of one of the
/// times `signature_times_spec(swarm_time)`, under the key with DER bytes `der`.
pub open spec fn verifies_near(der: Seq<u8>, swarm_time: u32, data: Seq<u8>, signature: Seq<u8>) -> bool {
    exists|k: int|
        0 <= k < signature_times_spec(swarm_time).len() && #[trigger] rsa_sha256_verifies(
            der,
            data + u32_bytes(signature_times_spec(swarm_time)[k]),
            signature,
        )
}

/// Checks a signature made by the gnome `gnome_id` over `data` followed by the
/// four bytes of a swarm time, with the public key whose DER bytes are `key` and
/// whose hash, as gnome ids are made, is `key_hash`: it holds where the key can
/// be read, its hash is the gnome's id, and the signature holds at one of the
/// times `signature_times` gives, tried in order. `data` is given back as it was.
pub fn verify_at_time(
    gnome_id: u64,
    key_hash: u64,
    key: &Vec<u8>,
    swarm_time: u32,
    data: &mut Vec<u8>,
    signature: &[u8],
) -> (r: bool)
    requires
        swarm_time < u32::MAX,
    ensures
        final(data)@ == old(data)@,
        r == (public_der_decodes(key@) && key_hash == gnome_id && verifies_near(key@, swarm_time, old(data)@, signature@)),
{
    if key_hash != gnome_id {
        return false;
    }
    let ghost d = data@;
    let times = signature_times(swarm_time);
    let mut result = false;
    let mut k: usize = 0;
    while k < times.len() && !result
        invariant
            k <= times@.len(),
            times@ == signature_times_spec(swarm_time),
            data@ == d,
            d == old(data)@,
            result ==> public_der_decodes(key@) && verifies_near(key@, swarm_time, d, signature@),
            !result ==> forall|j: int| 0 <= j < k ==> !#[trigger] rsa_sha256_verifies(key@, d + u32_bytes(times@[j]), signature@),
        decreases times@.len() - k,
    {
        put_u32(data, times[k]);
        result = verify_with_der(key.as_slice(), data.as_slice(), signature);
        proof {
            if result {
                assert(rsa_sha256_verifies(key@, d + u32_bytes(signature_times_spec(swarm_time)[k as int]), signature@));
            }
        }
        drop_time(data);
        assert(data@ =~= d);
        k = k + 1;
    }
    proof {
        if !result && public_der_decodes(key@) && verifies_near(key@, swarm_time, d, signature@) {
            let j = choose|j: int| 0 <= j < signature_times_spec(swarm_time).len() && #[trigger] rsa_sha256_verifies(
                key@,
                d + u32_bytes(signature_times_spec(swarm_time)[j]),
                signature@,
            );
            assert(!rsa_sha256_verifies(key@, d + u32_bytes(times@[j]), signature@));
        }
    }
    result
}

} // verus!
