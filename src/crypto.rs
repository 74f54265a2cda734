//! The per-connection key material and the calls into the RSA, AES/CFB8 and
//! random-number crates that use it.
use crate::error::ProtocolError;
use cfb8::cipher::NewCipher;
use vstd::prelude::*;

verus! {

/// The size in bits of the key pair made for each connection.
pub const KEY_BITS: usize = 1024;

/// The length in bytes of the verify token and of the shared secret.
pub const TOKEN_LEN: usize = 16;

#[verifier::external_type_specification]
#[verifier::external_body]
pub struct ExRsaPrivateKey(rsa::RsaPrivateKey);

/// Relies on `rsa::RsaPrivateKey::new` with the thread-local generator of
/// `rand`: a fresh key pair of `bits` bits, or `None` where generation fails.
#[verifier::external_body]
fn generate_private_key(bits: usize) -> (r: Option<rsa::RsaPrivateKey>)
    requires
        1024 <= bits <= 4096,
{
    rsa::RsaPrivateKey::new(&mut rand::thread_rng(), bits).ok()
}

/// Relies on `rsa::pkcs8::EncodePublicKey::to_public_key_der` of the key's
/// public half: its DER-encoded SubjectPublicKeyInfo, or `None` where the
/// encoder fails.
#[verifier::external_body]
fn public_key_der(key: &rsa::RsaPrivateKey) -> (r: Option<Vec<u8>>) {
    rsa::pkcs8::EncodePublicKey::to_public_key_der(&rsa::RsaPublicKey::from(key)).ok().map(
        |d| d.into_vec(),
    )
}

/// Relies on `rsa::RsaPrivateKey::decrypt` with PKCS#1 v1.5 padding: the
/// plaintext, or `None` where the ciphertext does not decrypt.
#[verifier::external_body]
fn rsa_decrypt(key: &rsa::RsaPrivateKey, ciphertext: &[u8]) -> (r: Option<Vec<u8>>) {
    key.decrypt(rsa::Pkcs1v15Encrypt, ciphertext).ok()
}

/// Relies on `rand::Rng::fill` with the thread-local generator: overwrites
/// every byte with a random one.
#[verifier::external_body]
fn fill_random(buf: &mut Vec<u8>)
    ensures
        final(buf)@.len() == old(buf)@.len(),
{
    rand::Rng::fill(&mut rand::thread_rng(), buf.as_mut_slice())
}

/// AES-128 in CFB8 mode as the `cfb8` crate holds it: a block cipher and
/// a sixteen-byte shift register that each processed byte moves along.
#[verifier::external_body]
pub struct Cfb8State {
    inner: cfb8::Cfb8<aes::Aes128>,
}

/// The CFB8 ciphertext of `plain` under AES-128, with `key` as key and IV.
pub uninterp spec fn cfb8_encrypt_stream(key: Seq<u8>, plain: Seq<u8>) -> Seq<u8>;

/// The CFB8 plaintext of `cipher` under AES-128, with `key` as key and IV.
pub uninterp spec fn cfb8_decrypt_stream(key: Seq<u8>, cipher: Seq<u8>) -> Seq<u8>;

/// Relies on `cfb8::cipher::NewCipher::new_from_slices` for AES-128 in CFB8
/// mode, with `key` as both key and IV: it succeeds exactly when `key` is
/// sixteen bytes long, and then gives one fresh cipher for each direction,
/// each keyed by `key` and fed nothing yet.
#[verifier::external_body]
fn new_cfb8_pair(key: &[u8]) -> (r: Option<(Cfb8Encryptor, Cfb8Decryptor)>)
    ensures
        r is Some <==> key@.len() == 16,
        r matches Some(p) ==> p.0.key@ == key@ && p.0.fed@ == Seq::<u8>::empty() && p.1.key@
            == key@ && p.1.fed@ == Seq::<u8>::empty(),
{
    let enc = <cfb8::Cfb8<aes::Aes128> as NewCipher>::new_from_slices(key, key).ok()?;
    let dec = <cfb8::Cfb8<aes::Aes128> as NewCipher>::new_from_slices(key, key).ok()?;
    let (k, f) = (Ghost(key@), Ghost(Seq::empty()));
    let e = Cfb8Encryptor { state: Cfb8State { inner: enc }, key: k, fed: f };
    let d = Cfb8Decryptor { state: Cfb8State { inner: dec }, key: k, fed: f };
    Some((e, d))
}

/// Relies on `cfb8::cipher::AsyncStreamCipher::encrypt`: a CFB8 cipher made
/// from `e.key` and fed `e.fed` before turns `buf` into the bytes of the
/// one-pass encryption of `e.fed + buf` that follow `e.fed`'s, one output
/// byte per input byte; encrypting in pieces gives the bytes of one pass.
#[verifier::external_body]
fn cfb8_encrypt(e: &mut Cfb8Encryptor, buf: &mut Vec<u8>)
    ensures
        final(buf)@.len() == old(buf)@.len(),
        final(buf)@ == cfb8_encrypt_stream(old(e).key@, old(e).fed@ + old(buf)@).skip(
            old(e).fed@.len() as int,
        ),
        final(e).key@ == old(e).key@,
        final(e).fed@ == old(e).fed@ + old(buf)@,
{
    cfb8::cipher::AsyncStreamCipher::encrypt(&mut e.state.inner, buf.as_mut_slice())
}

/// Relies on `cfb8::cipher::AsyncStreamCipher::decrypt`: a CFB8 cipher made
/// from `d.key` and fed the ciphertext `d.fed` before turns `buf` into the
/// bytes of the one-pass decryption of `d.fed + buf` that follow `d.fed`'s,
/// one output byte per input byte.
#[verifier::external_body]
fn cfb8_decrypt(d: &mut Cfb8Decryptor, buf: &mut Vec<u8>)
    ensures
        final(buf)@.len() == old(buf)@.len(),
        final(buf)@ == cfb8_decrypt_stream(old(d).key@, old(d).fed@ + old(buf)@).skip(
            old(d).fed@.len() as int,
        ),
        final(d).key@ == old(d).key@,
        final(d).fed@ == old(d).fed@ + old(buf)@,
{
    cfb8::cipher::AsyncStreamCipher::decrypt(&mut d.state.inner, buf.as_mut_slice())
}

/// The encrypting direction of a connection: AES-128/CFB8 keyed, and with
/// its IV set, by the shared secret; it remembers the plaintext fed so far.
pub struct Cfb8Encryptor {
    state: Cfb8State,
    key: Ghost<Seq<u8>>,
    fed: Ghost<Seq<u8>>,
}

/// The decrypting direction of a connection: AES-128/CFB8 keyed, and with
/// its IV set, by the shared secret; it remembers the ciphertext fed so far.
pub struct Cfb8Decryptor {
    state: Cfb8State,
    key: Ghost<Seq<u8>>,
    fed: Ghost<Seq<u8>>,
}

/// The ciphers of both directions, fresh and keyed by `shared_secret`;
/// they exist exactly for a sixteen-byte secret.
pub fn cipher_pair(shared_secret: &[u8]) -> (r: Option<(Cfb8Encryptor, Cfb8Decryptor)>)
    ensures
        r is Some <==> shared_secret@.len() == TOKEN_LEN,
        r matches Some(p) ==> p.0.key() == shared_secret@ && p.0.fed() == Seq::<u8>::empty()
            && p.1.key() == shared_secret@ && p.1.fed() == Seq::<u8>::empty(),
{
    new_cfb8_pair(shared_secret)
}

impl Cfb8Encryptor {
    pub closed spec fn key(&self) -> Seq<u8> {
        self.key@
    }

    pub closed spec fn fed(&self) -> Seq<u8> {
        self.fed@
    }

    /// A fresh encryptor; it exists exactly for a sixteen-byte secret.
    pub fn new(shared_secret: &[u8]) -> (r: Option<Cfb8Encryptor>)
        ensures
            r is Some <==> shared_secret@.len() == TOKEN_LEN,
            r matches Some(c) ==> c.key() == shared_secret@ && c.fed() == Seq::<u8>::empty(),
    {
        match new_cfb8_pair(shared_secret) {
            Some((e, _)) => Some(e),
            None => None,
        }
    }

    /// Encrypts `buf` in place, continuing the stream of everything fed before.
    pub fn encrypt(&mut self, buf: &mut Vec<u8>)
        ensures
            final(buf)@ == cfb8_encrypt_stream(old(self).key(), old(self).fed() + old(buf)@).skip(
                old(self).fed().len() as int,
            ),
            final(buf)@.len() == old(buf)@.len(),
            final(self).key() == old(self).key(),
            final(self).fed() == old(self).fed() + old(buf)@,
    {
        cfb8_encrypt(self, buf);
    }
}

impl Cfb8Decryptor {
    pub closed spec fn key(&self) -> Seq<u8> {
        self.key@
    }

    pub closed spec fn fed(&self) -> Seq<u8> {
        self.fed@
    }

    /// A fresh decryptor; it exists exactly for a sixteen-byte secret.
    pub fn new(shared_secret: &[u8]) -> (r: Option<Cfb8Decryptor>)
        ensures
            r is Some <==> shared_secret@.len() == TOKEN_LEN,
            r matches Some(c) ==> c.key() == shared_secret@ && c.fed() == Seq::<u8>::empty(),
    {
        match new_cfb8_pair(shared_secret) {
            Some((_, d)) => Some(d),
            None => None,
        }
    }

    /// Decrypts `buf` in place, continuing the stream of everything fed before.
    pub fn decrypt(&mut self, buf: &mut Vec<u8>)
        ensures
            final(buf)@ == cfb8_decrypt_stream(old(self).key(), old(self).fed() + old(buf)@).skip(
                old(self).fed().len() as int,
            ),
            final(buf)@.len() == old(buf)@.len(),
            final(self).key() == old(self).key(),
            final(self).fed() == old(self).fed() + old(buf)@,
    {
        cfb8_decrypt(self, buf);
    }
}

/// The key material of one connection: a key pair, the public half's DER
/// encoding, and the verify token issued to the client.
pub struct Crypto {
    private_key: rsa::RsaPrivateKey,
    key_bits: Ghost<nat>,
    public_key_der: Vec<u8>,
    verify_token: Vec<u8>,
}

impl Crypto {
    /// The size in bits that the key pair was asked for.
    pub closed spec fn spec_key_bits(&self) -> nat {
        self.key_bits@
    }

    pub closed spec fn spec_verify_token(&self) -> Seq<u8> {
        self.verify_token@
    }

    pub closed spec fn spec_public_key_der(&self) -> Seq<u8> {
        self.public_key_der@
    }

    /// Makes a fresh key pair and a random verify token of sixteen bytes.
    pub fn new() -> (r: Result<Crypto, ProtocolError>)
        ensures
            r matches Ok(c) ==> c.spec_verify_token().len() == TOKEN_LEN && c.spec_key_bits()
                == KEY_BITS,
            r is Err ==> r == Err::<Crypto, ProtocolError>(ProtocolError::KeyGeneration),
    {
        let private_key = match generate_private_key(KEY_BITS) {
            Some(k) => k,
            None => {
                return Err(ProtocolError::KeyGeneration);
            },
        };
        let public_key_der = match public_key_der(&private_key) {
            Some(d) => d,
            None => {
                return Err(ProtocolError::KeyGeneration);
            },
        };
        let mut verify_token: Vec<u8> = Vec::new();
        let mut i: usize = 0;
        while i < TOKEN_LEN
            invariant
                i <= TOKEN_LEN,
                verify_token@.len() == i,
            decreases TOKEN_LEN - i,
        {
            verify_token.push(0u8);
            i = i + 1;
        }
        fill_random(&mut verify_token);
        Ok(Crypto { private_key, key_bits: Ghost(KEY_BITS as nat), public_key_der, verify_token })
    }

    pub fn public_key_der(&self) -> (r: &Vec<u8>)
        ensures
            r@ == self.spec_public_key_der(),
    {
        &self.public_key_der
    }

    pub fn verify_token(&self) -> (r: &Vec<u8>)
        ensures
            r@ == self.spec_verify_token(),
    {
        &self.verify_token
    }

    /// Decrypts with the private key and PKCS#1 v1.5 padding; `None` where
    /// the ciphertext does not decrypt. What comes out depends on the key.
    pub fn decrypt(&self, ciphertext: &[u8]) -> (r: Option<Vec<u8>>) {
        rsa_decrypt(&self.private_key, ciphertext)
    }
}

} // verus!
