//! Envelope cryptography: shared-secret agreement between two node keys,
//! signature checks on message bodies, and authenticated encryption of
//! bodies under a shared secret.
use vstd::prelude::*;
use vstd::slice::{slice_subrange, slice_to_vec};
use aes_gcm::aead::{Aead, KeyInit};

verus! {

/// Length in bytes of a secret key, a public key and a shared secret.
pub const KEY_LEN: usize = 32;

/// Length in bytes of a signature.
pub const SIGNATURE_LEN: usize = 64;

/// Length in bytes of the nonce carried in front of each ciphertext.
pub const NONCE_LEN: usize = 12;

/// Largest plaintext that the cipher accepts (2^36 bytes).
pub const MAX_PLAINTEXT_LEN: u64 = 68719476736;

/// Length in bytes of the authentication tag that ends a sealed body.
pub const TAG_LEN: usize = 16;

/// Largest ciphertext that `decrypt` tries to open: nonce, largest
/// plaintext and tag.
pub const MAX_CIPHERTEXT_LEN: u64 = 68719476764;

/// The public key that belongs to a secret key.
pub uninterp spec fn public_key_of(secret: Seq<u8>) -> Seq<u8>;

/// Whether 32 bytes decode to a curve point, so that they can serve as a
/// public key.
pub uninterp spec fn decodes_to_point(public: Seq<u8>) -> bool;

/// The shared secret that a secret key agrees on with a public key.
pub uninterp spec fn shared_secret_of(secret: Seq<u8>, public: Seq<u8>) -> Seq<u8>;

/// Whether a signature over a message verifies under a public key.
pub uninterp spec fn signature_valid(public: Seq<u8>, signature: Seq<u8>, message: Seq<u8>) -> bool;

/// The sealed form (ciphertext and tag) of a plaintext under a key and nonce.
pub uninterp spec fn sealed_of(key: Seq<u8>, nonce: Seq<u8>, plaintext: Seq<u8>) -> Seq<u8>;

/// Relies on ed25519_dalek::SigningKey::verifying_key: the public key is a
/// function of the 32-byte secret key alone.
#[verifier::external_body]
fn public_key_from_secret(secret: &Vec<u8>) -> (r: Vec<u8>)
    requires
        secret@.len() == KEY_LEN,
    ensures
        r@ == public_key_of(secret@),
        r@.len() == KEY_LEN,
{
    let bytes: [u8; 32] = secret.as_slice().try_into().unwrap();
    ed25519_dalek::SigningKey::from_bytes(&bytes).verifying_key().to_bytes().to_vec()
}

/// Relies on ed25519_dalek::VerifyingKey::from_bytes, to_montgomery and
/// SigningKey::to_scalar_bytes, which the crate documents as an X25519 key
/// pair: the product is the X25519 shared secret, the same from both sides.
/// `None` exactly when the public key bytes are not a curve point.
#[verifier::external_body]
fn diffie_hellman(secret: &Vec<u8>, public: &Vec<u8>) -> (r: Option<Vec<u8>>)
    requires
        secret@.len() == KEY_LEN,
        public@.len() == KEY_LEN,
    ensures
        r is Some <==> decodes_to_point(public@),
        r is Some ==> r->0@ == shared_secret_of(secret@, public@) && r->0@.len() == KEY_LEN,
        forall|other: Seq<u8>|
            other.len() == KEY_LEN && #[trigger] public_key_of(other) == public@ ==> r == Some(
                r->0,
            ) && r->0@ == shared_secret_of(other, public_key_of(secret@)),
{
    let s: [u8; 32] = secret.as_slice().try_into().unwrap();
    let p: [u8; 32] = public.as_slice().try_into().unwrap();
    let key = ed25519_dalek::VerifyingKey::from_bytes(&p).ok()?;
    let scalar = ed25519_dalek::SigningKey::from_bytes(&s).to_scalar_bytes();
    Some(key.to_montgomery().mul_clamped(scalar).to_bytes().to_vec())
}

/// Relies on ed25519_dalek::VerifyingKey::from_bytes and verify_strict: `true`
/// exactly when the public key decodes and the signature verifies over the
/// message.
#[verifier::external_body]
fn ed25519_verify(public: &Vec<u8>, signature: &Vec<u8>, message: &Vec<u8>) -> (r: bool)
    requires
        public@.len() == KEY_LEN,
        signature@.len() == SIGNATURE_LEN,
    ensures
        r == (decodes_to_point(public@) && signature_valid(public@, signature@, message@)),
{
    let p: [u8; 32] = public.as_slice().try_into().unwrap();
    let s: [u8; 64] = signature.as_slice().try_into().unwrap();
    match ed25519_dalek::VerifyingKey::from_bytes(&p) {
        Ok(key) => key.verify_strict(message, &ed25519_dalek::Signature::from_bytes(&s)).is_ok(),
        Err(_) => false,
    }
}

/// Relies on aes_gcm::Aes256Gcm::encrypt, which fails only on a plaintext
/// over 2^36 bytes; the result depends on key, nonce and plaintext alone,
/// and is the encrypted plaintext followed by its 16-byte tag.
#[verifier::external_body]
fn aes_seal(key: &Vec<u8>, nonce: &Vec<u8>, plaintext: &Vec<u8>) -> (r: Vec<u8>)
    requires
        key@.len() == KEY_LEN,
        nonce@.len() == NONCE_LEN,
        plaintext@.len() <= MAX_PLAINTEXT_LEN as nat,
    ensures
        r@ == sealed_of(key@, nonce@, plaintext@),
        r@.len() == plaintext@.len() + TAG_LEN,
{
    let cipher = aes_gcm::Aes256Gcm::new(aes_gcm::Key::<aes_gcm::Aes256Gcm>::from_slice(key));
    cipher.encrypt(aes_gcm::Nonce::from_slice(nonce), plaintext.as_slice()).unwrap()
}

/// Relies on aes_gcm::Aes256Gcm::decrypt: it returns the plaintext whose
/// sealed form is the input, and fails on anything else (the tag is checked,
/// and the keystream makes the plaintext the only one with that sealed form).
/// Taken only on sealed input of at most 2^36 + 16 bytes (the largest
/// plaintext and its tag), so what comes out fits the plaintext bound.
#[verifier::external_body]
fn aes_open(key: &Vec<u8>, nonce: &Vec<u8>, sealed: &[u8]) -> (r: Option<Vec<u8>>)
    requires
        key@.len() == KEY_LEN,
        nonce@.len() == NONCE_LEN,
        sealed@.len() <= MAX_PLAINTEXT_LEN as nat + TAG_LEN,
    ensures
        r is Some ==> sealed_of(key@, nonce@, r->0@) == sealed@ && r->0@.len()
            <= MAX_PLAINTEXT_LEN as nat,
        forall|p: Seq<u8>|
            p.len() <= MAX_PLAINTEXT_LEN as nat && #[trigger] sealed_of(key@, nonce@, p) == sealed@
                ==> r is Some && r->0@ == p,
{
    let cipher = aes_gcm::Aes256Gcm::new(aes_gcm::Key::<aes_gcm::Aes256Gcm>::from_slice(key));
    cipher.decrypt(aes_gcm::Nonce::from_slice(nonce), sealed).ok()
}

/// Relies on rand::random: twelve bytes from the thread-local generator.
#[verifier::external_body]
fn random_nonce() -> (r: Vec<u8>)
    ensures
        r@.len() == NONCE_LEN,
{
    rand::random::<[u8; 12]>().to_vec()
}

/// Why a ciphertext could not be opened.
#[derive(Debug, Clone, Copy, PartialEq, Eq, Structural)]
pub enum DecryptError {
    /// Shorter than the nonce that must lead it.
    MissingNonce,
    /// The tag does not check under the given key.
    AuthenticationFailed,
    /// The peer's public key is not a curve point.
    InvalidPublicKey,
}

/// A ciphertext as carried on the wire: the nonce, then the sealed body.
pub open spec fn framed(nonce: Seq<u8>, sealed: Seq<u8>) -> Seq<u8> {
    nonce + sealed
}

/// Whether `ciphertext` opens under `key`: no longer than the largest
/// ciphertext, it holds a nonce and a sealed body that some plaintext (of a
/// length the cipher accepts) seals to.
pub open spec fn opens(key: Seq<u8>, ciphertext: Seq<u8>) -> bool {
    &&& ciphertext.len() >= NONCE_LEN
    &&& ciphertext.len() <= MAX_CIPHERTEXT_LEN as nat
    &&& exists|p: Seq<u8>|
        p.len() <= MAX_PLAINTEXT_LEN as nat && #[trigger] sealed_of(
            key,
            ciphertext.take(NONCE_LEN as int),
            p,
        ) == ciphertext.skip(NONCE_LEN as int)
}

/// The plaintext that an opening ciphertext holds.
pub open spec fn opened(key: Seq<u8>, ciphertext: Seq<u8>) -> Seq<u8> {
    choose|p: Seq<u8>|
        p.len() <= MAX_PLAINTEXT_LEN as nat && #[trigger] sealed_of(
            key,
            ciphertext.take(NONCE_LEN as int),
            p,
        ) == ciphertext.skip(NONCE_LEN as int)
}

/// The public key of a 32-byte secret key.
pub fn public_key(secret: &Vec<u8>) -> (r: Vec<u8>)
    requires
        secret@.len() == KEY_LEN,
    ensures
        r@ == public_key_of(secret@),
        r@.len() == KEY_LEN,
{
    public_key_from_secret(secret)
}

/// Shared secret of a local secret key and a remote public key. `None` when a
/// key has the wrong length or the public key is not a curve point. Both
/// sides of a pair of keys derive the same secret.
pub fn derive_shared_secret(secret: &Vec<u8>, public: &Vec<u8>) -> (r: Option<Vec<u8>>)
    ensures
        r is Some <==> (secret@.len() == KEY_LEN && public@.len() == KEY_LEN && decodes_to_point(
            public@,
        )),
        r is Some ==> r->0@ == shared_secret_of(secret@, public@) && r->0@.len() == KEY_LEN,
        forall|other: Seq<u8>|
            secret@.len() == KEY_LEN && public@.len() == KEY_LEN && other.len() == KEY_LEN
                && #[trigger] public_key_of(other) == public@ ==> r is Some && r->0@ == shared_secret_of(other, public_key_of(secret@)),
{
    if secret.len() != KEY_LEN || public.len() != KEY_LEN {
        return None;
    }
    diffie_hellman(secret, public)
}

/// Whether `signature` over `message` verifies under `public`. Keys and
/// signatures of the wrong length never verify.
pub fn verify_signature(public: &Vec<u8>, signature: &Vec<u8>, message: &Vec<u8>) -> (r: bool)
    ensures
        r == (public@.len() == KEY_LEN && signature@.len() == SIGNATURE_LEN && decodes_to_point(
            public@,
        ) && signature_valid(public@, signature@, message@)),
{
    if public.len() != KEY_LEN || signature.len() != SIGNATURE_LEN {
        return false;
    }
    ed25519_verify(public, signature, message)
}

/// Encrypts `plaintext` under `key` with the given nonce; the nonce leads the
/// result.
pub fn encrypt_with_nonce(key: &Vec<u8>, nonce: &Vec<u8>, plaintext: &Vec<u8>) -> (r: Vec<u8>)
    requires
        key@.len() == KEY_LEN,
        nonce@.len() == NONCE_LEN,
        plaintext@.len() <= MAX_PLAINTEXT_LEN as nat,
    ensures
        r@ == framed(nonce@, sealed_of(key@, nonce@, plaintext@)),
        r@.len() == NONCE_LEN + plaintext@.len() + TAG_LEN,
{
    let sealed = aes_seal(key, nonce, plaintext);
    let mut r = nonce.clone();
    let mut i: usize = 0;
    while i < sealed.len()
        invariant
            i <= sealed@.len(),
            r@ == nonce@ + sealed@.take(i as int),
        decreases sealed@.len() - i,
    {
        r.push(sealed[i]);
        i = i + 1;
        assert(sealed@.take(i as int) == sealed@.take(i - 1 as int).push(sealed@[i - 1]));
    }
    assert(sealed@.take(sealed@.len() as int) == sealed@);
    r
}

/// Encrypts `plaintext` under `key` with a fresh random nonce.
pub fn encrypt(key: &Vec<u8>, plaintext: &Vec<u8>) -> (r: Vec<u8>)
    requires
        key@.len() == KEY_LEN,
        plaintext@.len() <= MAX_PLAINTEXT_LEN as nat,
    ensures
        exists|n: Seq<u8>|
            n.len() == NONCE_LEN && r@ == #[trigger] framed(n, sealed_of(key@, n, plaintext@)),
        r@.len() == NONCE_LEN + plaintext@.len() + TAG_LEN,
{
    let nonce = random_nonce();
    encrypt_with_nonce(key, &nonce, plaintext)
}

/// Opens a ciphertext made by `encrypt` under the same key. Fails on a
/// ciphertext shorter than its nonce, on one longer than the largest
/// ciphertext, and on one whose tag does not check.
pub fn decrypt(key: &Vec<u8>, ciphertext: &Vec<u8>) -> (r: Result<Vec<u8>, DecryptError>)
    requires
        key@.len() == KEY_LEN,
    ensures
        r is Ok <==> opens(key@, ciphertext@),
        ciphertext@.len() < NONCE_LEN ==> r == Err::<Vec<u8>, DecryptError>(
            DecryptError::MissingNonce,
        ),
        ciphertext@.len() >= NONCE_LEN && !opens(key@, ciphertext@) ==> r == Err::<
            Vec<u8>,
            DecryptError,
        >(DecryptError::AuthenticationFailed),
        r is Ok ==> r->Ok_0@ == opened(key@, ciphertext@),
        forall|n: Seq<u8>, p: Seq<u8>|
            n.len() == NONCE_LEN && p.len() <= MAX_PLAINTEXT_LEN as nat && ciphertext@.len()
                <= MAX_CIPHERTEXT_LEN as nat && ciphertext@ == #[trigger] framed(
                n,
                sealed_of(key@, n, p),
            ) ==> r is Ok && r->Ok_0@ == p,
{
    if ciphertext.len() < NONCE_LEN {
        return Err(DecryptError::MissingNonce);
    }
    if ciphertext.len() as u64 > MAX_CIPHERTEXT_LEN {
        return Err(DecryptError::AuthenticationFailed);
    }
    let nonce = slice_to_vec(slice_subrange(ciphertext.as_slice(), 0, NONCE_LEN));
    let sealed = slice_subrange(ciphertext.as_slice(), NONCE_LEN, ciphertext.len());
    assert(nonce@ == ciphertext@.take(NONCE_LEN as int));
    assert(sealed@ == ciphertext@.skip(NONCE_LEN as int));
    assert forall|n: Seq<u8>, p: Seq<u8>|
        n.len() == NONCE_LEN && p.len() <= MAX_PLAINTEXT_LEN as nat && ciphertext@ == #[trigger] framed(
            n,
            sealed_of(key@, n, p),
        ) implies nonce@ == n && sealed@ == sealed_of(key@, n, p) by {
        assert(ciphertext@.take(NONCE_LEN as int) =~= n);
        assert(ciphertext@.skip(NONCE_LEN as int) =~= sealed_of(key@, n, p));
    }
    match aes_open(key, &nonce, sealed) {
        Some(p) => {
            let ghost q = opened(key@, ciphertext@);
            assert(sealed_of(key@, nonce@, q) == sealed@);
            Ok(p)
        },
        None => Err(DecryptError::AuthenticationFailed),
    }
}

} // verus!
