//! This node's identity: its secret key, the public key derived from it, and
//! its node id.
use vstd::prelude::*;
use crate::crypt::{
    decodes_to_point, decrypt, derive_shared_secret, encrypt, framed, opened, opens, public_key,
    public_key_of, sealed_of, shared_secret_of, DecryptError, KEY_LEN, MAX_CIPHERTEXT_LEN, MAX_PLAINTEXT_LEN, TAG_LEN,
    NONCE_LEN,
};
use crate::envelope::copy_bytes;

verus! {

pub struct IdentityView {
    pub secret_key: Seq<u8>,
    pub public_key: Seq<u8>,
    pub node_id: Seq<u8>,
}

/// A node's keys and id. The public key always belongs to the secret key.
pub struct NodeIdentity {
    secret_key: Vec<u8>,
    public_key: Vec<u8>,
    node_id: Vec<u8>,
}

impl View for NodeIdentity {
    type V = IdentityView;

    closed spec fn view(&self) -> IdentityView {
        IdentityView {
            secret_key: self.secret_key@,
            public_key: self.public_key@,
            node_id: self.node_id@,
        }
    }
}

impl NodeIdentity {
    pub open spec fn wf(&self) -> bool {
        &&& self@.secret_key.len() == KEY_LEN
        &&& self@.public_key == public_key_of(self@.secret_key)
        &&& self@.public_key.len() == KEY_LEN
    }

    /// The identity with the given 32-byte secret key and node id; `None` when
    /// the key has another length.
    pub fn new(secret_key: Vec<u8>, node_id: Vec<u8>) -> (r: Option<Self>)
        ensures
            r is Some <==> secret_key@.len() == KEY_LEN,
            r is Some ==> r->0.wf() && r->0@.secret_key == secret_key@ && r->0@.node_id
                == node_id@,
    {
        if secret_key.len() != KEY_LEN {
            return None;
        }
        let public_key = public_key(&secret_key);
        Some(NodeIdentity { secret_key, public_key, node_id })
    }

    pub fn secret_key(&self) -> (r: &Vec<u8>)
        ensures
            r@ == self@.secret_key,
    {
        &self.secret_key
    }

    pub fn public_key(&self) -> (r: &Vec<u8>)
        ensures
            r@ == self@.public_key,
    {
        &self.public_key
    }

    pub fn node_id(&self) -> (r: &Vec<u8>)
        ensures
            r@ == self@.node_id,
    {
        &self.node_id
    }

    /// Encrypts `plaintext` for the holder of `remote_public`, under the
    /// secret shared with it. `None` when `remote_public` is not a public key.
    pub fn encrypt_for(&self, remote_public: &Vec<u8>, plaintext: &Vec<u8>) -> (r: Option<Vec<u8>>)
        requires
            self.wf(),
            plaintext@.len() <= MAX_PLAINTEXT_LEN as nat,
        ensures
            r is Some <==> remote_public@.len() == KEY_LEN && decodes_to_point(remote_public@),
            forall|other: Seq<u8>|
                other.len() == KEY_LEN && remote_public@.len() == KEY_LEN && #[trigger] public_key_of(
                    other,
                ) == remote_public@ ==> r is Some,
            r is Some ==> exists|n: Seq<u8>|
                n.len() == NONCE_LEN && r->0@ == #[trigger] framed(
                    n,
                    sealed_of(shared_secret_of(self@.secret_key, remote_public@), n, plaintext@),
                ),
            r is Some ==> r->0@.len() == NONCE_LEN + plaintext@.len() + TAG_LEN,
    {
        match derive_shared_secret(&self.secret_key, remote_public) {
            None => None,
            Some(shared) => Some(encrypt(&shared, plaintext)),
        }
    }

    /// Opens a ciphertext from the holder of `remote_public`, under the secret
    /// shared with it. What the holder of the matching secret key encrypted
    /// for this node with `encrypt_for` opens to its plaintext.
    pub fn decrypt_from(&self, remote_public: &Vec<u8>, ciphertext: &Vec<u8>) -> (r: Result<
        Vec<u8>,
        DecryptError,
    >)
        requires
            self.wf(),
        ensures
            r is Ok <==> remote_public@.len() == KEY_LEN && decodes_to_point(remote_public@)
                && opens(shared_secret_of(self@.secret_key, remote_public@), ciphertext@),
            r is Ok ==> r->Ok_0@ == opened(
                shared_secret_of(self@.secret_key, remote_public@),
                ciphertext@,
            ),
            forall|other: Seq<u8>, n: Seq<u8>, p: Seq<u8>|
                other.len() == KEY_LEN && remote_public@.len() == KEY_LEN && #[trigger] public_key_of(
                    other,
                ) == remote_public@ && n.len() == NONCE_LEN && p.len() <= MAX_PLAINTEXT_LEN as nat
                    && ciphertext@.len() <= MAX_CIPHERTEXT_LEN as nat && ciphertext@ == #[trigger] framed(
                    n,
                    sealed_of(shared_secret_of(other, self@.public_key), n, p),
                ) ==> r == Ok::<Vec<u8>, DecryptError>(r->Ok_0) && r->Ok_0@ == p,
    {
        match derive_shared_secret(&self.secret_key, remote_public) {
            None => Err(DecryptError::InvalidPublicKey),
            Some(shared) => decrypt(&shared, ciphertext),
        }
    }
}

} // verus!
