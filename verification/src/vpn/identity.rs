//! The node's overlay identity: one asymmetric keypair, generated from a
//! cryptographically secure source at construction and never regenerated.

use vstd::prelude::*;

verus! {

/// The name of the x25519 public key that belongs to a 32-byte private key;
/// it is a function of the private key alone.
pub uninterp spec fn x25519_public_of(sk: Seq<u8>) -> Seq<u8>;

/// Relies on rand's `random`: 32 bytes drawn from the thread's cryptographic
/// generator; nothing can be promised of the values beyond their count.
#[verifier::external_body]
fn random_key_bytes() -> (r: Vec<u8>)
    ensures
        r@.len() == 32,
{
    let bytes: [u8; 32] = rand::random();
    bytes.to_vec()
}

/// Relies on x25519-dalek's `PublicKey::from(&StaticSecret)`: the public key
/// is 32 bytes and a function of the private key alone (clamped base-point
/// multiplication).
#[verifier::external_body]
fn derive_public_key(private_key: &Vec<u8>) -> (r: Vec<u8>)
    requires
        private_key@.len() == 32,
    ensures
        r@ == x25519_public_of(private_key@),
        r@.len() == 32,
{
    let mut sk = [0u8; 32];
    sk.copy_from_slice(private_key.as_slice());
    let secret = x25519_dalek::StaticSecret::from(sk);
    let public = x25519_dalek::PublicKey::from(&secret);
    public.to_bytes().to_vec()
}

/// The node's keypair. The private key reaches only the data-plane tunnel
/// setup; the public key is what registration announces.
pub struct OverlayIdentity {
    private_key: Vec<u8>,
    public_key: Vec<u8>,
}

/// The mathematical value of an `OverlayIdentity`.
pub struct OverlayIdentityView {
    pub private_key: Seq<u8>,
    pub public_key: Seq<u8>,
}

impl View for OverlayIdentity {
    type V = OverlayIdentityView;

    closed spec fn view(&self) -> OverlayIdentityView {
        OverlayIdentityView { private_key: self.private_key@, public_key: self.public_key@ }
    }
}

impl OverlayIdentity {
    /// Both keys are 32 bytes and the public key belongs to the private one.
    pub open spec fn wf(&self) -> bool {
        &&& self@.private_key.len() == 32
        &&& self@.public_key.len() == 32
        &&& self@.public_key == x25519_public_of(self@.private_key)
    }

    /// Generates a fresh keypair.
    pub fn generate() -> (r: OverlayIdentity)
        ensures
            r.wf(),
    {
        let private_key = random_key_bytes();
        let public_key = derive_public_key(&private_key);
        OverlayIdentity { private_key, public_key }
    }

    /// The public key, for inclusion in registration.
    pub fn public_key(&self) -> (r: &Vec<u8>)
        ensures
            r@ == self@.public_key,
    {
        &self.public_key
    }

    /// The private key; it is for the data-plane tunnel setup alone.
    pub fn private_key(&self) -> (r: &Vec<u8>)
        ensures
            r@ == self@.private_key,
    {
        &self.private_key
    }
}

} // verus!
