//! Keys of a secure connection, and signatures on them.
use vstd::prelude::*;

verus! {

/// The public key that `sodiumoxide::crypto::box_::SecretKey::public_key` computes for
/// a secret key.
pub uninterp spec fn box_public_key(secret_key: Seq<u8>) -> Seq<u8>;

/// Calls `sodiumoxide::crypto::box_::gen_keypair`, and gives the public and the secret
/// key as bytes.
///
/// The secret key is random. Claims that the public key is the one that belongs to it.
#[verifier::external_body]
pub(crate) fn gen_box_keypair() -> (keys: ([u8; 32], [u8; 32]))
    ensures
        keys.0@ == box_public_key(keys.1@),
{
    let (public_key, secret_key) = sodiumoxide::crypto::box_::gen_keypair();
    (public_key.0, secret_key.0)
}

/// The signed message that `sodiumoxide::crypto::sign::sign` makes of a message with a
/// secret key.
pub uninterp spec fn signed_message(message: Seq<u8>, secret_key: Seq<u8>) -> Seq<u8>;

/// Calls `sodiumoxide::crypto::sign::sign`.
///
/// Claims that the signed message is a function of the message and of the key, and that
/// it is a signature of 64 bytes followed by the message.
#[verifier::external_body]
pub(crate) fn sign_message(message: &[u8; 32], secret_key: &[u8; 64]) -> (signed: Vec<u8>)
    ensures
        signed@ == signed_message(message@, secret_key@),
        signed@.len() == 64 + message@.len(),
        signed@.skip(64) == message@,
{
    sodiumoxide::crypto::sign::sign(message, &sodiumoxide::crypto::sign::SecretKey(*secret_key))
}

} // verus!
