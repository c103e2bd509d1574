//! The secp256k1 keys and signatures that transactions are signed with.
//!
//! Keys and signatures are values of the `secp256k1` crate, reached through
//! `hdwallet`. They are carried through as they are; what the ledger reads
//! of them are their serialized bytes.

use vstd::prelude::*;

verus! {

/// `secp256k1::SecretKey`, carried through as it is.
#[verifier::external_type_specification]
#[verifier::external_body]
pub struct ExSecretKey(hdwallet::secp256k1::SecretKey);

/// `secp256k1::PublicKey`, carried through as it is.
#[verifier::external_type_specification]
#[verifier::external_body]
pub struct ExPublicKey(hdwallet::secp256k1::PublicKey);

/// `secp256k1::ecdsa::Signature`, carried through as it is.
#[verifier::external_type_specification]
#[verifier::external_body]
pub struct ExSignature(hdwallet::secp256k1::ecdsa::Signature);

/// Calls `PublicKey::serialize`. Trusted: the compressed form of a public
/// key is 33 bytes long.
#[verifier::external_body]
pub(crate) fn public_key_bytes(public_key: &hdwallet::secp256k1::PublicKey) -> (bytes: Vec<u8>)
    ensures
        bytes@.len() == 33,
{
    public_key.serialize().to_vec()
}

/// Calls `Signature::serialize_compact`. Trusted: the compact form of a
/// signature is 64 bytes long.
#[verifier::external_body]
pub(crate) fn signature_bytes(signature: &hdwallet::secp256k1::ecdsa::Signature) -> (bytes: Vec<
    u8,
>)
    ensures
        bytes@.len() == 64,
{
    signature.serialize_compact().to_vec()
}

} // verus!
