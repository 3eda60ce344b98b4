//! The key-encapsulation mechanism, behind trusted wrappers.
//!
//! The KEM (ML-KEM-1024) is an opaque provider: the library moves its keys
//! and ciphertexts around as the fixed-size byte encodings the provider
//! itself documents (1568 bytes for an encapsulation key or a ciphertext,
//! 3168 bytes for a decapsulation key, 32 bytes for a shared secret).
//! Nothing is promised of the secret values: they are drawn from the
//! provider's randomness, and every function that consumes one takes it as
//! an argument and is verified for every possible value.

use vstd::prelude::*;
use ml_kem::EncodedSizeUser;
use ml_kem::KemCore;
use ml_kem::kem::Decapsulate;
use ml_kem::kem::Encapsulate;

verus! {

/// Relies on ml_kem::MlKem1024::generate and `as_bytes` of the two keys
/// (EncodedSizeUser): a fresh key pair from the thread RNG, handed out in
/// the fixed 3168-byte decapsulation-key and 1568-byte encapsulation-key
/// encodings.
#[verifier::external_body]
pub fn create_keypair() -> (r: (Vec<u8>, Vec<u8>))
    ensures
        r.0@.len() == 3168,
        r.1@.len() == 1568,
{
    let (dk, ek) = ml_kem::MlKem1024::generate(&mut rand::thread_rng());
    (dk.as_bytes().to_vec(), ek.as_bytes().to_vec())
}

/// Relies on ml_kem::kem::EncapsulationKey::{from_bytes, encapsulate}: a
/// fresh 32-byte shared secret for the holder of the key encoded in
/// `ek_bytes`, with the 1568-byte ciphertext that carries it. Encapsulation
/// in this provider only constructs a success, so a value is always handed
/// back; the secret comes from the thread RNG, so nothing is promised of
/// either value.
#[verifier::external_body]
pub fn encapsulate(ek_bytes: &[u8; 1568]) -> (r: Option<([u8; 1568], [u8; 32])>)
    ensures
        r is Some,
{
    let enc: ml_kem::Encoded<ml_kem::kem::EncapsulationKey<ml_kem::MlKem1024Params>> =
        (*ek_bytes).into();
    let ek = ml_kem::kem::EncapsulationKey::<ml_kem::MlKem1024Params>::from_bytes(&enc);
    match ek.encapsulate(&mut rand::thread_rng()) {
        Ok((ct, ss)) => Some((ct.into(), ss.into())),
        Err(()) => None,
    }
}

/// Relies on ml_kem::kem::DecapsulationKey::{from_bytes, decapsulate}:
/// recovers the 32-byte shared secret carried by a ciphertext, given the
/// 3168-byte encoding of the matching decapsulation key. Decapsulation in
/// this provider is infallible — implicit rejection hands back a secret
/// even for a ciphertext the key never produced — so a value is always
/// handed back; which secret comes out depends on the key and ciphertext
/// bytes, so nothing is promised of its value.
#[verifier::external_body]
pub fn decapsulate(data: &[u8; 1568], dk_bytes: &[u8]) -> (r: Option<[u8; 32]>)
    requires
        dk_bytes@.len() == 3168,
    ensures
        r is Some,
{
    let enc: ml_kem::Encoded<ml_kem::kem::DecapsulationKey<ml_kem::MlKem1024Params>> =
        ml_kem::array::Array::try_from(dk_bytes).unwrap();
    let dk = ml_kem::kem::DecapsulationKey::<ml_kem::MlKem1024Params>::from_bytes(&enc);
    let ct: ml_kem::Ciphertext<ml_kem::MlKem1024> = (*data).into();
    match dk.decapsulate(&ct) {
        Ok(ss) => Some(ss.into()),
        Err(()) => None,
    }
}

} // verus!
