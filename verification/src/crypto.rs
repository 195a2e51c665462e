//! The post-quantum primitives of the handshake: key encapsulation with ML-KEM-768
//! and signatures with ML-DSA-65.
use crate::pqc_tunnel::{
    ML_DSA_65_PK_SIZE, ML_DSA_65_SIG_SIZE, ML_KEM_768_CT_SIZE, ML_KEM_768_EK_SIZE,
};
use crate::wire;
use fips203::ml_kem_768;
use fips203::traits::{Decaps, Encaps, KeyGen, SerDes};
use fips204::ml_dsa_65;
use fips204::traits::Verifier;
use saorsa_pqc::pqc::types::MlDsaSecretKey;
use saorsa_pqc::pqc::{MlDsa65, MlDsaOperations};
use vstd::prelude::*;

verus! {

/// Size of an ML-KEM-768 decapsulation key (FIPS 203).
pub const ML_KEM_768_DK_SIZE: usize = 2400;

/// Size of an ML-DSA-65 secret key (FIPS 204).
pub const ML_DSA_65_SK_SIZE: usize = 4032;

/// The encapsulation and decapsulation key that ML-KEM-768 generates from two 32-byte
/// seeds.
pub uninterp spec fn ml_kem_768_keys(d: Seq<u8>, z: Seq<u8>) -> (Seq<u8>, Seq<u8>);

/// Whether bytes are a well-formed ML-KEM-768 encapsulation key.
pub uninterp spec fn ml_kem_768_accepts(ek: Seq<u8>) -> bool;

/// The shared secret and ciphertext that ML-KEM-768 makes from an encapsulation key
/// and a 32-byte seed.
pub uninterp spec fn ml_kem_768_encapsulated(ek: Seq<u8>, seed: Seq<u8>) -> (Seq<u8>, Seq<u8>);

/// The shared secret that ML-KEM-768 recovers from a ciphertext, unless the
/// decapsulation key is malformed.
pub uninterp spec fn ml_kem_768_decapsulated(dk: Seq<u8>, ct: Seq<u8>) -> Option<Seq<u8>>;

/// Whether bytes are a well-formed ML-DSA-65 public key.
pub uninterp spec fn ml_dsa_65_accepts(pk: Seq<u8>) -> bool;

/// Whether a signature over a message, with an empty context, verifies under an
/// ML-DSA-65 public key.
pub uninterp spec fn ml_dsa_65_verifies(pk: Seq<u8>, message: Seq<u8>, signature: Seq<u8>) -> bool;

/// The signature that ML-DSA-65 makes of a message, with an empty context, from a
/// secret key and a 32-byte seed.
pub uninterp spec fn ml_dsa_65_signature(
    sk: Seq<u8>,
    message: Seq<u8>,
    seed: Seq<u8>,
) -> Seq<u8>;

/// Whether a pair of keys is one that ML-KEM-768 generates.
pub open spec fn is_key_pair(ek: Seq<u8>, dk: Seq<u8>) -> bool {
    exists|d: Seq<u8>, z: Seq<u8>|
        d.len() == 32 && z.len() == 32 && (ek, dk) == #[trigger] ml_kem_768_keys(d, z)
}

/// Whether a shared secret and a ciphertext come from one encapsulation.
pub open spec fn is_encapsulation(ek: Seq<u8>, ss: Seq<u8>, ct: Seq<u8>) -> bool {
    exists|seed: Seq<u8>|
        seed.len() == 32 && (ss, ct) == #[trigger] ml_kem_768_encapsulated(ek, seed)
}

/// Whether a signature is one that a secret key makes of a message.
pub open spec fn is_signature(sk: Seq<u8>, message: Seq<u8>, signature: Seq<u8>) -> bool {
    exists|seed: Seq<u8>|
        seed.len() == 32 && signature == #[trigger] ml_dsa_65_signature(sk, message, seed)
}

/// A shared secret of the key exchange. It is overwritten when it is no longer held.
pub(crate) struct SharedSecret {
    bytes: [u8; 32],
}

impl View for SharedSecret {
    type V = Seq<u8>;

    closed spec fn view(&self) -> Seq<u8> {
        self.bytes@
    }
}

impl SharedSecret {
    /// The bytes of the secret.
    pub(crate) fn as_bytes(&self) -> (r: &[u8; 32])
        ensures
            r@ == self@,
    {
        proof {
            secrets_show_their_bytes(*self);
        }
        &self.bytes
    }
}

/// A secret is the bytes that it holds.
proof fn secrets_show_their_bytes(secret: SharedSecret)
    ensures
        secret@ == secret.bytes@,
{
}

impl Drop for SharedSecret {
    /// Overwrites the secret with zeros.
    fn drop(&mut self)
        ensures
            final(self)@ == Seq::new(32, |i: int| 0u8),
        opens_invariants none
        no_unwind
    {
        wire::wipe(&mut self.bytes);
    }
}

/// `KG::try_keygen_with_rng` of `fips203::ml_kem_768` with the system's random
/// numbers, and both keys as bytes. The keys are those of some pair of seeds, and the
/// encapsulation key is well-formed. It fails where the system gives no random
/// numbers.
#[verifier::external_body]
pub(crate) fn ml_kem_768_generate() -> (r: Result<
    ([u8; ML_KEM_768_EK_SIZE], [u8; ML_KEM_768_DK_SIZE]),
    (),
>)
    ensures
        r matches Ok(k) ==> ml_kem_768_accepts(k.0@),
        r matches Ok(k) ==> exists|d: Seq<u8>, z: Seq<u8>|
            d.len() == 32 && z.len() == 32 && (k.0@, k.1@) == #[trigger] ml_kem_768_keys(d, z),
{
    let (ek, dk) = ml_kem_768::KG::try_keygen_with_rng(&mut rand_core::OsRng).map_err(|_| ())?;
    Ok((ek.into_bytes(), dk.into_bytes()))
}

/// `EncapsKey::try_from_bytes` of `fips203::ml_kem_768`: the check depends on the
/// bytes alone.
#[verifier::external_body]
pub(crate) fn ml_kem_768_check(ek: &[u8; ML_KEM_768_EK_SIZE]) -> (r: bool)
    ensures
        r == ml_kem_768_accepts(ek@),
{
    ml_kem_768::EncapsKey::try_from_bytes(*ek).is_ok()
}

/// `EncapsKey::try_encaps` of `fips203::ml_kem_768` on a key given by its bytes, with
/// the result as bytes. Secret and ciphertext are those of some seed. It fails where
/// the system gives no random numbers.
#[verifier::external_body]
pub(crate) fn ml_kem_768_encapsulate(ek: &[u8; ML_KEM_768_EK_SIZE]) -> (r: Result<
    (SharedSecret, [u8; ML_KEM_768_CT_SIZE]),
    (),
>)
    requires
        ml_kem_768_accepts(ek@),
    ensures
        r matches Ok(e) ==> exists|seed: Seq<u8>|
            seed.len() == 32 && (e.0@, e.1@) == #[trigger] ml_kem_768_encapsulated(ek@, seed),
{
    let key = ml_kem_768::EncapsKey::try_from_bytes(*ek).map_err(|_| ())?;
    let (ss, ct) = key.try_encaps().map_err(|_| ())?;
    Ok((SharedSecret { bytes: ss.into_bytes() }, ct.into_bytes()))
}

/// `DecapsKey::try_decaps` of `fips203::ml_kem_768` on a key and a ciphertext given by
/// their bytes: the outcome depends on the bytes alone.
#[verifier::external_body]
pub(crate) fn ml_kem_768_decapsulate(
    dk: &[u8; ML_KEM_768_DK_SIZE],
    ct: &[u8; ML_KEM_768_CT_SIZE],
) -> (r: Result<SharedSecret, ()>)
    ensures
        match ml_kem_768_decapsulated(dk@, ct@) {
            Some(ss) => (r matches Ok(s) && s@ == ss),
            None => r is Err,
        },
{
    let key = ml_kem_768::DecapsKey::try_from_bytes(*dk).map_err(|_| ())?;
    let ct = ml_kem_768::CipherText::try_from_bytes(*ct).map_err(|_| ())?;
    let ss = key.try_decaps(&ct).map_err(|_| ())?;
    Ok(SharedSecret { bytes: ss.into_bytes() })
}

/// `PublicKey::try_from_bytes` of `fips204::ml_dsa_65`: the check depends on the bytes
/// alone.
#[verifier::external_body]
pub(crate) fn ml_dsa_65_check(pk: &[u8; ML_DSA_65_PK_SIZE]) -> (r: bool)
    ensures
        r == ml_dsa_65_accepts(pk@),
{
    <ml_dsa_65::PublicKey as fips204::traits::SerDes>::try_from_bytes(*pk).is_ok()
}

/// `PublicKey::verify` of `fips204::ml_dsa_65` with an empty context, on a key given
/// by its bytes: the outcome depends on key, message and signature alone.
#[verifier::external_body]
pub(crate) fn ml_dsa_65_verify(
    pk: &[u8; ML_DSA_65_PK_SIZE],
    message: &[u8],
    signature: &[u8; ML_DSA_65_SIG_SIZE],
) -> (r: bool)
    requires
        ml_dsa_65_accepts(pk@),
    ensures
        r == ml_dsa_65_verifies(pk@, message@, signature@),
{
    <ml_dsa_65::PublicKey as fips204::traits::SerDes>::try_from_bytes(*pk)
        .is_ok_and(|key| key.verify(message, signature, &[]))
}

/// `MlDsa65::sign` of `saorsa_pqc` on a secret key given by its bytes. The signature
/// is that of some seed. Where it fails, as when the system gives no random numbers,
/// the error is given by its text.
#[verifier::external_body]
pub(crate) fn ml_dsa_65_sign(sk: &[u8], message: &[u8]) -> (r: Result<
    [u8; ML_DSA_65_SIG_SIZE],
    String,
>)
    requires
        sk@.len() == ML_DSA_65_SK_SIZE,
    ensures
        r matches Ok(s) ==> exists|seed: Seq<u8>|
            seed.len() == 32 && s@ == #[trigger] ml_dsa_65_signature(sk@, message@, seed),
{
    let key = MlDsaSecretKey::from_bytes(sk).map_err(|e| e.to_string())?;
    let signature = MlDsa65::new().sign(&key, message).map_err(|e| e.to_string())?;
    signature.as_bytes().try_into().map_err(|_| String::new())
}

/// A pair of keys is generated from two seeds of 32 bytes, which are given.
pub proof fn key_pairs_come_from_seeds(ek: Seq<u8>, dk: Seq<u8>) -> (seeds: (Seq<u8>, Seq<u8>))
    requires
        is_key_pair(ek, dk),
    ensures
        seeds.0.len() == 32,
        seeds.1.len() == 32,
        ml_kem_768_keys(seeds.0, seeds.1) == (ek, dk),
{
    choose|d: Seq<u8>, z: Seq<u8>|
        d.len() == 32 && z.len() == 32 && (ek, dk) == #[trigger] ml_kem_768_keys(d, z)
}

/// A secret and a ciphertext are encapsulated from a seed of 32 bytes, which is given.
pub proof fn encapsulations_come_from_a_seed(ek: Seq<u8>, ss: Seq<u8>, ct: Seq<u8>) -> (seed: Seq<
    u8,
>)
    requires
        is_encapsulation(ek, ss, ct),
    ensures
        seed.len() == 32,
        ml_kem_768_encapsulated(ek, seed) == (ss, ct),
{
    choose|seed: Seq<u8>|
        seed.len() == 32 && (ss, ct) == #[trigger] ml_kem_768_encapsulated(ek, seed)
}

/// A signature is made from a seed of 32 bytes, which is given.
pub proof fn signatures_come_from_a_seed(
    sk: Seq<u8>,
    message: Seq<u8>,
    signature: Seq<u8>,
) -> (seed: Seq<u8>)
    requires
        is_signature(sk, message, signature),
    ensures
        seed.len() == 32,
        ml_dsa_65_signature(sk, message, seed) == signature,
{
    choose|seed: Seq<u8>|
        seed.len() == 32 && signature == #[trigger] ml_dsa_65_signature(sk, message, seed)
}

} // verus!
