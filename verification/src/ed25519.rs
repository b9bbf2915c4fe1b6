//! The calls into `ed25519_consensus` and `rand_chacha`, each behind a
//! trusted item whose contract states what the crate's source shows.
use ed25519_consensus::batch::Verifier;
use ed25519_consensus::{Signature, SigningKey, VerificationKey, VerificationKeyBytes};
use rand_chacha::rand_core::SeedableRng;
use rand_chacha::ChaCha20Rng;
use crate::curve::{edwards_identity_bytes, edwards_torsion_free, edwards_y_decompresses};
use crate::signature::scalar_is_reduced;
use vstd::multiset::Multiset;
use vstd::prelude::*;
use zeroize::Zeroize;

verus! {

#[verifier::external_type_specification]
#[verifier::external_body]
pub struct ExVerificationKey(VerificationKey);

#[verifier::external_type_specification]
#[verifier::external_body]
pub struct ExBatchVerifier(Verifier);

#[verifier::external_type_specification]
#[verifier::external_body]
pub struct ExChaCha20Rng(ChaCha20Rng);

#[verifier::external_type_specification]
#[verifier::external_body]
pub struct ExEd25519ConsensusError(ed25519_consensus::Error);

/// The public key bytes, `A = [s]B` compressed, of the signing key that
/// `SigningKey::from` expands from the 32-byte seed `secret`.
pub uninterp spec fn ed25519_public_key_of(secret: Seq<u8>) -> Seq<u8>;

/// The bytes of the signature that `SigningKey::sign` makes on `msg` with
/// the signing key expanded from the seed `secret` (deterministic Ed25519).
pub uninterp spec fn ed25519_signature_of(secret: Seq<u8>, msg: Seq<u8>) -> Seq<u8>;

/// `VerificationKey::try_from` accepts the 32 bytes `pk`: they decompress to
/// a point of the curve.
pub uninterp spec fn ed25519_key_decodes(pk: Seq<u8>) -> bool;

/// `VerificationKey::verify` accepts the signature `sig` on `msg` under the
/// verification key decoded from `pk` (the ZIP 215 rules).
pub uninterp spec fn ed25519_accepts(pk: Seq<u8>, sig: Seq<u8>, msg: Seq<u8>) -> bool;

/// The items queued in a batch verifier: for each, the public key bytes,
/// the signature bytes and the message.
pub uninterp spec fn batch_items(v: Verifier) -> Multiset<(Seq<u8>, Seq<u8>, Seq<u8>)>;

/// The errors of `ed25519_consensus`, variant for variant.
#[derive(Clone, Copy, Debug, PartialEq, Eq)]
pub enum Ed25519Error {
    MalformedSecretKey,
    MalformedPublicKey,
    InvalidSignature,
    InvalidSliceLength,
}

/// The text that `ed25519_consensus::Error` displays for each variant.
pub open spec fn ed25519_error_text(e: Ed25519Error) -> Seq<char> {
    match e {
        Ed25519Error::MalformedSecretKey => "Malformed secret key encoding."@,
        Ed25519Error::MalformedPublicKey => "Malformed public key encoding."@,
        Ed25519Error::InvalidSignature => "Invalid signature."@,
        Ed25519Error::InvalidSliceLength => "Invalid length when parsing byte slice."@,
    }
}

impl Ed25519Error {
    /// The text of the error, as `ed25519_consensus::Error` displays it.
    pub fn message(&self) -> (r: String)
        ensures
            r@ == ed25519_error_text(*self),
    {
        match self {
            Ed25519Error::MalformedSecretKey => String::from_str("Malformed secret key encoding."),
            Ed25519Error::MalformedPublicKey => String::from_str("Malformed public key encoding."),
            Ed25519Error::InvalidSignature => String::from_str("Invalid signature."),
            Ed25519Error::InvalidSliceLength => String::from_str(
                "Invalid length when parsing byte slice.",
            ),
        }
    }
}

/// Converts an `ed25519_consensus::Error` into the variant of the same name.
#[verifier::external_body]
fn from_consensus_error(e: ed25519_consensus::Error) -> Ed25519Error {
    match e {
        ed25519_consensus::Error::MalformedSecretKey => Ed25519Error::MalformedSecretKey,
        ed25519_consensus::Error::MalformedPublicKey => Ed25519Error::MalformedPublicKey,
        ed25519_consensus::Error::InvalidSignature => Ed25519Error::InvalidSignature,
        ed25519_consensus::Error::InvalidSliceLength => Ed25519Error::InvalidSliceLength,
    }
}

/// Calls `SigningKey::from` on the seed and `verification_key().to_bytes()`
/// on the key, then zeroizes the signing key. Claims that the result is the
/// public key of the seed; that `VerificationKey::try_from` accepts it and
/// that it decompresses, since the source builds it as the compression of
/// `A = [s]B`, a point of the curve; that this point is torsion-free, being
/// a multiple of the base point `B`; and that it is not the identity (whose
/// encoding is 1 followed by zeros): the clamped `s` is a multiple of 8
/// between `2^254` and `2^255`, so no multiple of the odd prime order
/// `l ~ 2^252` of `B`.
#[verifier::external_body]
pub(crate) fn ed25519_public_key(secret: &[u8; 32]) -> (pk: [u8; 32])
    ensures
        pk@ == ed25519_public_key_of(secret@),
        ed25519_key_decodes(pk@),
        edwards_y_decompresses(pk@),
        edwards_torsion_free(pk@),
        pk@ != edwards_identity_bytes(),
{
    let mut signing_key = SigningKey::from(*secret);
    let pk = signing_key.verification_key().to_bytes();
    signing_key.zeroize();
    pk
}

/// Calls `SigningKey::from` on the seed and `sign` on the message, returns
/// `Signature::to_bytes`, and zeroizes the signing key. Claims that the result
/// is the signature of the message under the seed, and that
/// `VerificationKey::verify` accepts it under the seed's public key: the
/// source computes `s = r + H(R, A, M) a` reduced, with `R = [r]B` and
/// `A = [a]B`, which meets the verification equation; and that the
/// signature is well formed: `R` is a compressed point of the curve, and
/// `s` is a scalar reduced below the group order (the source's scalar
/// arithmetic always reduces).
#[verifier::external_body]
pub(crate) fn ed25519_sign(secret: &[u8; 32], msg: &[u8]) -> (sig: [u8; 64])
    ensures
        sig@ == ed25519_signature_of(secret@, msg@),
        ed25519_accepts(ed25519_public_key_of(secret@), sig@, msg@),
        edwards_y_decompresses(sig@.subrange(0, 32)),
        scalar_is_reduced(sig@.subrange(32, 64)),
{
    let mut signing_key = SigningKey::from(*secret);
    let signature = signing_key.sign(msg);
    signing_key.zeroize();
    signature.to_bytes()
}

/// An Ed25519 verification key together with the 32 bytes it was decoded
/// from; only `decode_verification_key` builds one.
pub struct Ed25519VerificationKey {
    key: VerificationKey,
    bytes: [u8; 32],
}

impl Ed25519VerificationKey {
    /// The bytes the key was decoded from.
    pub closed spec fn key_bytes(&self) -> Seq<u8> {
        self.bytes@
    }

    /// The bytes the key was decoded from (what `VerificationKey::to_bytes` gives).
    pub fn to_bytes(&self) -> (r: [u8; 32])
        ensures
            r@ == self.key_bytes(),
    {
        self.bytes
    }

    /// Calls `VerificationKey::verify` with `Signature::from(*sig)`. Claims
    /// that it succeeds exactly when the signature is accepted, and that its
    /// only error is `InvalidSignature`, as the source shows.
    #[verifier::external_body]
    pub(crate) fn verify(&self, sig: &[u8; 64], msg: &[u8]) -> (r: Result<(), Ed25519Error>)
        ensures
            r is Ok <==> ed25519_accepts(self.key_bytes(), sig@, msg@),
            r matches Err(e) ==> e == Ed25519Error::InvalidSignature,
    {
        match self.key.verify(&Signature::from(*sig), msg) {
            Ok(()) => Ok(()),
            Err(e) => Err(from_consensus_error(e)),
        }
    }
}

/// Calls `VerificationKey::try_from` on the 32 bytes. Claims that it succeeds
/// exactly when the bytes decode, that the key keeps the bytes, and that its
/// only error is `MalformedPublicKey`, as the source shows. Also claims that
/// it succeeds exactly when `curve25519_dalek`'s `CompressedEdwardsY::decompress`
/// does: the source decompresses with `curve25519_dalek_ng`, whose
/// `decompress` runs the same steps (`sqrt_ratio_i` of `y^2 - 1` and
/// `d y^2 + 1`, then the sign bit).
#[verifier::external_body]
pub(crate) fn decode_verification_key(pk: &[u8; 32]) -> (r: Result<Ed25519VerificationKey, Ed25519Error>)
    ensures
        r is Ok <==> ed25519_key_decodes(pk@),
        r is Ok <==> edwards_y_decompresses(pk@),
        r matches Ok(k) ==> k.key_bytes() == pk@,
        r matches Err(e) ==> e == Ed25519Error::MalformedPublicKey,
{
    match VerificationKey::try_from(*pk) {
        Ok(key) => Ok(Ed25519VerificationKey { key, bytes: *pk }),
        Err(e) => Err(from_consensus_error(e)),
    }
}

/// Calls `batch::Verifier::new`. Claims that the new verifier holds no item.
#[verifier::external_body]
pub(crate) fn batch_verifier_new() -> (v: Verifier)
    ensures
        batch_items(v) == Multiset::<(Seq<u8>, Seq<u8>, Seq<u8>)>::empty(),
{
    Verifier::new()
}

/// Calls `batch::Verifier::queue` with `VerificationKeyBytes::from` the key,
/// `Signature::from(*sig)` and the message. Claims that the verifier then
/// holds one more item: these key bytes, signature and message.
#[verifier::external_body]
pub(crate) fn batch_verifier_queue(
    v: &mut Verifier,
    key: &Ed25519VerificationKey,
    sig: &[u8; 64],
    msg: &[u8],
)
    ensures
        batch_items(*final(v)) == batch_items(*old(v)).insert((key.key_bytes(), sig@, msg@)),
{
    v.queue((VerificationKeyBytes::from(key.key), Signature::from(*sig), msg));
}

/// Calls `batch::Verifier::verify` with the generator. Claims what holds
/// whatever the random coefficients: when every queued key decodes and every
/// queued signature is accepted on its own, the batch is accepted (the batch
/// equation is a combination of the single ones); and the only error is
/// `InvalidSignature`. That a batch with a rejected signature is refused
/// holds only with overwhelming probability and is not claimed.
#[verifier::external_body]
pub(crate) fn batch_verifier_verify(v: Verifier, rng: SeededChaCha20Rng) -> (r: Result<(), Ed25519Error>)
    ensures
        (forall|item: (Seq<u8>, Seq<u8>, Seq<u8>)| #[trigger]
            batch_items(v).contains(item) ==> ed25519_key_decodes(item.0) && ed25519_accepts(
                item.0,
                item.1,
                item.2,
            )) ==> r is Ok,
        r matches Err(e) ==> e == Ed25519Error::InvalidSignature,
{
    match v.verify(rng.rng) {
        Ok(()) => Ok(()),
        Err(e) => Err(from_consensus_error(e)),
    }
}

/// A ChaCha20 generator together with the 32 bytes it was seeded with; only
/// `chacha20_rng_from_seed` builds one.
pub struct SeededChaCha20Rng {
    rng: ChaCha20Rng,
    seed: [u8; 32],
}

impl SeededChaCha20Rng {
    /// The bytes the generator was seeded with.
    pub closed spec fn seed(&self) -> Seq<u8> {
        self.seed@
    }
}

/// Calls `ChaCha20Rng::from_seed`. Claims that the generator keeps the seed
/// it was made from; nothing is claimed of what it draws.
#[verifier::external_body]
pub(crate) fn chacha20_rng_from_seed(seed: [u8; 32]) -> (r: SeededChaCha20Rng)
    ensures
        r.seed() == seed@,
{
    SeededChaCha20Rng { rng: ChaCha20Rng::from_seed(seed), seed }
}

} // verus!
