use vstd::prelude::*;

verus! {

/// An Ed25519 public key: the 32-byte compressed Edwards point.
#[derive(Clone, Copy, Debug, PartialEq, Eq)]
pub struct PublicKeyBytes(pub [u8; 32]);

/// An Ed25519 signature: the 32-byte point `R` followed by the 32-byte scalar `s`.
#[derive(Clone, Copy, Debug, PartialEq, Eq)]
pub struct SignatureBytes(pub [u8; 64]);

/// An Ed25519 secret key: the 32-byte seed from which the signing key is expanded.
pub struct SecretKeyBytes {
    bytes: [u8; 32],
}

impl SecretKeyBytes {
    /// The secret seed bytes.
    pub closed spec fn secret(&self) -> Seq<u8> {
        self.bytes@
    }

    /// Wraps the given seed bytes.
    pub fn new(bytes: [u8; 32]) -> (r: Self)
        ensures
            r.secret() == bytes@,
    {
        SecretKeyBytes { bytes }
    }

    /// Gives access to the secret seed bytes.
    pub fn expose_secret(&self) -> (r: &[u8; 32])
        ensures
            r@ == self.secret(),
    {
        &self.bytes
    }
}

/// The algorithms that errors name.
#[derive(Clone, Copy, Debug, PartialEq, Eq)]
pub enum AlgorithmId {
    Ed25519,
}

/// The errors of the Ed25519 operations.
#[derive(Clone, Debug, PartialEq, Eq)]
pub enum CryptoError {
    /// A public key is not well formed: its encoding, or the point it encodes.
    MalformedPublicKey {
        algorithm: AlgorithmId,
        key_bytes: Option<Vec<u8>>,
        internal_error: String,
    },
    /// A signature is not well formed: its point is not on the curve, or its
    /// scalar is not below the group order.
    MalformedSignature { algorithm: AlgorithmId, sig_bytes: Vec<u8>, internal_error: String },
    /// A signature does not verify.
    SignatureVerification {
        algorithm: AlgorithmId,
        public_key_bytes: Vec<u8>,
        sig_bytes: Vec<u8>,
        internal_error: String,
    },
}

/// The result of an Ed25519 operation.
pub type CryptoResult<T> = Result<T, CryptoError>;

/// 32 bytes of seed from which the random choices of batch verification are drawn.
pub struct Seed {
    value: [u8; 32],
}

impl Seed {
    /// The seed bytes.
    pub closed spec fn value(&self) -> Seq<u8> {
        self.value@
    }

    /// The seed with the given bytes.
    pub fn from_bytes(value: [u8; 32]) -> (r: Self)
        ensures
            r.value() == value@,
    {
        Seed { value }
    }

    /// A ChaCha20 generator seeded with these bytes.
    pub(crate) fn into_rng(self) -> (r: crate::ed25519::SeededChaCha20Rng)
        ensures
            r.seed() == self.value(),
    {
        crate::ed25519::chacha20_rng_from_seed(self.value)
    }
}

impl PublicKeyBytes {
    /// The key of the given bytes, which must be exactly 32.
    pub fn try_from_vec(key: &Vec<u8>) -> (r: CryptoResult<PublicKeyBytes>)
        ensures
            r matches Ok(pk) ==> pk.0@ == key@,
            r is Ok <==> key@.len() == 32,
            r matches Err(e) ==> e matches CryptoError::MalformedPublicKey {
                algorithm,
                key_bytes,
                internal_error,
            } && algorithm == AlgorithmId::Ed25519 && (key_bytes matches Some(b) && b@ == key@)
                && internal_error@ == "Incorrect key length: expected 32 bytes."@,
    {
        if key.len() != 32 {
            return Err(
                CryptoError::MalformedPublicKey {
                    algorithm: AlgorithmId::Ed25519,
                    key_bytes: Some(key.clone()),
                    internal_error: String::from_str("Incorrect key length: expected 32 bytes."),
                },
            );
        }
        let mut buffer = [0u8; 32];
        let mut i: usize = 0;
        while i < 32
            invariant
                key@.len() == 32,
                i <= 32,
                forall|j: int| 0 <= j < i ==> buffer@[j] == key@[j],
            decreases 32 - i,
        {
            buffer[i] = key[i];
            i = i + 1;
        }
        assert(buffer@ =~= key@);
        Ok(PublicKeyBytes(buffer))
    }
}

} // verus!
