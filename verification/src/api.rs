//! Ed25519 basic signatures: key pairs, the DER encoding of public keys
//! (RFC 8410, Section 4), signing, single and batch verification, and the
//! validation of public keys.
use crate::curve::{
    decompress_edwards_y, edwards_identity_bytes, edwards_torsion_free, edwards_y_decompresses,
};
use crate::signature::{
    signature_defect, signature_defect_of, signature_defect_text, SignatureDefect,
};
use ed25519_consensus::batch::Verifier;
use crate::der::{
    algorithm_identifier_content, base128, der_tlv, is_public_key_der, is_spki_der,
    key_der_error_text, key_length_ok, oid_arcs_der, oid_content, params_der, parse_public_key,
    spki_der, KeyDerParsingError, PkixAlgorithmIdentifier,
};
use crate::ed25519::{
    batch_items, batch_verifier_new, batch_verifier_queue, batch_verifier_verify,
    decode_verification_key, ed25519_accepts, ed25519_error_text, ed25519_key_decodes,
    ed25519_public_key, ed25519_public_key_of, ed25519_sign, ed25519_signature_of, Ed25519Error,
    Ed25519VerificationKey,
};
use crate::types::{
    AlgorithmId, CryptoError, CryptoResult, PublicKeyBytes, SecretKeyBytes, Seed, SignatureBytes,
};
use vstd::multiset::Multiset;
use vstd::prelude::*;

verus! {

/// The content octets of the Ed25519 algorithm identifier: the object
/// identifier 1.3.101.112 and no parameters (RFC 8410, Section 3).
pub open spec fn ed25519_algorithm_content() -> Seq<u8> {
    der_tlv(6, seq![43u8, 101u8, 112u8])
}

/// The DER encoding of the Ed25519 public key `key` (RFC 8410, Section 4).
pub open spec fn ed25519_public_key_der(key: Seq<u8>) -> Seq<u8> {
    spki_der(ed25519_algorithm_content(), key)
}

/// The twelve bytes that precede the 32 key bytes in the DER encoding.
pub open spec fn ed25519_der_prefix() -> Seq<u8> {
    seq![48u8, 42u8, 48u8, 5u8, 6u8, 3u8, 43u8, 101u8, 112u8, 3u8, 33u8, 0u8]
}

/// The 32-byte key that `der` encodes, if it is the DER encoding of an
/// Ed25519 public key.
pub open spec fn decoded_public_key(der: Seq<u8>) -> Option<Seq<u8>> {
    if exists|key: Seq<u8>| key.len() == 32 && #[trigger] ed25519_public_key_der(key) == der {
        Some(choose|key: Seq<u8>| key.len() == 32 && #[trigger] ed25519_public_key_der(key) == der)
    } else {
        None
    }
}

/// Why `der`, which encodes no Ed25519 public key, is refused.
pub open spec fn public_key_der_error(der: Seq<u8>) -> KeyDerParsingError {
    if !is_spki_der(der) {
        KeyDerParsingError::MalformedDer
    } else if exists|key: Seq<u8>| #[trigger] ed25519_public_key_der(key) == der {
        KeyDerParsingError::WrongKeyLength
    } else {
        KeyDerParsingError::WrongAlgorithmIdentifier
    }
}

/// The encoding of an Ed25519 public key is the twelve-byte prefix followed
/// by the key.
pub proof fn lemma_ed25519_der_prefix(key: Seq<u8>)
    requires
        key.len() == 32,
    ensures
        ed25519_public_key_der(key) == ed25519_der_prefix() + key,
{
    let oid = der_tlv(6, seq![43u8, 101u8, 112u8]);
    assert(oid =~= seq![6u8, 3u8, 43u8, 101u8, 112u8]);
    let alg = der_tlv(0x30, oid);
    assert(alg =~= seq![48u8, 5u8, 6u8, 3u8, 43u8, 101u8, 112u8]);
    let bits = der_tlv(0x03, seq![0u8] + key);
    assert(bits =~= seq![3u8, 33u8, 0u8] + key);
    assert(ed25519_public_key_der(key) =~= ed25519_der_prefix() + key);
}

/// Generates the Ed25519 key pair of the 32-byte secret: the secret key
/// keeps the bytes, the public key is the point they determine.
pub fn keypair_from_secret_key_bytes(secret: [u8; 32]) -> (r: (SecretKeyBytes, PublicKeyBytes))
    ensures
        r.0.secret() == secret@,
        r.1.0@ == ed25519_public_key_of(secret@),
        edwards_y_decompresses(r.1.0@),
        edwards_torsion_free(r.1.0@),
        r.1.0@ != edwards_identity_bytes(),
{
    let pk = PublicKeyBytes(ed25519_public_key(&secret));
    let sk = SecretKeyBytes::new(secret);
    (sk, pk)
}

/// The object identifier for Ed25519 public keys, 1.3.101.112, without
/// parameters (RFC 8410).
pub fn algorithm_identifier() -> (r: PkixAlgorithmIdentifier)
    ensures
        r.oid@ == seq![1u64, 3u64, 101u64, 112u64],
        r.params is None,
        algorithm_identifier_content(r) == Some(ed25519_algorithm_content()),
{
    let r = PkixAlgorithmIdentifier { oid: vec![1, 3, 101, 112], params: None };
    proof {
        let arcs = r.oid@;
        assert(arcs.subrange(2, 4) =~= seq![101u64, 112u64]);
        assert(seq![101u64, 112u64].drop_last() =~= seq![101u64]);
        assert(seq![101u64].drop_last() =~= Seq::<u64>::empty());
        assert(base128(43, false) =~= seq![43u8]);
        assert(base128(101, false) =~= seq![101u8]);
        assert(base128(112, false) =~= seq![112u8]);
        assert(oid_arcs_der(Seq::<u64>::empty()) =~= Seq::<u8>::empty());
        assert(oid_arcs_der(seq![101u64]) =~= seq![101u8]);
        assert(oid_arcs_der(seq![101u64, 112u64]) =~= seq![101u8, 112u8]);
        assert(oid_content(arcs) =~= seq![43u8, 101u8, 112u8]);
        assert(params_der(r.params) == Some(Seq::<u8>::empty()));
        assert(der_tlv(6, oid_content(arcs)) + Seq::<u8>::empty() =~= der_tlv(
            6,
            seq![43u8, 101u8, 112u8],
        ));
    }
    r
}

/// Decoding gives back the key that encoding was given.
pub proof fn law_public_key_der_round_trip(key: Seq<u8>)
    requires
        key.len() == 32,
    ensures
        decoded_public_key(ed25519_public_key_der(key)) == Some(key),
{
    let der = ed25519_public_key_der(key);
    assert(key.len() == 32 && ed25519_public_key_der(key) == der);
    let k = choose|k: Seq<u8>| k.len() == 32 && #[trigger] ed25519_public_key_der(k) == der;
    lemma_ed25519_der_prefix(key);
    lemma_ed25519_der_prefix(k);
    assert(key =~= der.subrange(12, 44));
    assert(k =~= der.subrange(12, 44));
}

/// What decodes to a key is the encoding of that key: the encoding is the
/// only one that is accepted.
pub proof fn law_public_key_der_canonical(der: Seq<u8>)
    ensures
        decoded_public_key(der) matches Some(key) ==> key.len() == 32 && ed25519_public_key_der(key)
            == der,
{
}

/// Decodes an Ed25519 public key from a DER-encoding according to RFC 8410,
/// Section 4, with the Ed25519 object identifier 1.3.101.112. Any other
/// input, be it no DER-encoded `SubjectPublicKeyInfo`, one with another
/// algorithm identifier, or one with a key of another length, is refused as
/// a malformed public key.
pub fn public_key_from_der(pk_der: &[u8]) -> (r: CryptoResult<PublicKeyBytes>)
    ensures
        decoded_public_key(pk_der@) matches Some(key) ==> (r matches Ok(pk) && pk.0@ == key),
        decoded_public_key(pk_der@) is None ==> (r matches Err(
            CryptoError::MalformedPublicKey { algorithm, key_bytes, internal_error },
        ) && algorithm == AlgorithmId::Ed25519 && (key_bytes matches Some(b) && b@ == pk_der@)
            && internal_error@ == key_der_error_text(public_key_der_error(pk_der@))),
{
    let expected_pk_len: usize = 32;
    let id = algorithm_identifier();
    let parsed = parse_public_key(pk_der, &id, Some(expected_pk_len));
    proof {
        assert forall|key: Seq<u8>| #[trigger]
            is_public_key_der(pk_der@, id, key) == (ed25519_public_key_der(key)
                == pk_der@) by {}
        if decoded_public_key(pk_der@) is None {
            assert forall|key: Seq<u8>|
                !(#[trigger] is_public_key_der(pk_der@, id, key)
                    && key_length_ok(key, Some(expected_pk_len))) by {
                if is_public_key_der(pk_der@, id, key) && key.len() == 32 {
                    assert(key.len() == 32 && ed25519_public_key_der(key) == pk_der@);
                }
            }
        }
    }
    match parsed {
        Ok(pk_bytes) => {
            proof {
                assert(is_public_key_der(pk_der@, id, pk_bytes@));
                assert(ed25519_public_key_der(pk_bytes@) == pk_der@);
                assert(pk_bytes@.len() == 32);
                law_public_key_der_round_trip(pk_bytes@);
                assert(decoded_public_key(pk_der@) == Some(pk_bytes@));
            }
            let res = PublicKeyBytes::try_from_vec(&pk_bytes);
            res
        },
        Err(e) => {
            proof {
                if decoded_public_key(pk_der@) is Some {
                    let key = decoded_public_key(pk_der@).unwrap();
                    assert(is_public_key_der(pk_der@, id, key));
                }
                if is_spki_der(pk_der@) {
                    if exists|key: Seq<u8>| #[trigger] ed25519_public_key_der(key) == pk_der@ {
                        let key = choose|key: Seq<u8>| #[trigger]
                            ed25519_public_key_der(key) == pk_der@;
                        assert(is_public_key_der(pk_der@, id, key));
                        if key.len() == 32 {
                            assert(key.len() == 32 && ed25519_public_key_der(key) == pk_der@);
                        }
                    } else {
                        let (alg, key) = choose|alg: Seq<u8>, key: Seq<u8>| #[trigger]
                            spki_der(alg, key) == pk_der@;
                        if alg == ed25519_algorithm_content() {
                            assert(ed25519_public_key_der(key) == pk_der@);
                        }
                    }
                }
            }
            Err(
                CryptoError::MalformedPublicKey {
                    algorithm: AlgorithmId::Ed25519,
                    key_bytes: Some(vstd::slice::slice_to_vec(pk_der)),
                    internal_error: e.message(),
                },
            )
        },
    }
}

/// Encodes the given `key` as DER-encoded Ed25519 public key according to
/// RFC 8410, Section 4: the twelve bytes of the `SubjectPublicKeyInfo`
/// header followed by the key.
pub fn public_key_to_der(key: PublicKeyBytes) -> (r: Vec<u8>)
    ensures
        r@ == ed25519_public_key_der(key.0@),
        r@ == ed25519_der_prefix() + key.0@,
{
    let mut der_pk: Vec<u8> = vec![
        48,
        42,  // A sequence of 42 bytes follows.
        48,
        5,  // An element of 5 bytes follows.
        6,
        3,
        43,
        101,
        112,  // The OID
        3,
        33,  // A bitstring of 33 bytes follows.
        0,  // The bitstring (32 bytes) is divisible by 8
    ];
    der_pk.extend_from_slice(key.0.as_slice());
    proof {
        assert(der_pk@ =~= ed25519_der_prefix() + key.0@);
        lemma_ed25519_der_prefix(key.0@);
    }
    der_pk
}

/// Signs a message with an Ed25519 secret key (deterministic Ed25519).
/// Signing always succeeds; the signature is well formed and verifies under
/// the public key of the secret key.
pub fn sign(msg: &[u8], sk: &SecretKeyBytes) -> (r: CryptoResult<SignatureBytes>)
    ensures
        r matches Ok(sig) && sig.0@ == ed25519_signature_of(sk.secret(), msg@),
        r matches Ok(sig) && ed25519_accepts(ed25519_public_key_of(sk.secret()), sig.0@, msg@),
        r matches Ok(sig) && signature_defect(sig.0@) is None,
{
    let signature = ed25519_sign(sk.expose_secret(), msg);
    Ok(SignatureBytes(signature))
}

/// The error given for a public key that does not decode.
pub open spec fn is_malformed_key_error(e: CryptoError, pk: Seq<u8>) -> bool {
    e matches CryptoError::MalformedPublicKey { algorithm, key_bytes, internal_error } && algorithm
        == AlgorithmId::Ed25519 && (key_bytes matches Some(b) && b@ == pk) && internal_error@
        == ed25519_error_text(Ed25519Error::MalformedPublicKey)
}

/// The error given for a signature with the defect `d`.
pub open spec fn is_malformed_signature_error(
    e: CryptoError,
    sig: Seq<u8>,
    d: SignatureDefect,
) -> bool {
    e matches CryptoError::MalformedSignature { algorithm, sig_bytes, internal_error } && algorithm
        == AlgorithmId::Ed25519 && sig_bytes@ == sig && internal_error@ == signature_defect_text(d)
}

/// The error that `verify` gives for a signature that is not accepted.
pub open spec fn is_rejected_signature_error(e: CryptoError, pk: Seq<u8>, sig: Seq<u8>) -> bool {
    e matches CryptoError::SignatureVerification {
        algorithm,
        public_key_bytes,
        sig_bytes,
        internal_error,
    } && algorithm == AlgorithmId::Ed25519 && public_key_bytes@ == pk && sig_bytes@ == sig
        && internal_error@ == ed25519_error_text(Ed25519Error::InvalidSignature)
}

/// Verifies a signature using an Ed25519 public key: succeeds exactly when
/// the key decodes, the signature is well formed and it is accepted. A key
/// that does not decode is a malformed public key (so a key that passes
/// `verify_public_key` never is); a signature whose point is not on the
/// curve or whose scalar is not below the group order is a malformed
/// signature; a well-formed signature that is not accepted fails
/// verification.
pub fn verify(sig: &SignatureBytes, msg: &[u8], pk: &PublicKeyBytes) -> (r: CryptoResult<()>)
    ensures
        r is Ok <==> edwards_y_decompresses(pk.0@) && signature_defect(sig.0@) is None
            && ed25519_accepts(pk.0@, sig.0@, msg@),
        !edwards_y_decompresses(pk.0@) ==> (r matches Err(e) && is_malformed_key_error(e, pk.0@)),
        r matches Err(CryptoError::MalformedPublicKey { .. }) ==> !edwards_y_decompresses(pk.0@),
        edwards_y_decompresses(pk.0@) && signature_defect(sig.0@) is Some ==> (r matches Err(e)
            && is_malformed_signature_error(e, sig.0@, signature_defect(sig.0@).unwrap())),
        edwards_y_decompresses(pk.0@) && signature_defect(sig.0@) is None && !ed25519_accepts(
            pk.0@,
            sig.0@,
            msg@,
        ) ==> (r matches Err(e) && is_rejected_signature_error(e, pk.0@, sig.0@)),
{
    let verification_key = match decode_verification_key(&pk.0) {
        Ok(k) => k,
        Err(e) => {
            return Err(
                CryptoError::MalformedPublicKey {
                    algorithm: AlgorithmId::Ed25519,
                    key_bytes: Some(vstd::slice::slice_to_vec(pk.0.as_slice())),
                    internal_error: e.message(),
                },
            );
        },
    };
    if let Some(defect) = signature_defect_of(sig) {
        return Err(
            CryptoError::MalformedSignature {
                algorithm: AlgorithmId::Ed25519,
                sig_bytes: vstd::slice::slice_to_vec(sig.0.as_slice()),
                internal_error: defect.message(),
            },
        );
    }
    match verification_key.verify(&sig.0, msg) {
        Ok(()) => Ok(()),
        Err(e) => Err(
            CryptoError::SignatureVerification {
                algorithm: AlgorithmId::Ed25519,
                public_key_bytes: vstd::slice::slice_to_vec(verification_key.to_bytes().as_slice()),
                sig_bytes: vstd::slice::slice_to_vec(sig.0.as_slice()),
                internal_error: e.message(),
            },
        ),
    }
}

/// Every public key of the pairs decodes.
pub open spec fn all_keys_decode(pairs: Seq<(&PublicKeyBytes, &SignatureBytes)>) -> bool {
    forall|i: int| 0 <= i < pairs.len() ==> edwards_y_decompresses(#[trigger] pairs[i].0.0@)
}

/// Every signature of the pairs is well formed.
pub open spec fn all_signatures_well_formed(pairs: Seq<(&PublicKeyBytes, &SignatureBytes)>) -> bool {
    forall|i: int| 0 <= i < pairs.len() ==> signature_defect(#[trigger] pairs[i].1.0@) is None
}

/// Every signature of the pairs is accepted on `msg` under its public key.
pub open spec fn all_signatures_accepted(
    pairs: Seq<(&PublicKeyBytes, &SignatureBytes)>,
    msg: Seq<u8>,
) -> bool {
    forall|i: int|
        0 <= i < pairs.len() ==> ed25519_accepts(#[trigger] pairs[i].0.0@, pairs[i].1.0@, msg)
}

/// The public key of pair `i` is the first one that does not decode.
pub open spec fn is_first_undecodable_key(
    pairs: Seq<(&PublicKeyBytes, &SignatureBytes)>,
    i: int,
) -> bool {
    &&& 0 <= i < pairs.len()
    &&& !edwards_y_decompresses(pairs[i].0.0@)
    &&& forall|j: int| 0 <= j < i ==> edwards_y_decompresses(#[trigger] pairs[j].0.0@)
}

/// The signature of pair `i` is the first one that is malformed.
pub open spec fn is_first_malformed_signature(
    pairs: Seq<(&PublicKeyBytes, &SignatureBytes)>,
    i: int,
) -> bool {
    &&& 0 <= i < pairs.len()
    &&& signature_defect(pairs[i].1.0@) is Some
    &&& forall|j: int| 0 <= j < i ==> signature_defect(#[trigger] pairs[j].1.0@) is None
}

/// The error that `verify_batch` gives when the batch is not accepted.
pub open spec fn is_rejected_batch_error(e: CryptoError) -> bool {
    e matches CryptoError::SignatureVerification {
        algorithm,
        public_key_bytes,
        sig_bytes,
        internal_error,
    } && algorithm == AlgorithmId::Ed25519 && public_key_bytes@.len() == 0 && sig_bytes@.len()
        == 0 && internal_error@ == ed25519_error_text(Ed25519Error::InvalidSignature)
}

/// The items that a batch verifier holds after the pairs were queued with `msg`.
pub open spec fn batch_of(
    pairs: Seq<(&PublicKeyBytes, &SignatureBytes)>,
    msg: Seq<u8>,
) -> Multiset<(Seq<u8>, Seq<u8>, Seq<u8>)>
    decreases pairs.len(),
{
    if pairs.len() == 0 {
        Multiset::empty()
    } else {
        batch_of(pairs.drop_last(), msg).insert((pairs.last().0.0@, pairs.last().1.0@, msg))
    }
}

/// The (public key, signature, message) items of the pairs, in order.
pub open spec fn pair_items(
    pairs: Seq<(&PublicKeyBytes, &SignatureBytes)>,
    msg: Seq<u8>,
) -> Seq<(Seq<u8>, Seq<u8>, Seq<u8>)> {
    pairs.map_values(|p: (&PublicKeyBytes, &SignatureBytes)| (p.0.0@, p.1.0@, msg))
}

/// Queueing the pairs one after the other gathers each pair exactly once:
/// the batch is the multiset of the pairs' items, as many as there are
/// pairs, and it holds the item of every pair.
pub proof fn law_batch_holds_every_pair(
    pairs: Seq<(&PublicKeyBytes, &SignatureBytes)>,
    msg: Seq<u8>,
)
    ensures
        batch_of(pairs, msg) == pair_items(pairs, msg).to_multiset(),
        batch_of(pairs, msg).len() == pairs.len(),
        forall|i: int|
            0 <= i < pairs.len() ==> batch_of(pairs, msg).contains(
                (#[trigger] pairs[i].0.0@, pairs[i].1.0@, msg),
            ),
    decreases pairs.len(),
{
    broadcast use vstd::seq_lib::group_to_multiset_ensures;

    let items = pair_items(pairs, msg);
    if pairs.len() == 0 {
        assert(items =~= Seq::<(Seq<u8>, Seq<u8>, Seq<u8>)>::empty());
        assert(items.to_multiset() =~= Multiset::empty());
    } else {
        law_batch_holds_every_pair(pairs.drop_last(), msg);
        let last = (pairs.last().0.0@, pairs.last().1.0@, msg);
        assert(items =~= pair_items(pairs.drop_last(), msg).push(last));
        assert(items.to_multiset() =~= pair_items(pairs.drop_last(), msg).to_multiset().insert(
            last,
        ));
    }
    assert(items.len() == pairs.len());
    assert forall|i: int| 0 <= i < pairs.len() implies batch_of(pairs, msg).contains(
        (#[trigger] pairs[i].0.0@, pairs[i].1.0@, msg),
    ) by {
        assert(items[i] == (pairs[i].0.0@, pairs[i].1.0@, msg));
        assert(items.contains(items[i]));
    }
}

proof fn lemma_batch_of_items(
    pairs: Seq<(&PublicKeyBytes, &SignatureBytes)>,
    msg: Seq<u8>,
    item: (Seq<u8>, Seq<u8>, Seq<u8>),
)
    requires
        batch_of(pairs, msg).contains(item),
    ensures
        exists|j: int|
            0 <= j < pairs.len() && item == (#[trigger] pairs[j].0.0@, pairs[j].1.0@, msg),
    decreases pairs.len(),
{
    if pairs.len() > 0 {
        let last = (pairs.last().0.0@, pairs.last().1.0@, msg);
        if item == last {
            assert(item == (pairs[pairs.len() - 1].0.0@, pairs[pairs.len() - 1].1.0@, msg));
        } else {
            lemma_batch_of_items(pairs.drop_last(), msg, item);
            let j = choose|j: int|
                0 <= j < pairs.drop_last().len() && item == (
                    #[trigger] pairs.drop_last()[j].0.0@,
                    pairs.drop_last()[j].1.0@,
                    msg,
                );
            assert(pairs.drop_last()[j] == pairs[j]);
        }
    }
}

/// Decodes the public keys of all pairs, then checks the signatures of all
/// pairs, each in order, and queues the pairs with `msg` in a new batch
/// verifier. The first public key that does not decode is reported, whatever
/// the signatures; when every key decodes, the first malformed signature is
/// reported; when every signature is well formed too, the verifier holds
/// exactly the queued pairs.
pub fn queue_batch(
    key_signature_map: &[(&PublicKeyBytes, &SignatureBytes)],
    msg: &[u8],
) -> (r: Result<Verifier, CryptoError>)
    ensures
        !all_keys_decode(key_signature_map@) ==> exists|i: int|
            is_first_undecodable_key(key_signature_map@, i) && (r matches Err(e)
                && is_malformed_key_error(e, #[trigger] key_signature_map@[i].0.0@)),
        all_keys_decode(key_signature_map@) && !all_signatures_well_formed(key_signature_map@)
            ==> exists|i: int|
            is_first_malformed_signature(key_signature_map@, i) && (r matches Err(e)
                && is_malformed_signature_error(
                e,
                #[trigger] key_signature_map@[i].1.0@,
                signature_defect(key_signature_map@[i].1.0@).unwrap(),
            )),
        all_keys_decode(key_signature_map@) && all_signatures_well_formed(key_signature_map@) ==> (
        r matches Ok(v) && batch_items(v) == batch_of(key_signature_map@, msg@)),
        r matches Ok(v) ==> batch_items(v) == pair_items(key_signature_map@, msg@).to_multiset(),
        r matches Ok(v) ==> batch_items(v).len() == key_signature_map@.len(),
        r matches Ok(v) ==> forall|i: int|
            0 <= i < key_signature_map@.len() ==> batch_items(v).contains(
                (#[trigger] key_signature_map@[i].0.0@, key_signature_map@[i].1.0@, msg@),
            ),
        r matches Ok(v) ==> forall|item: (Seq<u8>, Seq<u8>, Seq<u8>)| #[trigger]
            batch_items(v).contains(item) ==> ed25519_key_decodes(item.0),
{
    let n = key_signature_map.len();
    let mut keys: Vec<Ed25519VerificationKey> = Vec::new();
    let mut i: usize = 0;
    while i < n
        invariant
            n == key_signature_map@.len(),
            i <= n,
            keys@.len() == i,
            forall|j: int| 0 <= j < i ==> edwards_y_decompresses(#[trigger] key_signature_map@[j].0.0@),
            forall|j: int| 0 <= j < i ==> ed25519_key_decodes(#[trigger] key_signature_map@[j].0.0@),
            forall|j: int|
                0 <= j < i ==> (#[trigger] keys@[j]).key_bytes() == key_signature_map@[j].0.0@,
        decreases n - i,
    {
        let pk = key_signature_map[i].0;
        match decode_verification_key(&pk.0) {
            Ok(k) => keys.push(k),
            Err(e) => {
                assert(is_first_undecodable_key(key_signature_map@, i as int));
                return Err(
                    CryptoError::MalformedPublicKey {
                        algorithm: AlgorithmId::Ed25519,
                        key_bytes: Some(vstd::slice::slice_to_vec(pk.0.as_slice())),
                        internal_error: e.message(),
                    },
                );
            },
        }
        i = i + 1;
    }
    let mut i: usize = 0;
    while i < n
        invariant
            n == key_signature_map@.len(),
            i <= n,
            all_keys_decode(key_signature_map@),
            forall|j: int| 0 <= j < i ==> signature_defect(#[trigger] key_signature_map@[j].1.0@) is None,
        decreases n - i,
    {
        let sig = key_signature_map[i].1;
        if let Some(defect) = signature_defect_of(sig) {
            assert(is_first_malformed_signature(key_signature_map@, i as int));
            return Err(
                CryptoError::MalformedSignature {
                    algorithm: AlgorithmId::Ed25519,
                    sig_bytes: vstd::slice::slice_to_vec(sig.0.as_slice()),
                    internal_error: defect.message(),
                },
            );
        }
        i = i + 1;
    }
    let mut batch_verifier = batch_verifier_new();
    let mut i: usize = 0;
    while i < n
        invariant
            n == key_signature_map@.len(),
            i <= n,
            keys@.len() == n,
            forall|j: int| 0 <= j < n ==> ed25519_key_decodes(#[trigger] key_signature_map@[j].0.0@),
            forall|j: int|
                0 <= j < n ==> (#[trigger] keys@[j]).key_bytes() == key_signature_map@[j].0.0@,
            batch_items(batch_verifier) == batch_of(key_signature_map@.subrange(0, i as int), msg@),
        decreases n - i,
    {
        let sig = key_signature_map[i].1;
        batch_verifier_queue(&mut batch_verifier, &keys[i], &sig.0, msg);
        proof {
            assert(key_signature_map@.subrange(0, i + 1).drop_last() =~= key_signature_map@.subrange(
                0,
                i as int,
            ));
        }
        i = i + 1;
    }
    proof {
        assert(key_signature_map@.subrange(0, i as int) =~= key_signature_map@);
        law_batch_holds_every_pair(key_signature_map@, msg@);
        assert forall|item: (Seq<u8>, Seq<u8>, Seq<u8>)| #[trigger]
            batch_items(batch_verifier).contains(item) implies ed25519_key_decodes(item.0) by {
            lemma_batch_of_items(key_signature_map@, msg@, item);
        }
    }
    Ok(batch_verifier)
}

/// Verifies one or more signatures of the same message, each under its
/// public key, in one batch whose random choices come from a ChaCha20
/// generator seeded with `seed`. The first public key that does not decode
/// is reported, whatever the signatures; then the first malformed
/// signature; then all pairs are queued (see `queue_batch`). When every
/// signature is accepted on its own, the batch is accepted; a batch that is
/// not accepted fails verification.
pub fn verify_batch(
    key_signature_map: &[(&PublicKeyBytes, &SignatureBytes)],
    msg: &[u8],
    seed: Seed,
) -> (r: CryptoResult<()>)
    ensures
        !all_keys_decode(key_signature_map@) ==> exists|i: int|
            is_first_undecodable_key(key_signature_map@, i) && (r matches Err(e)
                && is_malformed_key_error(e, #[trigger] key_signature_map@[i].0.0@)),
        all_keys_decode(key_signature_map@) && !all_signatures_well_formed(key_signature_map@)
            ==> exists|i: int|
            is_first_malformed_signature(key_signature_map@, i) && (r matches Err(e)
                && is_malformed_signature_error(
                e,
                #[trigger] key_signature_map@[i].1.0@,
                signature_defect(key_signature_map@[i].1.0@).unwrap(),
            )),
        all_keys_decode(key_signature_map@) && all_signatures_well_formed(key_signature_map@)
            && all_signatures_accepted(key_signature_map@, msg@) ==> r is Ok,
        all_keys_decode(key_signature_map@) && all_signatures_well_formed(key_signature_map@) ==> (
        r matches Err(e) ==> is_rejected_batch_error(e)),
{
    let batch_verifier = match queue_batch(key_signature_map, msg) {
        Ok(v) => v,
        Err(e) => return Err(e),
    };
    proof {
        if all_signatures_accepted(key_signature_map@, msg@) {
            assert forall|item: (Seq<u8>, Seq<u8>, Seq<u8>)| #[trigger]
                batch_items(batch_verifier).contains(item) implies ed25519_key_decodes(item.0)
                && ed25519_accepts(item.0, item.1, item.2) by {
                lemma_batch_of_items(key_signature_map@, msg@, item);
            }
        }
    }
    let rng = seed.into_rng();
    match batch_verifier_verify(batch_verifier, rng) {
        Ok(()) => Ok(()),
        Err(e) => Err(
            CryptoError::SignatureVerification {
                algorithm: AlgorithmId::Ed25519,
                public_key_bytes: Vec::new(),
                sig_bytes: Vec::new(),
                internal_error: e.message(),
            },
        ),
    }
}

/// Verifies whether the given key is a valid Ed25519 public key: that it is
/// a point on the curve, and in the prime-order subgroup.
pub fn verify_public_key(pk: &PublicKeyBytes) -> (r: bool)
    ensures
        r == (edwards_y_decompresses(pk.0@) && edwards_torsion_free(pk.0@)),
{
    match decompress_edwards_y(&pk.0) {
        None => false,
        Some(edwards_point) => edwards_point.is_torsion_free(),
    }
}

} // verus!
