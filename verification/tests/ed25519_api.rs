use simple_asn1::{ASN1Block, BigUint, OID};
use ed25519_basic_sig::der::{
    encode_algorithm_identifier, encode_oid, parse_public_key, push_tlv, read_tlv,
    KeyDerParsingError, PkixAlgorithmIdentifier, PkixAlgorithmParameters,
};
use ed25519_basic_sig::api::queue_batch;
use ed25519_basic_sig::ed25519::Ed25519Error;
use ed25519_basic_sig::{
    algorithm_identifier, keypair_from_secret_key_bytes, public_key_from_der, public_key_to_der,
    sign, verify, verify_batch, verify_public_key, AlgorithmId, CryptoError, PublicKeyBytes,
    SecretKeyBytes, Seed, SignatureBytes,
};

fn bytes32(hex_str: &str) -> [u8; 32] {
    let v = hex::decode(hex_str).unwrap();
    let mut a = [0u8; 32];
    a.copy_from_slice(&v);
    a
}

fn bytes64(hex_str: &str) -> [u8; 64] {
    let v = hex::decode(hex_str).unwrap();
    let mut a = [0u8; 64];
    a.copy_from_slice(&v);
    a
}

// RFC 8032, Section 7.1, tests 1 and 2.
const SK1: &str = "9d61b19deffd5a60ba844af492ec2cc44449c5697b326919703bac031cae7f60";
const PK1: &str = "d75a980182b10ab7d54bfed3c964073a0ee172f3daa62325af021a68f707511a";
const SIG1: &str = "e5564300c360ac729086e2cc806e828a84877f1eb8e5d974d873e065224901555fb8821590a33bacc61e39701cf9b46bd25bf5f0595bbe24655141438e7a100b";
const SK2: &str = "4ccd089b28ff96da9db6c346ec114e0f5b8a319f35aba624da8cf6ed4fb8a6fb";
const PK2: &str = "3d4017c3e843895a92b70aa74d1b7ebc9c982ccf2ec4968cc0cd55f12af4660c";
const SIG2: &str = "92a009a9f0d4cab8720e820b5f642540a2b27b5416503f8fb3762223ebdb69da085ac1e43e15996e458f3613d0f11d8c387b2eaeb4302aeeb00d291612bb0c00";

const DER_PREFIX: [u8; 12] = [48, 42, 48, 5, 6, 3, 43, 101, 112, 3, 33, 0];

#[test]
fn keypair_matches_rfc8032_public_keys() {
    let (sk, pk) = keypair_from_secret_key_bytes(bytes32(SK1));
    assert_eq!(sk.expose_secret(), &bytes32(SK1));
    assert_eq!(pk, PublicKeyBytes(bytes32(PK1)));
    let (_, pk2) = keypair_from_secret_key_bytes(bytes32(SK2));
    assert_eq!(pk2, PublicKeyBytes(bytes32(PK2)));
}

#[test]
fn sign_gives_rfc8032_signatures() {
    let sk = SecretKeyBytes::new(bytes32(SK1));
    assert_eq!(sign(&[], &sk), Ok(SignatureBytes(bytes64(SIG1))));
    let sk2 = SecretKeyBytes::new(bytes32(SK2));
    assert_eq!(sign(&[0x72], &sk2), Ok(SignatureBytes(bytes64(SIG2))));
}

#[test]
fn sign_is_deterministic() {
    let sk = SecretKeyBytes::new([9u8; 32]);
    assert_eq!(sign(b"message", &sk), sign(b"message", &sk));
    assert_ne!(sign(b"message", &sk), sign(b"messagf", &sk));
}

#[test]
fn signature_of_secret_key_verifies_under_its_public_key() {
    for i in 0..8u8 {
        let (sk, pk) = keypair_from_secret_key_bytes([i; 32]);
        let msg = vec![i; i as usize * 10];
        let sig = sign(&msg, &sk).unwrap();
        assert_eq!(verify(&sig, &msg, &pk), Ok(()));
    }
}

#[test]
fn verify_accepts_rfc8032_signature() {
    let pk = PublicKeyBytes(bytes32(PK1));
    assert_eq!(verify(&SignatureBytes(bytes64(SIG1)), &[], &pk), Ok(()));
}

#[test]
fn verify_rejects_signature_on_other_message() {
    let pk = PublicKeyBytes(bytes32(PK1));
    let sig = SignatureBytes(bytes64(SIG1));
    assert_eq!(
        verify(&sig, b"x", &pk),
        Err(CryptoError::SignatureVerification {
            algorithm: AlgorithmId::Ed25519,
            public_key_bytes: pk.0.to_vec(),
            sig_bytes: sig.0.to_vec(),
            internal_error: "Invalid signature.".to_string(),
        })
    );
}

#[test]
fn verify_rejects_signature_with_unreduced_scalar() {
    let pk = PublicKeyBytes(bytes32(PK1));
    let mut sig = bytes64(SIG1);
    sig[63] = 0xff;
    assert_eq!(
        verify(&SignatureBytes(sig), &[], &pk),
        Err(CryptoError::MalformedSignature {
            algorithm: AlgorithmId::Ed25519,
            sig_bytes: sig.to_vec(),
            internal_error: "The scalar s of the signature is not below the group order."
                .to_string(),
        })
    );
    // s = l exactly is not reduced either; s = l - 1 is.
    let l = hex::decode("edd3f55c1a631258d69cf7a2def9de1400000000000000000000000000000010").unwrap();
    sig[32..].copy_from_slice(&l);
    assert!(matches!(
        verify(&SignatureBytes(sig), &[], &pk),
        Err(CryptoError::MalformedSignature { .. })
    ));
    sig[32] -= 1;
    assert!(matches!(
        verify(&SignatureBytes(sig), &[], &pk),
        Err(CryptoError::SignatureVerification { .. })
    ));
}

#[test]
fn verify_rejects_signature_whose_point_is_not_on_the_curve() {
    let pk = PublicKeyBytes(bytes32(PK1));
    let mut sig = bytes64(SIG1);
    sig[..32].copy_from_slice(&undecodable_key());
    assert_eq!(
        verify(&SignatureBytes(sig), &[], &pk),
        Err(CryptoError::MalformedSignature {
            algorithm: AlgorithmId::Ed25519,
            sig_bytes: sig.to_vec(),
            internal_error: "The point R of the signature is not on the curve.".to_string(),
        })
    );
}

#[test]
fn verify_reports_malformed_key_before_malformed_signature() {
    let mut sig = bytes64(SIG1);
    sig[63] = 0xff;
    let bad = undecodable_key();
    assert!(matches!(
        verify(&SignatureBytes(sig), &[], &PublicKeyBytes(bad)),
        Err(CryptoError::MalformedPublicKey { .. })
    ));
}

#[test]
fn verify_batch_rejects_malformed_signature() {
    let (sk1, pk1) = keypair_from_secret_key_bytes([1; 32]);
    let sig1 = sign(b"batch", &sk1).unwrap();
    let mut bad = sig1;
    bad.0[63] = 0xff;
    let pairs = [(&pk1, &sig1), (&pk1, &bad)];
    assert_eq!(
        verify_batch(&pairs, b"batch", Seed::from_bytes([5; 32])),
        Err(CryptoError::MalformedSignature {
            algorithm: AlgorithmId::Ed25519,
            sig_bytes: bad.0.to_vec(),
            internal_error: "The scalar s of the signature is not below the group order."
                .to_string(),
        })
    );
}

#[test]
fn queue_batch_queues_well_formed_pairs() {
    let (sk1, pk1) = keypair_from_secret_key_bytes([1; 32]);
    let (sk2, pk2) = keypair_from_secret_key_bytes([2; 32]);
    let sig1 = sign(b"m", &sk1).unwrap();
    let sig2 = sign(b"m", &sk2).unwrap();
    let v = queue_batch(&[(&pk1, &sig1), (&pk2, &sig2)], b"m").unwrap();
    assert!(v.verify(rand::thread_rng()).is_ok());
    let v = queue_batch(&[(&pk1, &sig2)], b"m").unwrap();
    assert!(v.verify(rand::thread_rng()).is_err());
    let bad = PublicKeyBytes(undecodable_key());
    assert!(matches!(
        queue_batch(&[(&pk1, &sig1), (&bad, &sig1)], b"m"),
        Err(CryptoError::MalformedPublicKey { .. })
    ));
}

#[test]
fn generated_public_keys_are_valid_and_not_the_identity() {
    let mut identity = [0u8; 32];
    identity[0] = 1;
    for i in 0..16u8 {
        let (_, pk) = keypair_from_secret_key_bytes([i.wrapping_mul(17); 32]);
        assert!(verify_public_key(&pk));
        assert_ne!(pk.0, identity);
    }
}

fn undecodable_key() -> [u8; 32] {
    for first in 0..=255u8 {
        let mut b = [0u8; 32];
        b[0] = first;
        b[1] = 1;
        if curve25519_dalek::edwards::CompressedEdwardsY(b).decompress().is_none() {
            return b;
        }
    }
    panic!("no undecodable point found");
}

#[test]
fn verify_rejects_malformed_public_key() {
    let bad = undecodable_key();
    assert_eq!(
        verify(&SignatureBytes(bytes64(SIG1)), &[], &PublicKeyBytes(bad)),
        Err(CryptoError::MalformedPublicKey {
            algorithm: AlgorithmId::Ed25519,
            key_bytes: Some(bad.to_vec()),
            internal_error: "Malformed public key encoding.".to_string(),
        })
    );
}

#[test]
fn verify_batch_accepts_valid_signatures() {
    let mut pks = vec![];
    let mut sigs = vec![];
    for i in 0..5u8 {
        let (sk, pk) = keypair_from_secret_key_bytes([i + 1; 32]);
        sigs.push(sign(b"batch", &sk).unwrap());
        pks.push(pk);
    }
    // The same key twice.
    let (sk, pk) = keypair_from_secret_key_bytes([1; 32]);
    sigs.push(sign(b"batch", &sk).unwrap());
    pks.push(pk);
    let pairs: Vec<(&PublicKeyBytes, &SignatureBytes)> = pks.iter().zip(sigs.iter()).collect();
    assert_eq!(verify_batch(&pairs, b"batch", Seed::from_bytes([3; 32])), Ok(()));
}

#[test]
fn verify_batch_accepts_empty_batch() {
    assert_eq!(verify_batch(&[], b"anything", Seed::from_bytes([0; 32])), Ok(()));
}

#[test]
fn verify_batch_rejects_invalid_signature() {
    let (sk1, pk1) = keypair_from_secret_key_bytes([1; 32]);
    let (_, pk2) = keypair_from_secret_key_bytes([2; 32]);
    let sig1 = sign(b"batch", &sk1).unwrap();
    let pairs = [(&pk1, &sig1), (&pk2, &sig1)];
    assert_eq!(
        verify_batch(&pairs, b"batch", Seed::from_bytes([5; 32])),
        Err(CryptoError::SignatureVerification {
            algorithm: AlgorithmId::Ed25519,
            public_key_bytes: vec![],
            sig_bytes: vec![],
            internal_error: "Invalid signature.".to_string(),
        })
    );
}

#[test]
fn verify_batch_reports_first_malformed_public_key() {
    let (sk1, pk1) = keypair_from_secret_key_bytes([1; 32]);
    let sig1 = sign(b"batch", &sk1).unwrap();
    let bad = PublicKeyBytes(undecodable_key());
    let mut bad2 = bad;
    bad2.0[1] = 3;
    let bad2 = if curve25519_dalek::edwards::CompressedEdwardsY(bad2.0).decompress().is_none() {
        bad2
    } else {
        bad
    };
    let pairs = [(&pk1, &sig1), (&bad, &sig1), (&bad2, &sig1)];
    assert_eq!(
        verify_batch(&pairs, b"batch", Seed::from_bytes([5; 32])),
        Err(CryptoError::MalformedPublicKey {
            algorithm: AlgorithmId::Ed25519,
            key_bytes: Some(bad.0.to_vec()),
            internal_error: "Malformed public key encoding.".to_string(),
        })
    );
}

#[test]
fn verify_public_key_accepts_generated_keys() {
    for i in 0..8u8 {
        let (_, pk) = keypair_from_secret_key_bytes([i; 32]);
        assert!(verify_public_key(&pk));
    }
    assert!(verify_public_key(&PublicKeyBytes(bytes32(PK1))));
}

#[test]
fn verify_public_key_rejects_point_of_small_order() {
    // (0, -1), a point of order 2.
    let mut b = [0xffu8; 32];
    b[0] = 0xec;
    b[31] = 0x7f;
    assert!(curve25519_dalek::edwards::CompressedEdwardsY(b).decompress().is_some());
    assert!(!verify_public_key(&PublicKeyBytes(b)));
}

#[test]
fn verify_public_key_rejects_undecodable_bytes() {
    assert!(!verify_public_key(&PublicKeyBytes(undecodable_key())));
}

#[test]
fn public_key_to_der_prefixes_the_key() {
    let key = bytes32(PK1);
    let der = public_key_to_der(PublicKeyBytes(key));
    assert_eq!(der.len(), 44);
    assert_eq!(&der[..12], &DER_PREFIX);
    assert_eq!(&der[12..], &key);
}

#[test]
fn public_key_to_der_agrees_with_simple_asn1() {
    let key = bytes32(PK2);
    let oid = OID::new(vec![
        BigUint::from(1u32),
        BigUint::from(3u32),
        BigUint::from(101u32),
        BigUint::from(112u32),
    ]);
    let spki = ASN1Block::Sequence(
        0,
        vec![
            ASN1Block::Sequence(0, vec![ASN1Block::ObjectIdentifier(0, oid)]),
            ASN1Block::BitString(0, 256, key.to_vec()),
        ],
    );
    assert_eq!(simple_asn1::to_der(&spki).unwrap(), public_key_to_der(PublicKeyBytes(key)));
}

#[test]
fn public_key_der_round_trip() {
    for i in 0..4u8 {
        let key = PublicKeyBytes([i * 60; 32]);
        assert_eq!(public_key_from_der(&public_key_to_der(key)), Ok(key));
    }
}

fn malformed(der: &[u8], msg: &str) -> Result<PublicKeyBytes, CryptoError> {
    Err(CryptoError::MalformedPublicKey {
        algorithm: AlgorithmId::Ed25519,
        key_bytes: Some(der.to_vec()),
        internal_error: msg.to_string(),
    })
}

#[test]
fn public_key_from_der_rejects_malformed_der() {
    let mut der = public_key_to_der(PublicKeyBytes([5; 32]));
    der.push(0);
    assert_eq!(public_key_from_der(&der), malformed(&der, "Not a DER-encoded SubjectPublicKeyInfo."));
    let short = &der[..20];
    assert_eq!(public_key_from_der(short), malformed(short, "Not a DER-encoded SubjectPublicKeyInfo."));
    assert_eq!(public_key_from_der(&[]), malformed(&[], "Not a DER-encoded SubjectPublicKeyInfo."));
    // A bit string with unused bits.
    let mut unused = public_key_to_der(PublicKeyBytes([5; 32]));
    unused[11] = 1;
    assert_eq!(
        public_key_from_der(&unused),
        malformed(&unused, "Not a DER-encoded SubjectPublicKeyInfo.")
    );
    // A length in the long form where the short one is required.
    let mut long = vec![48, 0x81, 42];
    long.extend_from_slice(&public_key_to_der(PublicKeyBytes([5; 32]))[2..]);
    assert_eq!(public_key_from_der(&long), malformed(&long, "Not a DER-encoded SubjectPublicKeyInfo."));
}

#[test]
fn public_key_from_der_rejects_wrong_algorithm() {
    // The X25519 object identifier 1.3.101.110.
    let mut der = public_key_to_der(PublicKeyBytes([5; 32]));
    der[8] = 110;
    assert_eq!(public_key_from_der(&der), malformed(&der, "Wrong algorithm identifier."));
    // NULL parameters after the Ed25519 object identifier.
    let mut with_null = vec![48, 44, 48, 7, 6, 3, 43, 101, 112, 5, 0, 3, 33, 0];
    with_null.extend_from_slice(&[5; 32]);
    assert_eq!(public_key_from_der(&with_null), malformed(&with_null, "Wrong algorithm identifier."));
}

#[test]
fn public_key_from_der_rejects_wrong_key_length() {
    let mut der = vec![48, 43, 48, 5, 6, 3, 43, 101, 112, 3, 34, 0];
    der.extend_from_slice(&[5; 33]);
    assert_eq!(public_key_from_der(&der), malformed(&der, "Wrong length of the public key."));
    let der31 = {
        let mut d = vec![48, 41, 48, 5, 6, 3, 43, 101, 112, 3, 32, 0];
        d.extend_from_slice(&[5; 31]);
        d
    };
    assert_eq!(public_key_from_der(&der31), malformed(&der31, "Wrong length of the public key."));
}

#[test]
fn algorithm_identifier_is_ed25519_oid() {
    let id = algorithm_identifier();
    assert_eq!(id, PkixAlgorithmIdentifier { oid: vec![1, 3, 101, 112], params: None });
    assert_eq!(encode_algorithm_identifier(&id), Some(vec![6, 3, 43, 101, 112]));
}

#[test]
fn encode_oid_uses_base128() {
    // 1.2.840.113549 (RSA Data Security).
    assert_eq!(encode_oid(&vec![1, 2, 840, 113549]), Some(vec![42, 0x86, 0x48, 0x86, 0xf7, 0x0d]));
    assert_eq!(encode_oid(&vec![2, 100]), Some(vec![0x81, 0x34]));
    assert_eq!(encode_oid(&vec![1]), None);
    assert_eq!(encode_oid(&vec![3, 1]), None);
    assert_eq!(encode_oid(&vec![1, 40]), None);
}

#[test]
fn encode_algorithm_identifier_with_parameters() {
    let rsa = PkixAlgorithmIdentifier {
        oid: vec![1, 2, 840, 113549, 1, 1, 1],
        params: Some(PkixAlgorithmParameters::Null),
    };
    assert_eq!(
        encode_algorithm_identifier(&rsa),
        Some(vec![6, 9, 42, 134, 72, 134, 247, 13, 1, 1, 1, 5, 0])
    );
    let ec = PkixAlgorithmIdentifier {
        oid: vec![1, 2, 840, 10045, 2, 1],
        params: Some(PkixAlgorithmParameters::ObjectIdentifier(vec![1, 3, 132, 0, 10])),
    };
    assert_eq!(
        encode_algorithm_identifier(&ec),
        Some(vec![6, 7, 42, 134, 72, 206, 61, 2, 1, 6, 5, 43, 129, 4, 0, 10])
    );
}

#[test]
fn parse_public_key_with_other_algorithm_and_any_length() {
    let rsa = PkixAlgorithmIdentifier {
        oid: vec![1, 2, 840, 113549, 1, 1, 1],
        params: Some(PkixAlgorithmParameters::Null),
    };
    let alg = encode_algorithm_identifier(&rsa).unwrap();
    let key = vec![7u8; 200];
    let mut bits = vec![0u8];
    bits.extend_from_slice(&key);
    let mut inner = vec![];
    push_tlv(&mut inner, 0x30, &alg);
    push_tlv(&mut inner, 0x03, &bits);
    let mut der = vec![];
    push_tlv(&mut der, 0x30, &inner);
    assert_eq!(&der[..4], &[0x30, 0x81, 0xdb, 0x30]);
    assert_eq!(parse_public_key(&der, &rsa, None), Ok(key.clone()));
    assert_eq!(parse_public_key(&der, &rsa, Some(200)), Ok(key));
    assert_eq!(parse_public_key(&der, &rsa, Some(32)), Err(KeyDerParsingError::WrongKeyLength));
    assert_eq!(
        parse_public_key(&der, &algorithm_identifier(), None),
        Err(KeyDerParsingError::WrongAlgorithmIdentifier)
    );
}

#[test]
fn read_tlv_reads_short_and_long_lengths() {
    assert_eq!(read_tlv(&[2, 1, 5, 9], 0), Some((2, 2, 3)));
    assert_eq!(read_tlv(&[9, 2, 1, 5, 9], 1), Some((2, 3, 4)));
    let mut long = vec![4, 0x82, 0x01, 0x00];
    long.extend_from_slice(&[0; 256]);
    assert_eq!(read_tlv(&long, 0), Some((4, 4, 260)));
    // Non-minimal long form, leading zero, indefinite length, high tag number.
    assert_eq!(read_tlv(&[4, 0x81, 0x05, 0, 0, 0, 0, 0], 0), None);
    assert_eq!(read_tlv(&[4, 0x82, 0x00, 0x80], 0), None);
    assert_eq!(read_tlv(&[4, 0x80, 0, 0], 0), None);
    assert_eq!(read_tlv(&[0x1f, 1, 5], 0), None);
    // Content that runs past the end.
    assert_eq!(read_tlv(&[4, 3, 1, 2], 0), None);
    assert_eq!(read_tlv(&[4], 0), None);
}

#[test]
fn error_messages_are_those_of_ed25519_consensus() {
    let pairs = [
        (Ed25519Error::MalformedSecretKey, ed25519_consensus::Error::MalformedSecretKey),
        (Ed25519Error::MalformedPublicKey, ed25519_consensus::Error::MalformedPublicKey),
        (Ed25519Error::InvalidSignature, ed25519_consensus::Error::InvalidSignature),
        (Ed25519Error::InvalidSliceLength, ed25519_consensus::Error::InvalidSliceLength),
    ];
    for (ours, theirs) in pairs {
        assert_eq!(ours.message(), theirs.to_string());
    }
}

#[test]
fn public_key_bytes_from_vec_checks_length() {
    assert_eq!(PublicKeyBytes::try_from_vec(&vec![1; 32]), Ok(PublicKeyBytes([1; 32])));
    assert_eq!(
        PublicKeyBytes::try_from_vec(&vec![1; 31]),
        Err(CryptoError::MalformedPublicKey {
            algorithm: AlgorithmId::Ed25519,
            key_bytes: Some(vec![1; 31]),
            internal_error: "Incorrect key length: expected 32 bytes.".to_string(),
        })
    );
}

#[test]
fn verify_batch_reports_undecodable_key_before_earlier_malformed_signature() {
    let (sk1, pk1) = keypair_from_secret_key_bytes([1; 32]);
    let sig1 = sign(b"batch", &sk1).unwrap();
    let mut bad_sig = sig1;
    bad_sig.0[63] = 0xff;
    let bad_key = PublicKeyBytes(undecodable_key());
    let pairs = [(&pk1, &bad_sig), (&bad_key, &sig1)];
    assert_eq!(
        verify_batch(&pairs, b"batch", Seed::from_bytes([5; 32])),
        Err(CryptoError::MalformedPublicKey {
            algorithm: AlgorithmId::Ed25519,
            key_bytes: Some(bad_key.0.to_vec()),
            internal_error: "Malformed public key encoding.".to_string(),
        })
    );
    assert!(matches!(
        queue_batch(&pairs, b"batch"),
        Err(CryptoError::MalformedPublicKey { .. })
    ));
}
