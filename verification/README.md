# ed25519_basic_sig

Ed25519 basic signatures, with machine-checked contracts and proofs.

- `src/api.rs`: key pairs from 32 secret bytes, the DER encoding and
  decoding of public keys (RFC 8410), signing, single and batch
  verification, public key validation, and the laws of the DER encoding.
- `src/der.rs`: a DER reader and writer for tag-length-value elements,
  object identifiers, algorithm identifiers and `SubjectPublicKeyInfo`.
- `src/signature.rs`: the form of a signature: its point on the curve, its
  scalar below the group order.
- `src/ed25519.rs`, `src/curve.rs`: the trusted items through which the
  library calls `ed25519-consensus`, `rand_chacha` and `curve25519-dalek`.
- `src/types.rs`: keys, signatures, errors and the batch seed.
- `src/protobuf_generator.rs`: the search paths and type attributes of the
  nervous system protobuf build.
- `app/lib.rs`: key generation from a random generator, and the protobuf
  build itself (files, `protoc`, `rustfmt`).
