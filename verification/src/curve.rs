//! The calls into `curve25519_dalek`, each behind a trusted item whose
//! contract states what the crate's source shows.
use curve25519_dalek::edwards::{CompressedEdwardsY, EdwardsPoint};
use vstd::prelude::*;

verus! {

#[verifier::external_type_specification]
#[verifier::external_body]
pub struct ExEdwardsPoint(EdwardsPoint);

/// `CompressedEdwardsY::decompress` succeeds on the 32 bytes: they are the
/// `y`-coordinate, with the sign of `x`, of a point of the curve.
pub uninterp spec fn edwards_y_decompresses(bytes: Seq<u8>) -> bool;

/// `EdwardsPoint::is_torsion_free` holds of the point that the 32 bytes
/// decompress to: the point lies in the prime-order subgroup.
pub uninterp spec fn edwards_torsion_free(bytes: Seq<u8>) -> bool;

/// The encoding of the identity point `(0, 1)`: 1 followed by 31 zeros.
pub open spec fn edwards_identity_bytes() -> Seq<u8> {
    seq![1u8] + Seq::new(31, |i: int| 0u8)
}

/// A point of the curve together with the 32 bytes it was decompressed
/// from; only `decompress_edwards_y` builds one.
pub struct DecompressedPoint {
    point: EdwardsPoint,
    encoding: [u8; 32],
}

impl DecompressedPoint {
    /// The bytes the point was decompressed from.
    pub closed spec fn encoding(&self) -> Seq<u8> {
        self.encoding@
    }

    /// Calls `EdwardsPoint::is_torsion_free`. Claims that the result is the
    /// torsion-freeness of the point of these bytes.
    #[verifier::external_body]
    pub(crate) fn is_torsion_free(&self) -> (r: bool)
        ensures
            r == edwards_torsion_free(self.encoding()),
    {
        self.point.is_torsion_free()
    }
}

/// Calls `CompressedEdwardsY(*bytes).decompress()`. Claims that it succeeds
/// exactly when the bytes decompress, and that the point keeps the bytes.
#[verifier::external_body]
pub(crate) fn decompress_edwards_y(bytes: &[u8; 32]) -> (r: Option<DecompressedPoint>)
    ensures
        r is Some <==> edwards_y_decompresses(bytes@),
        r matches Some(p) ==> p.encoding() == bytes@,
{
    match CompressedEdwardsY(*bytes).decompress() {
        Some(point) => Some(DecompressedPoint { point, encoding: *bytes }),
        None => None,
    }
}

} // verus!
