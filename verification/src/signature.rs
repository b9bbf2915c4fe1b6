//! The form of an Ed25519 signature (RFC 8032, Section 5.1.7): its first
//! half must encode a point of the curve, its second half a scalar below the
//! order `l` of the base point.
use crate::curve::{decompress_edwards_y, edwards_y_decompresses};
use crate::der::pow256;
use crate::types::SignatureBytes;
use vstd::prelude::*;

verus! {

/// The number that a little-endian byte string denotes.
pub open spec fn le_value(s: Seq<u8>) -> nat
    decreases s.len(),
{
    if s.len() == 0 {
        0
    } else {
        le_value(s.drop_last()) + pow256((s.len() - 1) as nat) * (s.last() as nat)
    }
}

/// The order `l = 2^252 + 27742317777372353535851937790883648493` of the
/// Ed25519 base point, as 32 little-endian bytes.
pub open spec fn group_order_bytes() -> Seq<u8> {
    seq![
        0xedu8, 0xd3u8, 0xf5u8, 0x5cu8, 0x1au8, 0x63u8, 0x12u8, 0x58u8,
        0xd6u8, 0x9cu8, 0xf7u8, 0xa2u8, 0xdeu8, 0xf9u8, 0xdeu8, 0x14u8,
        0u8, 0u8, 0u8, 0u8, 0u8, 0u8, 0u8, 0u8,
        0u8, 0u8, 0u8, 0u8, 0u8, 0u8, 0u8, 0x10u8,
    ]
}

/// The 32 little-endian bytes `s` denote a scalar below the group order.
pub open spec fn scalar_is_reduced(s: Seq<u8>) -> bool {
    le_value(s) < le_value(group_order_bytes())
}

/// What makes a 64-byte signature malformed.
#[derive(Clone, Copy, Debug, PartialEq, Eq)]
pub enum SignatureDefect {
    /// The first 32 bytes do not decompress to a point of the curve.
    PointNotOnCurve,
    /// The last 32 bytes denote a scalar not below the group order.
    ScalarNotReduced,
}

/// The defect of the signature bytes `sig`, if it is malformed; the point
/// is looked at first.
pub open spec fn signature_defect(sig: Seq<u8>) -> Option<SignatureDefect> {
    if !edwards_y_decompresses(sig.subrange(0, 32)) {
        Some(SignatureDefect::PointNotOnCurve)
    } else if !scalar_is_reduced(sig.subrange(32, 64)) {
        Some(SignatureDefect::ScalarNotReduced)
    } else {
        None
    }
}

/// The text that describes each defect.
pub open spec fn signature_defect_text(d: SignatureDefect) -> Seq<char> {
    match d {
        SignatureDefect::PointNotOnCurve => "The point R of the signature is not on the curve."@,
        SignatureDefect::ScalarNotReduced => "The scalar s of the signature is not below the group order."@,
    }
}

impl SignatureDefect {
    /// The text that describes the defect.
    pub fn message(&self) -> (r: String)
        ensures
            r@ == signature_defect_text(*self),
    {
        match self {
            SignatureDefect::PointNotOnCurve => String::from_str(
                "The point R of the signature is not on the curve.",
            ),
            SignatureDefect::ScalarNotReduced => String::from_str(
                "The scalar s of the signature is not below the group order.",
            ),
        }
    }
}

proof fn lemma_pow256_add(a: nat, b: nat)
    ensures
        pow256(a) * pow256(b) == pow256(a + b),
    decreases b,
{
    if b > 0 {
        lemma_pow256_add(a, (b - 1) as nat);
        let x = pow256(a);
        let y = pow256((b - 1) as nat);
        assert(pow256(b) == 256 * y);
        assert(pow256(a + b) == 256 * pow256((a + b - 1) as nat));
        assert((a + b - 1) as nat == a + (b - 1) as nat);
        assert(x * (256 * y) == 256 * (x * y)) by (nonlinear_arith);
    } else {
        assert(pow256(0) == 1);
        assert(a + b == a);
    }
}

proof fn lemma_le_value_bound(s: Seq<u8>)
    ensures
        le_value(s) < pow256(s.len()),
    decreases s.len(),
{
    if s.len() > 0 {
        let t = s.drop_last();
        lemma_le_value_bound(t);
        let p = pow256(t.len());
        let l = s.last() as nat;
        assert(le_value(t) + p * l < 256 * p) by (nonlinear_arith)
            requires
                le_value(t) < p,
                l < 256,
        ;
    }
}

/// Splitting a little-endian string at `i`: the low part, plus the high
/// part shifted by `i` bytes.
proof fn lemma_le_value_split(s: Seq<u8>, i: int)
    requires
        0 <= i <= s.len(),
    ensures
        le_value(s) == le_value(s.subrange(0, i)) + pow256(i as nat) * le_value(
            s.subrange(i, s.len() as int),
        ),
    decreases s.len(),
{
    if i == s.len() {
        assert(s.subrange(0, i) =~= s);
        assert(s.subrange(i, s.len() as int) =~= Seq::<u8>::empty());
        assert(le_value(Seq::<u8>::empty()) == 0);
        assert(pow256(i as nat) * 0 == 0);
    } else {
        let t = s.drop_last();
        lemma_le_value_split(t, i);
        assert(s.subrange(0, i) =~= t.subrange(0, i));
        let hi = s.subrange(i, s.len() as int);
        assert(hi.drop_last() =~= t.subrange(i, t.len() as int));
        assert(hi.last() == s.last());
        let k = (hi.len() - 1) as nat;
        lemma_pow256_add(i as nat, k);
        let a = pow256(i as nat);
        let b = le_value(hi.drop_last());
        let c = pow256(k);
        let d = s.last() as nat;
        assert(le_value(hi) == b + c * d);
        assert(le_value(s) == le_value(t) + pow256((s.len() - 1) as nat) * d);
        assert(i + k == s.len() - 1);
        assert(a * c == pow256((s.len() - 1) as nat));
        assert(a * (b + c * d) == a * b + (a * c) * d) by (nonlinear_arith);
        assert(le_value(t) == le_value(s.subrange(0, i)) + a * b);
        assert(le_value(s) == le_value(s.subrange(0, i)) + a * le_value(hi));
    }
}

/// Compares two little-endian strings of one length that agree above `j`
/// and differ at `j`.
proof fn lemma_le_value_less(a: Seq<u8>, b: Seq<u8>, j: int)
    requires
        a.len() == b.len(),
        0 <= j < a.len(),
        a.subrange(j + 1, a.len() as int) == b.subrange(j + 1, b.len() as int),
        a[j] < b[j],
    ensures
        le_value(a) < le_value(b),
{
    lemma_le_value_split(a, j + 1);
    lemma_le_value_split(b, j + 1);
    let a0 = a.subrange(0, j + 1);
    let b0 = b.subrange(0, j + 1);
    assert(a0.drop_last() =~= a.subrange(0, j));
    assert(b0.drop_last() =~= b.subrange(0, j));
    lemma_le_value_bound(a.subrange(0, j));
    let p = pow256(j as nat);
    let x = le_value(a.subrange(0, j));
    let y = le_value(b.subrange(0, j));
    let u = a[j] as nat;
    let v = b[j] as nat;
    assert(x + p * u < y + p * v) by (nonlinear_arith)
        requires
            x < p,
            u < v,
    ;
}

/// Whether the 32 little-endian bytes denote a scalar below the group order.
pub fn is_reduced_scalar(s: &[u8; 32]) -> (r: bool)
    ensures
        r == scalar_is_reduced(s@),
{
    let l: [u8; 32] = [
        0xed, 0xd3, 0xf5, 0x5c, 0x1a, 0x63, 0x12, 0x58, 0xd6, 0x9c, 0xf7, 0xa2, 0xde, 0xf9, 0xde,
        0x14, 0, 0, 0, 0, 0, 0, 0, 0, 0, 0, 0, 0, 0, 0, 0, 0x10,
    ];
    assert(l@ =~= group_order_bytes());
    let mut i: usize = 32;
    while i > 0
        invariant
            i <= 32,
            l@ == group_order_bytes(),
            s@.subrange(i as int, 32) == l@.subrange(i as int, 32),
        decreases i,
    {
        let j = i - 1;
        if s[j] < l[j] {
            proof {
                lemma_le_value_less(s@, l@, j as int);
            }
            return true;
        }
        if s[j] > l[j] {
            proof {
                lemma_le_value_less(l@, s@, j as int);
            }
            return false;
        }
        proof {
            assert forall|k: int| 0 <= k < 32 - j implies s@.subrange(j as int, 32)[k] == l@.subrange(
                j as int,
                32,
            )[k] by {
                if k > 0 {
                    assert(s@.subrange(j as int, 32)[k] == s@.subrange(i as int, 32)[k - 1]);
                    assert(l@.subrange(j as int, 32)[k] == l@.subrange(i as int, 32)[k - 1]);
                }
            }
            assert(s@.subrange(j as int, 32) =~= l@.subrange(j as int, 32));
        }
        i = j;
    }
    proof {
        assert(s@.subrange(0, 32) =~= s@);
        assert(l@.subrange(0, 32) =~= l@);
    }
    false
}

/// The first or the last 32 bytes of a signature.
fn signature_half(sig: &[u8; 64], from: usize) -> (r: [u8; 32])
    requires
        from == 0 || from == 32,
    ensures
        r@ == sig@.subrange(from as int, from + 32),
{
    let mut r = [0u8; 32];
    let mut i: usize = 0;
    while i < 32
        invariant
            from == 0 || from == 32,
            i <= 32,
            forall|k: int| 0 <= k < i ==> r@[k] == sig@[from + k],
        decreases 32 - i,
    {
        r[i] = sig[from + i];
        i = i + 1;
    }
    assert(r@ =~= sig@.subrange(from as int, from + 32));
    r
}

/// The defect of the signature, if it is malformed: first whether its point
/// `R` is on the curve, then whether its scalar `s` is below the group order.
pub fn signature_defect_of(sig: &SignatureBytes) -> (r: Option<SignatureDefect>)
    ensures
        r == signature_defect(sig.0@),
{
    let point = signature_half(&sig.0, 0);
    if decompress_edwards_y(&point).is_none() {
        return Some(SignatureDefect::PointNotOnCurve);
    }
    let scalar = signature_half(&sig.0, 32);
    if !is_reduced_scalar(&scalar) {
        return Some(SignatureDefect::ScalarNotReduced);
    }
    None
}

} // verus!
