//! Distinguished Encoding Rules (X.690) for the Ed25519 SubjectPublicKeyInfo
//! structure of RFC 8410: a reader for one tag-length-value element, and the
//! encoder and decoder of Ed25519 public keys built on it.
use vstd::prelude::*;
use vstd::slice::{slice_subrange, slice_to_vec};

verus! {

/// Minimal big-endian encoding of `n` (empty for zero).
pub open spec fn be_bytes(n: nat) -> Seq<u8>
    decreases n,
{
    if n == 0 {
        Seq::empty()
    } else {
        be_bytes(n / 256).push((n % 256) as u8)
    }
}

/// The number that a big-endian byte string denotes.
pub open spec fn be_value(s: Seq<u8>) -> nat
    decreases s.len(),
{
    if s.len() == 0 {
        0
    } else {
        be_value(s.drop_last()) * 256 + s.last() as nat
    }
}

/// `256` to the power `k`.
pub open spec fn pow256(k: nat) -> nat
    decreases k,
{
    if k == 0 {
        1
    } else {
        256 * pow256((k - 1) as nat)
    }
}

/// The DER length octets for `n` content bytes: the short form below 128,
/// otherwise the long form with the fewest length bytes.
pub open spec fn der_length(n: nat) -> Seq<u8> {
    if n < 128 {
        seq![n as u8]
    } else {
        seq![(128 + be_bytes(n).len()) as u8] + be_bytes(n)
    }
}

/// The DER encoding of an element with a one-byte tag and the given content.
pub open spec fn der_tlv(tag: u8, content: Seq<u8>) -> Seq<u8> {
    seq![tag] + der_length(content.len()) + content
}

/// The number of bytes that precede the content of an element with `n` content bytes.
pub open spec fn der_header_len(n: nat) -> nat {
    1 + der_length(n).len()
}

/// A tag byte of the low-tag-number form (X.690, 8.1.2.2).
pub open spec fn low_tag(tag: u8) -> bool {
    tag % 32 != 31
}

/// `s` holds `part` from position `pos` on.
pub open spec fn holds_at(s: Seq<u8>, pos: int, part: Seq<u8>) -> bool {
    &&& 0 <= pos
    &&& pos + part.len() <= s.len()
    &&& s.subrange(pos, pos + part.len()) == part
}

proof fn lemma_be_bytes_value(n: nat)
    ensures
        be_value(be_bytes(n)) == n,
        n > 0 ==> be_bytes(n).len() > 0 && be_bytes(n)[0] != 0,
    decreases n,
{
    if n > 0 {
        lemma_be_bytes_value(n / 256);
        let b = be_bytes(n);
        assert(b.drop_last() =~= be_bytes(n / 256));
        if n / 256 > 0 {
            assert(b[0] == be_bytes(n / 256)[0]);
        }
    }
}

proof fn lemma_be_value_bytes(s: Seq<u8>)
    requires
        s.len() > 0,
        s[0] != 0,
    ensures
        be_value(s) > 0,
        be_bytes(be_value(s)) == s,
    decreases s.len(),
{
    let t = s.drop_last();
    if s.len() == 1 {
        assert(be_value(t) == 0);
        assert(be_bytes(be_value(s)) =~= be_bytes(0).push(s[0]));
        assert(be_bytes(be_value(s)) =~= s);
    } else {
        lemma_be_value_bytes(t);
        let v = be_value(s);
        assert(v == be_value(t) * 256 + s.last());
        assert(v / 256 == be_value(t));
        assert(v % 256 == s.last());
        assert(be_bytes(v) =~= t.push(s.last()));
        assert(be_bytes(v) =~= s);
    }
}

proof fn lemma_be_bytes_len(n: nat, k: nat)
    requires
        n < pow256(k),
    ensures
        be_bytes(n).len() <= k,
    decreases n,
{
    if n > 0 {
        assert(k > 0);
        let p = pow256((k - 1) as nat);
        assert(n / 256 < p) by (nonlinear_arith)
            requires
                n < 256 * p,
        ;
        lemma_be_bytes_len(n / 256, (k - 1) as nat);
    }
}

proof fn lemma_be_value_bound(s: Seq<u8>)
    ensures
        be_value(s) < pow256(s.len()),
    decreases s.len(),
{
    if s.len() > 0 {
        let t = s.drop_last();
        lemma_be_value_bound(t);
        let a = be_value(t);
        let p = pow256(t.len());
        let l = s.last();
        assert(a * 256 + l < 256 * p) by (nonlinear_arith)
            requires
                a < p,
                l < 256,
        ;
    }
}

proof fn lemma_pow256_8()
    ensures
        pow256(8) == 0x1_0000_0000_0000_0000,
        pow256(7) == 0x100_0000_0000_0000,
{
    reveal_with_fuel(pow256, 9);
}

/// Reads `k` bytes from `from` on as a big-endian number.
fn read_be(input: &[u8], from: usize, k: usize) -> (v: u64)
    requires
        1 <= k <= 8,
        from + k <= input@.len(),
    ensures
        v == be_value(input@.subrange(from as int, from + k)),
{
    let mut v: u64 = 0;
    let mut i: usize = 0;
    proof {
        lemma_pow256_8();
        assert(input@.subrange(from as int, from as int) =~= Seq::<u8>::empty());
    }
    while i < k
        invariant
            i <= k <= 8,
            from + k <= input.len(),
            pow256(7) == 0x100_0000_0000_0000,
            v == be_value(input@.subrange(from as int, from + i)),
        decreases k - i,
    {
        let b = input[from + i];
        proof {
            let s = input@.subrange(from as int, from + i);
            lemma_be_value_bound(s);
            if i < 7 {
                lemma_pow256_mono(i as nat, 7);
            }
            let s2 = input@.subrange(from as int, from + i + 1);
            assert(s2.drop_last() =~= s);
            assert(s2.last() == b);
            assert(v < pow256(7));
        }
        v = v * 256 + b as u64;
        i = i + 1;
    }
    v
}

proof fn lemma_pow256_mono(a: nat, b: nat)
    requires
        a <= b,
    ensures
        pow256(a) <= pow256(b),
    decreases b,
{
    if a < b {
        lemma_pow256_mono(a, (b - 1) as nat);
    }
}

/// What the bytes at `pos` are when they hold the encoding of `tag` and `content`.
proof fn lemma_tlv_facts(s: Seq<u8>, pos: int, tag: u8, content: Seq<u8>)
    requires
        holds_at(s, pos, der_tlv(tag, content)),
        s.len() < pow256(8),
    ensures
        s[pos] == tag,
        pos + der_header_len(content.len()) + content.len() <= s.len(),
        s.subrange(
            pos + der_header_len(content.len()),
            pos + der_header_len(content.len()) + content.len(),
        ) == content,
        content.len() < 128 ==> s[pos + 1] == content.len() && der_header_len(content.len()) == 2,
        content.len() >= 128 ==> {
            let k = be_bytes(content.len()).len();
            &&& 1 <= k <= 8
            &&& s[pos + 1] == 128 + k
            &&& s[pos + 2] != 0
            &&& s.subrange(pos + 2, pos + 2 + k) == be_bytes(content.len())
            &&& der_header_len(content.len()) == 2 + k
        },
{
    let n = content.len();
    let e = der_tlv(tag, content);
    let hl = der_header_len(n);
    assert(s.subrange(pos, pos + e.len()) == e);
    assert(s[pos] == s.subrange(pos, pos + e.len())[0]);
    assert(e.subrange(hl as int, e.len() as int) =~= content);
    assert(s.subrange(pos + hl, pos + hl + n) =~= s.subrange(pos, pos + e.len()).subrange(
        hl as int,
        e.len() as int,
    ));
    assert(s[pos + 1] == e[1]);
    if n >= 128 {
        lemma_be_bytes_value(n);
        lemma_pow256_8();
        lemma_be_bytes_len(n, 8);
        let k = be_bytes(n).len();
        assert(s[pos + 2] == e[2]);
        assert(e[2] == be_bytes(n)[0]);
        assert(s.subrange(pos + 2, pos + 2 + k) =~= s.subrange(pos, pos + e.len()).subrange(
            2,
            2 + k as int,
        ));
        assert(e.subrange(2, 2 + k as int) =~= be_bytes(n));
    }
}

/// The bytes from `pos` to `start + n` hold an element, given its header bytes.
proof fn lemma_tlv_from_parts(s: Seq<u8>, pos: int, start: int, n: nat)
    requires
        0 <= pos,
        start + n <= s.len(),
        start == pos + der_header_len(n),
        s.subrange(pos + 1, start) == der_length(n),
    ensures
        holds_at(s, pos, der_tlv(s[pos], s.subrange(start, start + n))),
{
    let c = s.subrange(start, start + n);
    let e = der_tlv(s[pos], c);
    assert(e.len() == start + n - pos);
    assert forall|i: int| 0 <= i < e.len() implies s.subrange(pos, start + n)[i] == e[i] by {
        if i == 0 {
        } else if i < start - pos {
            assert(s.subrange(pos + 1, start)[i - 1] == s[pos + i]);
        } else {
            assert(c[i - (start - pos)] == s[pos + i]);
        }
    }
    assert(s.subrange(pos, start + n) =~= e);
}

/// Reads the element that starts at `pos`: its tag, and where its content
/// starts and ends. Only definite lengths in their shortest form are accepted,
/// and only tags of the low-tag-number form.
pub fn read_tlv(input: &[u8], pos: usize) -> (r: Option<(u8, usize, usize)>)
    requires
        pos <= input@.len(),
    ensures
        r matches Some((tag, start, end)) ==> {
            &&& pos < start <= end <= input@.len()
            &&& low_tag(tag)
            &&& start == pos + der_header_len((end - start) as nat)
            &&& holds_at(input@, pos as int, der_tlv(tag, input@.subrange(start as int, end as int)))
        },
        forall|tag: u8, content: Seq<u8>|
            low_tag(tag) && #[trigger] holds_at(input@, pos as int, der_tlv(tag, content)) ==> r
                == Some(
                (
                    tag,
                    (pos + der_header_len(content.len())) as usize,
                    (pos + der_header_len(content.len()) + content.len()) as usize,
                ),
            ),
{
    let len = input.len();
    proof {
        lemma_pow256_8();
        assert forall|tag: u8, content: Seq<u8>|
            low_tag(tag) && #[trigger] holds_at(input@, pos as int, der_tlv(tag, content)) implies {
            &&& input@[pos as int] == tag
            &&& pos + der_header_len(content.len()) + content.len() <= len
            &&& content.len() < 128 ==> input@[pos + 1] == content.len() && der_header_len(
                content.len(),
            ) == 2
            &&& content.len() >= 128 ==> {
                let k = be_bytes(content.len()).len();
                &&& 1 <= k <= 8
                &&& input@[pos + 1] == 128 + k
                &&& input@[pos + 2] != 0
                &&& input@.subrange(pos + 2, pos + 2 + k) == be_bytes(content.len())
                &&& der_header_len(content.len()) == 2 + k
            }
        } by {
            lemma_tlv_facts(input@, pos as int, tag, content);
        }
    }
    if pos >= len || len - pos < 2 {
        return None;
    }
    let tag = input[pos];
    if tag % 32 == 31 {
        return None;
    }
    let first = input[pos + 1];
    if first < 128 {
        let n = first as usize;
        if n > len - (pos + 2) {
            return None;
        }
        proof {
            assert(input@.subrange(pos + 1, pos + 2) =~= der_length(n as nat));
            lemma_tlv_from_parts(input@, pos as int, pos + 2, n as nat);
        }
        Some((tag, pos + 2, pos + 2 + n))
    } else {
        let k = (first - 128) as usize;
        if k == 0 || k > 8 || k > len - (pos + 2) {
            return None;
        }
        if input[pos + 2] == 0 {
            return None;
        }
        let v = read_be(input, pos + 2, k);
        proof {
            assert forall|tag: u8, content: Seq<u8>|
                low_tag(tag) && #[trigger] holds_at(input@, pos as int, der_tlv(tag, content))
                implies content.len() == v by {
                if content.len() >= 128 {
                    lemma_be_bytes_value(content.len());
                }
            }
        }
        if v < 128 || v > (len - (pos + 2 + k)) as u64 {
            return None;
        }
        let n = v as usize;
        proof {
            let b = input@.subrange(pos + 2, pos + 2 + k);
            lemma_be_value_bytes(b);
            assert(input@.subrange(pos + 1, pos + 2 + k) =~= der_length(n as nat));
            lemma_tlv_from_parts(input@, pos as int, pos + 2 + k, n as nat);
        }
        Some((tag, pos + 2 + k, pos + 2 + k + n))
    }
}

/// Base-128 digits of `x`, most significant first, each but the last with
/// its high bit set; `more` sets the high bit of the last one too.
pub open spec fn base128(x: nat, more: bool) -> Seq<u8>
    decreases x,
{
    let last = ((x % 128) + if more {
        128nat
    } else {
        0nat
    }) as u8;
    if x < 128 {
        seq![last]
    } else {
        base128(x / 128, true).push(last)
    }
}

/// The encodings of the given object identifier arcs, one after the other.
pub open spec fn oid_arcs_der(arcs: Seq<u64>) -> Seq<u8>
    decreases arcs.len(),
{
    if arcs.len() == 0 {
        Seq::empty()
    } else {
        oid_arcs_der(arcs.drop_last()) + base128(arcs.last() as nat, false)
    }
}

/// An object identifier that DER can encode: at least two arcs, the first
/// at most 2, the second below 40 unless the first is 2, and the first two
/// combined into `40 * first + second` within 64 bits.
pub open spec fn valid_oid(arcs: Seq<u64>) -> bool {
    &&& arcs.len() >= 2
    &&& arcs[0] <= 2
    &&& arcs[0] < 2 ==> arcs[1] < 40
    &&& 40 * arcs[0] + arcs[1] <= u64::MAX
}

/// The content octets of an object identifier (X.690, 8.19).
pub open spec fn oid_content(arcs: Seq<u64>) -> Seq<u8> {
    base128((40 * arcs[0] + arcs[1]) as nat, false) + oid_arcs_der(arcs.subrange(2, arcs.len() as int))
}

/// The parameters of an algorithm identifier.
#[derive(Clone, Debug, PartialEq, Eq)]
pub enum PkixAlgorithmParameters {
    /// An object identifier, given by its arcs.
    ObjectIdentifier(Vec<u64>),
    /// The ASN.1 `NULL` value.
    Null,
}

/// An `AlgorithmIdentifier` (RFC 5280, 4.1.1.2): an object identifier, given
/// by its arcs, and optional parameters.
#[derive(Clone, Debug, PartialEq, Eq)]
pub struct PkixAlgorithmIdentifier {
    pub oid: Vec<u64>,
    pub params: Option<PkixAlgorithmParameters>,
}

/// The DER encoding of the parameters, if they can be encoded (empty when absent).
pub open spec fn params_der(params: Option<PkixAlgorithmParameters>) -> Option<Seq<u8>> {
    match params {
        None => Some(Seq::empty()),
        Some(PkixAlgorithmParameters::Null) => Some(der_tlv(5, Seq::empty())),
        Some(PkixAlgorithmParameters::ObjectIdentifier(arcs)) => if valid_oid(arcs@) {
            Some(der_tlv(6, oid_content(arcs@)))
        } else {
            None
        },
    }
}

/// The content octets of the DER encoding of an algorithm identifier, if it
/// can be encoded.
pub open spec fn algorithm_identifier_content(id: PkixAlgorithmIdentifier) -> Option<Seq<u8>> {
    if valid_oid(id.oid@) && params_der(id.params) is Some {
        Some(der_tlv(6, oid_content(id.oid@)) + params_der(id.params).unwrap())
    } else {
        None
    }
}

/// The DER encoding of a `SubjectPublicKeyInfo` (RFC 5280, 4.1) whose
/// algorithm identifier has the content octets `algorithm` and whose public
/// key is the bit string of the bytes `key`.
pub open spec fn spki_der(algorithm: Seq<u8>, key: Seq<u8>) -> Seq<u8> {
    der_tlv(0x30, der_tlv(0x30, algorithm) + der_tlv(0x03, seq![0u8] + key))
}

/// Appends the base-128 digits of `x` to `out`.
fn push_base128(out: &mut Vec<u8>, x: u64, more: bool)
    ensures
        final(out)@ == old(out)@ + base128(x as nat, more),
    decreases x,
{
    let last: u8 = if more {
        (x % 128) as u8 + 128
    } else {
        (x % 128) as u8
    };
    if x >= 128 {
        push_base128(out, x / 128, true);
    }
    out.push(last);
    proof {
        if x >= 128 {
            assert(final(out)@ =~= old(out)@ + base128(x as nat, more));
        } else {
            assert(final(out)@ =~= old(out)@ + base128(x as nat, more));
        }
    }
}

/// The content octets of an object identifier, or `None` if it cannot be encoded.
pub fn encode_oid(arcs: &Vec<u64>) -> (r: Option<Vec<u8>>)
    ensures
        r is Some <==> valid_oid(arcs@),
        r matches Some(v) ==> v@ == oid_content(arcs@),
{
    if arcs.len() < 2 || arcs[0] > 2 || (arcs[0] < 2 && arcs[1] >= 40) || arcs[1] > u64::MAX - 40
        * arcs[0] {
        return None;
    }
    let mut out: Vec<u8> = Vec::new();
    push_base128(&mut out, 40 * arcs[0] + arcs[1], false);
    let ghost head = out@;
    let mut i: usize = 2;
    proof {
        assert(arcs@.subrange(2, 2) =~= Seq::<u64>::empty());
        assert(out@ =~= head + oid_arcs_der(arcs@.subrange(2, 2)));
    }
    while i < arcs.len()
        invariant
            2 <= i <= arcs@.len(),
            head == base128((40 * arcs@[0] + arcs@[1]) as nat, false),
            out@ == head + oid_arcs_der(arcs@.subrange(2, i as int)),
        decreases arcs@.len() - i,
    {
        push_base128(&mut out, arcs[i], false);
        proof {
            assert(arcs@.subrange(2, i + 1).drop_last() =~= arcs@.subrange(2, i as int));
        }
        i = i + 1;
    }
    proof {
        assert(arcs@.subrange(2, arcs@.len() as int) =~= arcs@.subrange(2, i as int));
    }
    Some(out)
}

/// Appends the minimal big-endian encoding of `n` to `out`.
fn push_be(out: &mut Vec<u8>, n: usize)
    ensures
        final(out)@ == old(out)@ + be_bytes(n as nat),
    decreases n,
{
    if n > 0 {
        push_be(out, n / 256);
        out.push((n % 256) as u8);
        proof {
            assert(final(out)@ =~= old(out)@ + be_bytes(n as nat));
        }
    } else {
        proof {
            assert(final(out)@ =~= old(out)@ + be_bytes(n as nat));
        }
    }
}

/// Appends the DER encoding of an element with the given tag and content to `out`.
pub fn push_tlv(out: &mut Vec<u8>, tag: u8, content: &[u8])
    ensures
        final(out)@ == old(out)@ + der_tlv(tag, content@),
{
    let n = content.len();
    out.push(tag);
    if n < 128 {
        out.push(n as u8);
    } else {
        let mut digits: Vec<u8> = Vec::new();
        push_be(&mut digits, n);
        proof {
            lemma_pow256_8();
            lemma_be_bytes_len(n as nat, 8);
        }
        out.push(128 + digits.len() as u8);
        out.extend_from_slice(digits.as_slice());
    }
    out.extend_from_slice(content);
    proof {
        assert(final(out)@ =~= old(out)@ + der_tlv(tag, content@));
    }
}

/// The content octets of the DER encoding of an algorithm identifier, or
/// `None` if it cannot be encoded.
pub fn encode_algorithm_identifier(id: &PkixAlgorithmIdentifier) -> (r: Option<Vec<u8>>)
    ensures
        r matches Some(v) ==> algorithm_identifier_content(*id) == Some(v@),
        r is None ==> algorithm_identifier_content(*id) is None,
{
    let oid = match encode_oid(&id.oid) {
        Some(c) => c,
        None => return None,
    };
    let mut out: Vec<u8> = Vec::new();
    push_tlv(&mut out, 6, oid.as_slice());
    match &id.params {
        None => {},
        Some(PkixAlgorithmParameters::Null) => {
            let empty: Vec<u8> = Vec::new();
            push_tlv(&mut out, 5, empty.as_slice());
        },
        Some(PkixAlgorithmParameters::ObjectIdentifier(arcs)) => {
            let p = match encode_oid(arcs) {
                Some(c) => c,
                None => return None,
            };
            push_tlv(&mut out, 6, p.as_slice());
        },
    }
    proof {
        assert(out@ =~= der_tlv(6, oid_content(id.oid@)) + params_der(id.params).unwrap());
    }
    Some(out)
}

proof fn lemma_holds_concat(s: Seq<u8>, pos: int, a: Seq<u8>, b: Seq<u8>)
    requires
        holds_at(s, pos, a + b),
    ensures
        holds_at(s, pos, a),
        holds_at(s, pos + a.len(), b),
{
    assert(s.subrange(pos, pos + a.len()) =~= s.subrange(pos, pos + (a + b).len()).subrange(
        0,
        a.len() as int,
    ));
    assert(s.subrange(pos + a.len(), pos + a.len() + b.len()) =~= s.subrange(
        pos,
        pos + (a + b).len(),
    ).subrange(a.len() as int, (a + b).len() as int));
    assert((a + b).subrange(0, a.len() as int) =~= a);
    assert((a + b).subrange(a.len() as int, (a + b).len() as int) =~= b);
}

proof fn lemma_holds_tlv_content(s: Seq<u8>, pos: int, tag: u8, content: Seq<u8>)
    requires
        holds_at(s, pos, der_tlv(tag, content)),
    ensures
        holds_at(s, pos + der_header_len(content.len()), content),
{
    lemma_holds_concat(s, pos, seq![tag] + der_length(content.len()), content);
}

/// Where the parts of a `SubjectPublicKeyInfo` stand in its encoding.
proof fn lemma_spki_layout(der: Seq<u8>, alg: Seq<u8>, key: Seq<u8>)
    requires
        der == spki_der(alg, key),
    ensures
        ({
            let alg_tlv = der_tlv(0x30, alg);
            let bits = seq![0u8] + key;
            let inner = alg_tlv + der_tlv(0x03, bits);
            let h0: int = der_header_len(inner.len()) as int;
            let p2: int = h0 + alg_tlv.len();
            let s2: int = p2 + der_header_len(bits.len());
            &&& holds_at(der, 0, der_tlv(0x30, inner))
            &&& der.len() == h0 + inner.len()
            &&& holds_at(der, h0, alg_tlv)
            &&& holds_at(der, h0 + der_header_len(alg.len()), alg)
            &&& holds_at(der, p2, der_tlv(0x03, bits))
            &&& holds_at(der, s2, bits)
            &&& der[s2] == 0
            &&& holds_at(der, s2 + 1, key)
            &&& der.len() == s2 + bits.len()
        }),
{
    let alg_tlv = der_tlv(0x30, alg);
    let bits = seq![0u8] + key;
    let inner = alg_tlv + der_tlv(0x03, bits);
    let h0: int = der_header_len(inner.len()) as int;
    let p2: int = h0 + alg_tlv.len();
    let s2: int = p2 + der_header_len(bits.len());
    assert(der.subrange(0, der.len() as int) =~= der);
    lemma_holds_tlv_content(der, 0, 0x30, inner);
    lemma_holds_concat(der, h0, alg_tlv, der_tlv(0x03, bits));
    lemma_holds_tlv_content(der, h0, 0x30, alg);
    lemma_holds_tlv_content(der, p2, 0x03, bits);
    lemma_holds_concat(der, s2, seq![0u8], key);
    assert(der.subrange(s2, s2 + 1)[0] == der[s2]);
}

/// Splits the encoding of a `SubjectPublicKeyInfo` into the content of its
/// algorithm identifier and the bytes of its public key, given as ranges.
#[verifier::spinoff_prover]
#[verifier::rlimit(40)]
fn split_spki(der: &[u8]) -> (r: Option<(usize, usize, usize, usize)>)
    ensures
        r matches Some((a_start, a_end, k_start, k_end)) ==> {
            &&& a_start <= a_end <= k_start <= k_end <= der@.len()
            &&& der@ == spki_der(
                der@.subrange(a_start as int, a_end as int),
                der@.subrange(k_start as int, k_end as int),
            )
        },
        forall|alg: Seq<u8>, key: Seq<u8>|
            #[trigger] spki_der(alg, key) == der@ ==> (r matches Some((a_start, a_end, k_start, k_end))
                && alg == der@.subrange(a_start as int, a_end as int) && key == der@.subrange(
                k_start as int,
                k_end as int,
            )),
{
    proof {
        assert forall|alg: Seq<u8>, key: Seq<u8>| #[trigger]
            spki_der(alg, key) == der@ implies ({
            let alg_tlv = der_tlv(0x30, alg);
            let bits = seq![0u8] + key;
            let inner = alg_tlv + der_tlv(0x03, bits);
            let h0: int = der_header_len(inner.len()) as int;
            let p2: int = h0 + alg_tlv.len();
            let s2: int = p2 + der_header_len(bits.len());
            &&& holds_at(der@, 0, der_tlv(0x30, inner))
            &&& der@.len() == h0 + inner.len()
            &&& holds_at(der@, h0, alg_tlv)
            &&& holds_at(der@, h0 + der_header_len(alg.len()), alg)
            &&& holds_at(der@, p2, der_tlv(0x03, bits))
            &&& holds_at(der@, s2, bits)
            &&& der@[s2] == 0
            &&& holds_at(der@, s2 + 1, key)
            &&& der@.len() == s2 + bits.len()
        }) by {
            lemma_spki_layout(der@, alg, key);
        }
    }
    let (t0, s0, e0) = match read_tlv(der, 0) {
        Some(x) => x,
        None => return None,
    };
    if t0 != 0x30 || e0 != der.len() {
        return None;
    }
    let (t1, s1, e1) = match read_tlv(der, s0) {
        Some(x) => x,
        None => return None,
    };
    if t1 != 0x30 {
        return None;
    }
    let (t2, s2, e2) = match read_tlv(der, e1) {
        Some(x) => x,
        None => return None,
    };
    if t2 != 0x03 || e2 != e0 || s2 == e2 {
        return None;
    }
    if der[s2] != 0 {
        return None;
    }
    proof {
        let d = der@;
        let a = d.subrange(s1 as int, e1 as int);
        let b = d.subrange(s2 as int, e2 as int);
        let k = d.subrange(s2 + 1, e2 as int);
        assert(b =~= seq![0u8] + k);
        assert(d.subrange(0, e0 as int) =~= d);
        assert(d.subrange(s0 as int, e0 as int) =~= d.subrange(s0 as int, e1 as int) + d.subrange(
            e1 as int,
            e2 as int,
        ));
        assert(d == spki_der(a, k));
    }
    Some((s1, e1, s2 + 1, e2))
}

/// Why an encoding is not that of a public key of the expected kind.
#[derive(Clone, Copy, Debug, PartialEq, Eq)]
pub enum KeyDerParsingError {
    /// The bytes are not the DER encoding of a `SubjectPublicKeyInfo`.
    MalformedDer,
    /// The algorithm identifier is not the expected one.
    WrongAlgorithmIdentifier,
    /// The public key has not the expected length.
    WrongKeyLength,
}

/// `key` has the length `expected`, where one is given.
pub open spec fn key_length_ok(key: Seq<u8>, expected: Option<usize>) -> bool {
    match expected {
        None => true,
        Some(n) => key.len() == n,
    }
}

/// `der` is the DER encoding of a `SubjectPublicKeyInfo` with the algorithm
/// identifier `id` and the public key `key`.
pub open spec fn is_public_key_der(der: Seq<u8>, id: PkixAlgorithmIdentifier, key: Seq<u8>) -> bool {
    match algorithm_identifier_content(id) {
        Some(a) => spki_der(a, key) == der,
        None => false,
    }
}

/// `der` is the DER encoding of some `SubjectPublicKeyInfo`.
pub open spec fn is_spki_der(der: Seq<u8>) -> bool {
    exists|alg: Seq<u8>, key: Seq<u8>| #[trigger] spki_der(alg, key) == der
}

/// The bytes of `s` from `from` to `to` are those of `expected`.
fn bytes_equal(s: &[u8], from: usize, to: usize, expected: &[u8]) -> (r: bool)
    requires
        from <= to <= s@.len(),
    ensures
        r == (s@.subrange(from as int, to as int) == expected@),
{
    if to - from != expected.len() {
        return false;
    }
    let mut i: usize = 0;
    while i < expected.len()
        invariant
            from <= to <= s@.len(),
            to - from == expected@.len(),
            i <= expected@.len(),
            forall|j: int| 0 <= j < i ==> s@[from + j] == expected@[j],
        decreases expected@.len() - i,
    {
        if s[from + i] != expected[i] {
            assert(s@.subrange(from as int, to as int)[i as int] != expected@[i as int]);
            return false;
        }
        i = i + 1;
    }
    assert(s@.subrange(from as int, to as int) =~= expected@);
    true
}

/// Decodes a DER-encoded `SubjectPublicKeyInfo` whose algorithm identifier
/// must be `algorithm` and whose key, where `expected_len` gives a length,
/// must have that length; gives back the key bytes.
pub fn parse_public_key(
    pk_der: &[u8],
    algorithm: &PkixAlgorithmIdentifier,
    expected_len: Option<usize>,
) -> (r: Result<Vec<u8>, KeyDerParsingError>)
    ensures
        r matches Ok(key) ==> is_public_key_der(pk_der@, *algorithm, key@) && key_length_ok(
            key@,
            expected_len,
        ),
        forall|key: Seq<u8>|
            #[trigger] is_public_key_der(pk_der@, *algorithm, key) && key_length_ok(key, expected_len)
                ==> (r matches Ok(k) && k@ == key),
        (r == Err::<Vec<u8>, _>(KeyDerParsingError::MalformedDer)) <==> !is_spki_der(pk_der@),
        (r == Err::<Vec<u8>, _>(KeyDerParsingError::WrongAlgorithmIdentifier)) <==> (exists|
            alg: Seq<u8>,
            key: Seq<u8>,
        |
            #[trigger] spki_der(alg, key) == pk_der@ && algorithm_identifier_content(*algorithm)
                != Some(alg)),
        (r == Err::<Vec<u8>, _>(KeyDerParsingError::WrongKeyLength)) <==> (exists|key: Seq<u8>|
            #[trigger] is_public_key_der(pk_der@, *algorithm, key) && !key_length_ok(
                key,
                expected_len,
            )),
{
    let (a_start, a_end, k_start, k_end) = match split_spki(pk_der) {
        Some(x) => x,
        None => return Err(KeyDerParsingError::MalformedDer),
    };
    let ghost alg = pk_der@.subrange(a_start as int, a_end as int);
    let ghost key = pk_der@.subrange(k_start as int, k_end as int);
    assert(spki_der(alg, key) == pk_der@);
    let expected = match encode_algorithm_identifier(algorithm) {
        Some(v) => v,
        None => return Err(KeyDerParsingError::WrongAlgorithmIdentifier),
    };
    if !bytes_equal(pk_der, a_start, a_end, expected.as_slice()) {
        return Err(KeyDerParsingError::WrongAlgorithmIdentifier);
    }
    assert(is_public_key_der(pk_der@, *algorithm, key));
    if let Some(n) = expected_len {
        if k_end - k_start != n {
            return Err(KeyDerParsingError::WrongKeyLength);
        }
    }
    let bytes = slice_to_vec(slice_subrange(pk_der, k_start, k_end));
    Ok(bytes)
}

/// The text that describes each reason for refusing a public key encoding.
pub open spec fn key_der_error_text(e: KeyDerParsingError) -> Seq<char> {
    match e {
        KeyDerParsingError::MalformedDer => "Not a DER-encoded SubjectPublicKeyInfo."@,
        KeyDerParsingError::WrongAlgorithmIdentifier => "Wrong algorithm identifier."@,
        KeyDerParsingError::WrongKeyLength => "Wrong length of the public key."@,
    }
}

impl KeyDerParsingError {
    /// The text that describes the reason.
    pub fn message(&self) -> (r: String)
        ensures
            r@ == key_der_error_text(*self),
    {
        match self {
            KeyDerParsingError::MalformedDer => String::from_str(
                "Not a DER-encoded SubjectPublicKeyInfo.",
            ),
            KeyDerParsingError::WrongAlgorithmIdentifier => String::from_str(
                "Wrong algorithm identifier.",
            ),
            KeyDerParsingError::WrongKeyLength => String::from_str("Wrong length of the public key."),
        }
    }
}

/// DER is unambiguous: at a given position, bytes hold the encoding of at
/// most one element with a tag of the low-tag-number form.
pub proof fn law_der_tlv_unambiguous(
    s: Seq<u8>,
    pos: int,
    tag1: u8,
    content1: Seq<u8>,
    tag2: u8,
    content2: Seq<u8>,
)
    requires
        s.len() <= u64::MAX,
        low_tag(tag1),
        low_tag(tag2),
        holds_at(s, pos, der_tlv(tag1, content1)),
        holds_at(s, pos, der_tlv(tag2, content2)),
    ensures
        tag1 == tag2,
        content1 == content2,
{
    lemma_pow256_8();
    lemma_tlv_facts(s, pos, tag1, content1);
    lemma_tlv_facts(s, pos, tag2, content2);
    let n1 = content1.len();
    let n2 = content2.len();
    if n1 >= 128 && n2 >= 128 {
        lemma_be_bytes_value(n1);
        lemma_be_bytes_value(n2);
        assert(be_bytes(n1) == be_bytes(n2));
    }
    assert(n1 == n2);
}

} // verus!
