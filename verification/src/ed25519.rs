//! Plain-value model of the ed25519 scalars and points the swap core works on.
//!
//! A scalar is held as its canonical 32-byte little-endian encoding, a point as
//! its compressed Edwards Y encoding.  The group operations are carried out by
//! curve25519_dalek behind trusted wrappers: scalar arithmetic has an exact
//! contract (arithmetic modulo the group order), while the point operations are
//! deterministic functions of the byte encodings and are given names.

use tiny_keccak::Hasher;
use vstd::prelude::*;

verus! {

/// The ed25519 group order, 2^252 + 27742317777372353535851937790883648493.
pub open spec fn group_order() -> nat {
    7237005577332262213973186563042994240857116359379907606001950938285454250989nat
}

/// Value of a little-endian byte string.
pub open spec fn le_val(b: Seq<u8>) -> nat
    decreases b.len(),
{
    if b.len() == 0 {
        0
    } else {
        b[0] as nat + 256 * le_val(b.subrange(1, b.len() as int))
    }
}

/// A byte string is a canonical scalar encoding when it has 32 bytes and its
/// value is reduced modulo the group order.
pub open spec fn sc_canon(b: Seq<u8>) -> bool {
    b.len() == 32 && le_val(b) < group_order()
}

/// The 32-byte little-endian encoding of a value: the unique 32-byte string
/// with that value, where one exists.
pub closed spec fn enc32(v: nat) -> Seq<u8> {
    choose|b: Seq<u8>| b.len() == 32 && le_val(b) == v
}

/// Two little-endian strings of the same length with the same value are equal.
pub proof fn lemma_le_val_injective(a: Seq<u8>, b: Seq<u8>)
    requires
        a.len() == b.len(),
        le_val(a) == le_val(b),
    ensures
        a == b,
    decreases a.len(),
{
    if a.len() > 0 {
        let at = a.subrange(1, a.len() as int);
        let bt = b.subrange(1, b.len() as int);
        assert(a[0] as nat + 256 * le_val(at) == b[0] as nat + 256 * le_val(bt));
        assert(a[0] == b[0]);
        lemma_le_val_injective(at, bt);
        assert(a =~= b) by {
            assert(forall|i: int| 1 <= i < a.len() ==> a[i] == at[i - 1] && b[i] == bt[i - 1]);
        }
    } else {
        assert(a =~= b);
    }
}

/// `enc32` recovers any 32-byte string from its value.
pub proof fn lemma_enc32_of_bytes(b: Seq<u8>)
    requires
        b.len() == 32,
    ensures
        enc32(le_val(b)) == b,
{
    let v = le_val(b);
    assert(exists|c: Seq<u8>| c.len() == 32 && le_val(c) == v) by {
        assert(b.len() == 32 && le_val(b) == v);
    }
    let c = choose|c: Seq<u8>| c.len() == 32 && le_val(c) == v;
    lemma_le_val_injective(b, c);
}

/// An ed25519 scalar, as its canonical little-endian encoding.
#[derive(Clone, Copy, Debug, PartialEq, Eq)]
pub struct Sc {
    pub bytes: [u8; 32],
}

impl Sc {
    /// The scalar's value.
    pub open spec fn val(self) -> nat {
        le_val(self.bytes@)
    }

    /// Well-formed: the encoding is canonical.
    pub open spec fn wf(self) -> bool {
        sc_canon(self.bytes@)
    }
}

/// Whether a 32-byte string decompresses to a curve point.  Names the result
/// of curve25519_dalek's `CompressedEdwardsY::decompress` succeeding.
pub uninterp spec fn pt_valid(b: Seq<u8>) -> bool;

/// Compressed encoding of the sum of two points.  Names the result of
/// curve25519_dalek's `EdwardsPoint` addition on the decompressed arguments.
pub uninterp spec fn pt_add_spec(a: Seq<u8>, b: Seq<u8>) -> Seq<u8>;

/// Compressed encoding of the difference of two points.  Names the result of
/// curve25519_dalek's `EdwardsPoint` subtraction on the decompressed arguments.
pub uninterp spec fn pt_sub_spec(a: Seq<u8>, b: Seq<u8>) -> Seq<u8>;

/// Compressed encoding of a scalar multiple of a point.  Names the result of
/// curve25519_dalek's `Scalar` × `EdwardsPoint` multiplication.
pub uninterp spec fn pt_mul_spec(s: Seq<u8>, p: Seq<u8>) -> Seq<u8>;

/// The Keccak-256 digest of a byte string.  Names the output of
/// tiny_keccak's `Keccak::v256`.
pub uninterp spec fn keccak256(data: Seq<u8>) -> Seq<u8>;

/// The compressed encoding of the ed25519 base point: 0x58 then 31 × 0x66.
pub open spec fn g_bytes() -> Seq<u8> {
    Seq::new(32, |i: int| if i == 0 { 0x58u8 } else { 0x66u8 })
}

/// An ed25519 point, as its compressed Edwards Y encoding.
#[derive(Clone, Copy, Debug, PartialEq, Eq)]
pub struct Pt {
    pub bytes: [u8; 32],
}

impl Pt {
    /// Well-formed: the encoding decompresses to a point.
    pub open spec fn wf(self) -> bool {
        pt_valid(self.bytes@)
    }
}

/// Relies on curve25519_dalek's `Scalar` addition, which reduces modulo the
/// group order, and on `to_bytes` returning the canonical encoding.
#[verifier::external_body]
pub fn sc_add(a: &Sc, b: &Sc) -> (r: Sc)
    requires
        a.wf(),
        b.wf(),
    ensures
        r.wf(),
        r.val() == (a.val() + b.val()) % group_order(),
{
    let x = curve25519_dalek::scalar::Scalar::from_bits(a.bytes);
    let y = curve25519_dalek::scalar::Scalar::from_bits(b.bytes);
    Sc { bytes: (x + y).to_bytes() }
}

/// Relies on curve25519_dalek's `Scalar` subtraction modulo the group order.
#[verifier::external_body]
pub fn sc_sub(a: &Sc, b: &Sc) -> (r: Sc)
    requires
        a.wf(),
        b.wf(),
    ensures
        r.wf(),
        r.val() == ((a.val() + group_order() - b.val()) as nat) % group_order(),
{
    let x = curve25519_dalek::scalar::Scalar::from_bits(a.bytes);
    let y = curve25519_dalek::scalar::Scalar::from_bits(b.bytes);
    Sc { bytes: (x - y).to_bytes() }
}

/// Relies on curve25519_dalek's `Scalar` multiplication modulo the group order.
#[verifier::external_body]
pub fn sc_mul(a: &Sc, b: &Sc) -> (r: Sc)
    requires
        a.wf(),
        b.wf(),
    ensures
        r.wf(),
        r.val() == (a.val() * b.val()) % group_order(),
{
    let x = curve25519_dalek::scalar::Scalar::from_bits(a.bytes);
    let y = curve25519_dalek::scalar::Scalar::from_bits(b.bytes);
    Sc { bytes: (x * y).to_bytes() }
}

/// Relies on curve25519_dalek's `Scalar::invert`, the multiplicative inverse
/// modulo the group order of a nonzero scalar.
#[verifier::external_body]
pub fn sc_invert(a: &Sc) -> (r: Sc)
    requires
        a.wf(),
        a.val() != 0,
    ensures
        r.wf(),
        (a.val() * r.val()) % group_order() == 1,
{
    let x = curve25519_dalek::scalar::Scalar::from_bits(a.bytes);
    Sc { bytes: x.invert().to_bytes() }
}

/// Relies on curve25519_dalek's `Scalar::from(u64)`, whose value is the input.
#[verifier::external_body]
pub fn sc_from_u64(x: u64) -> (r: Sc)
    ensures
        r.wf(),
        r.val() == x,
{
    Sc { bytes: curve25519_dalek::scalar::Scalar::from(x).to_bytes() }
}

/// Relies on curve25519_dalek's `Scalar::from_bytes_mod_order`: the input read
/// as a little-endian integer, reduced modulo the group order.
#[verifier::external_body]
pub fn sc_from_bytes_mod_order(b: &[u8; 32]) -> (r: Sc)
    ensures
        r.wf(),
        r.val() == le_val(b@) % group_order(),
{
    Sc { bytes: curve25519_dalek::scalar::Scalar::from_bytes_mod_order(*b).to_bytes() }
}

/// Relies on curve25519_dalek's `CompressedEdwardsY::decompress`: whether the
/// bytes encode a curve point.
#[verifier::external_body]
pub fn pt_check(b: &[u8; 32]) -> (r: bool)
    ensures
        r == pt_valid(b@),
{
    curve25519_dalek::edwards::CompressedEdwardsY(*b).decompress().is_some()
}

/// Relies on curve25519_dalek's `ED25519_BASEPOINT_POINT` and `compress`.
#[verifier::external_body]
pub fn pt_basepoint() -> (r: Pt)
    ensures
        r.wf(),
        r.bytes@ == g_bytes(),
{
    Pt { bytes: curve25519_dalek::constants::ED25519_BASEPOINT_POINT.compress().to_bytes() }
}

/// Relies on curve25519_dalek's `EdwardsPoint` addition after decompressing
/// both arguments; compression of a point decompresses back to it.
#[verifier::external_body]
pub fn pt_add(a: &Pt, b: &Pt) -> (r: Pt)
    requires
        a.wf(),
        b.wf(),
    ensures
        r.wf(),
        r.bytes@ == pt_add_spec(a.bytes@, b.bytes@),
{
    let x = curve25519_dalek::edwards::CompressedEdwardsY(a.bytes).decompress().unwrap();
    let y = curve25519_dalek::edwards::CompressedEdwardsY(b.bytes).decompress().unwrap();
    Pt { bytes: (x + y).compress().to_bytes() }
}

/// Relies on curve25519_dalek's `EdwardsPoint` subtraction after decompressing
/// both arguments.
#[verifier::external_body]
pub fn pt_sub(a: &Pt, b: &Pt) -> (r: Pt)
    requires
        a.wf(),
        b.wf(),
    ensures
        r.wf(),
        r.bytes@ == pt_sub_spec(a.bytes@, b.bytes@),
{
    let x = curve25519_dalek::edwards::CompressedEdwardsY(a.bytes).decompress().unwrap();
    let y = curve25519_dalek::edwards::CompressedEdwardsY(b.bytes).decompress().unwrap();
    Pt { bytes: (x - y).compress().to_bytes() }
}

/// Relies on curve25519_dalek's `Scalar` × `EdwardsPoint` multiplication after
/// decompressing the point argument.
#[verifier::external_body]
pub fn pt_mul(s: &Sc, p: &Pt) -> (r: Pt)
    requires
        s.wf(),
        p.wf(),
    ensures
        r.wf(),
        r.bytes@ == pt_mul_spec(s.bytes@, p.bytes@),
{
    let x = curve25519_dalek::scalar::Scalar::from_bits(s.bytes);
    let y = curve25519_dalek::edwards::CompressedEdwardsY(p.bytes).decompress().unwrap();
    Pt { bytes: (y * x).compress().to_bytes() }
}

/// Relies on tiny_keccak's `Keccak::v256` with a 32-byte output.
#[verifier::external_body]
pub fn keccak256_digest(data: &Vec<u8>) -> (r: [u8; 32])
    ensures
        r@ == keccak256(data@),
{
    let mut hasher = tiny_keccak::Keccak::v256();
    hasher.update(data.as_slice());
    let mut out = [0u8; 32];
    hasher.finalize(&mut out);
    out
}

/// Byte-for-byte equality of two 32-byte arrays.
pub fn bytes32_eq(a: &[u8; 32], b: &[u8; 32]) -> (r: bool)
    ensures
        r <==> a@ == b@,
{
    let mut i: usize = 0;
    while i < 32
        invariant
            i <= 32,
            forall|j: int| 0 <= j < i ==> a@[j] == b@[j],
        decreases 32 - i,
    {
        if a[i] != b[i] {
            return false;
        }
        i = i + 1;
    }
    proof {
        assert(a@ =~= b@);
    }
    true
}

/// Scalar equality; for well-formed scalars this coincides with value equality.
pub fn sc_eq(a: &Sc, b: &Sc) -> (r: bool)
    ensures
        r <==> a.bytes@ == b.bytes@,
        a.wf() && b.wf() ==> (r <==> a.val() == b.val()),
{
    let r = bytes32_eq(&a.bytes, &b.bytes);
    proof {
        if a.wf() && b.wf() && a.val() == b.val() {
            lemma_le_val_injective(a.bytes@, b.bytes@);
        }
    }
    r
}

/// Point equality of the compressed encodings.
pub fn pt_eq(a: &Pt, b: &Pt) -> (r: bool)
    ensures
        r <==> a.bytes@ == b.bytes@,
{
    bytes32_eq(&a.bytes, &b.bytes)
}

/// Builds a point from a compressed encoding, rejecting bytes that do not
/// decompress.
pub fn pt_from_bytes(b: &[u8; 32]) -> (r: Option<Pt>)
    ensures
        r is Some <==> pt_valid(b@),
        r is Some ==> r->Some_0.bytes@ == b@ && r->Some_0.wf(),
{
    if pt_check(b) {
        Some(Pt { bytes: *b })
    } else {
        None
    }
}

/// Builds a scalar from a canonical encoding, rejecting non-canonical bytes.
pub fn sc_from_canonical_bytes(b: &[u8; 32]) -> (r: Option<Sc>)
    ensures
        r is Some <==> sc_canon(b@),
        r is Some ==> r->Some_0.bytes@ == b@ && r->Some_0.wf(),
{
    let s = sc_from_bytes_mod_order(b);
    let same = bytes32_eq(&s.bytes, b);
    proof {
        if sc_canon(b@) {
            vstd::arithmetic::div_mod::lemma_small_mod(le_val(b@), group_order());
            lemma_le_val_injective(s.bytes@, b@);
        }
        if same {
            assert(le_val(b@) == s.val());
        }
    }
    if same {
        Some(Sc { bytes: *b })
    } else {
        None
    }
}

} // verus!
