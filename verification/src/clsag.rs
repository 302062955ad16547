//! CLSAG ring signatures over an 11-member ring with a linked commitment ring.
//!
//! The signer's response at index 0 closes the ring: it is derived from the
//! nonce and the two aggregation scalars so that re-walking the ring from the
//! published responses reproduces the initial round hash.

use crate::ed25519::{
    enc32, g_bytes, group_order, keccak256, keccak256_digest, le_val, lemma_enc32_of_bytes,
    pt_add, pt_add_spec, pt_basepoint, pt_from_bytes, pt_mul, pt_mul_spec, pt_sub, pt_sub_spec,
    pt_valid, sc_add, sc_canon, sc_eq, sc_from_bytes_mod_order, sc_from_canonical_bytes,
    sc_from_u64, sc_invert, sc_mul, sc_sub, Pt, Sc,
};
use vstd::prelude::*;

verus! {

/// Number of members in a CLSAG ring, fixed by the swap protocol.
pub const RING_SIZE: usize = 11;

/// Error signalled on malformed signature material; this module never panics.
#[derive(Clone, Copy, Debug, PartialEq, Eq)]
pub enum ClsagError {
    InvalidSignature,
}

/// The domain tag for the aggregation hashes: "CLSAG_agg_" followed by one
/// tag byte ('0' for the key ring, '1' for the commitment ring).
pub open spec fn agg_domain(tag: u8) -> Seq<u8> {
    seq![0x43u8, 0x4cu8, 0x53u8, 0x41u8, 0x47u8, 0x5fu8, 0x61u8, 0x67u8, 0x67u8, 0x5fu8, tag]
}

/// The domain tag of the per-round hash: "CLSAG_round".
pub open spec fn round_domain() -> Seq<u8> {
    seq![0x43u8, 0x4cu8, 0x53u8, 0x41u8, 0x47u8, 0x5fu8, 0x72u8, 0x6fu8, 0x75u8, 0x6eu8, 0x64u8]
}

/// The domain tag of the hash-to-point map: "hash_to_point".
pub open spec fn hp_domain() -> Seq<u8> {
    seq![0x68u8, 0x61u8, 0x73u8, 0x68u8, 0x5fu8, 0x74u8, 0x6fu8, 0x5fu8, 0x70u8, 0x6fu8, 0x69u8,
        0x6eu8, 0x74u8]
}

/// The protocol's hash-to-point map: the Keccak hash of the compressed point,
/// read as a scalar, times the base point.
pub open spec fn hp_spec(b: Seq<u8>) -> Seq<u8> {
    pt_mul_spec(enc32(le_val(keccak256(hp_domain() + b)) % group_order()), g_bytes())
}

/// A ring of eleven points; index 0 is the real signer's key by convention.
#[derive(Clone, Copy, Debug, PartialEq, Eq)]
pub struct Ring {
    pub points: [Pt; 11],
}

impl Ring {
    /// Well-formed: every member decompresses.
    pub open spec fn wf(self) -> bool {
        forall|i: int| 0 <= i < 11 ==> self.points@[i].wf()
    }

    /// Concatenation of the eleven compressed encodings.
    pub open spec fn bytes(self) -> Seq<u8> {
        concat_point_bytes(self.points@)
    }

    /// Assembles a ring from already-validated points.
    pub fn new(points: [Pt; 11]) -> (r: Ring)
        ensures
            r.points == points,
    {
        Ring { points }
    }

    /// The concatenated compressed encodings of the members, in ring order.
    pub fn as_bytes(&self) -> (r: Vec<u8>)
        ensures
            r@ == self.bytes(),
    {
        let mut out: Vec<u8> = Vec::new();
        let mut i: usize = 0;
        while i < 11
            invariant
                i <= 11,
                out@ == concat_point_bytes(self.points@.subrange(0, i as int)),
            decreases 11 - i,
        {
            push_arr32(&mut out, &self.points[i].bytes);
            proof {
                let sub = self.points@.subrange(0, i + 1);
                assert(sub.drop_last() =~= self.points@.subrange(0, i as int));
                assert(sub.last() == self.points@[i as int]);
            }
            i = i + 1;
        }
        proof {
            assert(self.points@.subrange(0, 11) =~= self.points@);
        }
        out
    }
}

/// Concatenation of the compressed encodings of a sequence of points.
pub open spec fn concat_point_bytes(ps: Seq<Pt>) -> Seq<u8>
    decreases ps.len(),
{
    if ps.len() == 0 {
        Seq::empty()
    } else {
        concat_point_bytes(ps.drop_last()) + ps.last().bytes@
    }
}

/// Builds a ring out of compressed encodings, rejecting any that does not
/// decompress.
pub fn ring_from_bytes(b: &[[u8; 32]; 11]) -> (r: Result<Ring, ClsagError>)
    ensures
        r is Ok <==> (forall|i: int| 0 <= i < 11 ==> pt_valid(b@[i]@)),
        r is Ok ==> r->Ok_0.wf() && (forall|i: int|
            0 <= i < 11 ==> r->Ok_0.points@[i].bytes@ == b@[i]@),
        r is Err ==> r->Err_0 == ClsagError::InvalidSignature,
{
    let mut points: [Pt; 11] = [Pt { bytes: [0u8; 32] }; 11];
    let mut i: usize = 0;
    while i < 11
        invariant
            i <= 11,
            forall|j: int| 0 <= j < i ==> points@[j].wf() && points@[j].bytes@ == b@[j]@,
        decreases 11 - i,
    {
        match pt_from_bytes(&b[i]) {
            Some(p) => {
                points[i] = p;
            },
            None => {
                return Err(ClsagError::InvalidSignature);
            },
        }
        i = i + 1;
    }
    Ok(Ring { points })
}

/// Appends a 32-byte array to a buffer.
fn push_arr32(out: &mut Vec<u8>, b: &[u8; 32])
    ensures
        final(out)@ == old(out)@ + b@,
{
    let mut j: usize = 0;
    while j < 32
        invariant
            j <= 32,
            out@ == old(out)@ + b@.subrange(0, j as int),
        decreases 32 - j,
    {
        out.push(b[j]);
        proof {
            assert(b@.subrange(0, j + 1) =~= b@.subrange(0, j as int) + seq![b@[j as int]]);
        }
        j = j + 1;
    }
    proof {
        assert(b@.subrange(0, 32) =~= b@);
    }
}

/// Appends a slice to a buffer.
fn push_slice(out: &mut Vec<u8>, b: &[u8])
    ensures
        final(out)@ == old(out)@ + b@,
{
    let mut j: usize = 0;
    while j < b.len()
        invariant
            j <= b@.len(),
            out@ == old(out)@ + b@.subrange(0, j as int),
        decreases b@.len() - j,
    {
        out.push(b[j]);
        proof {
            assert(b@.subrange(0, j + 1) =~= b@.subrange(0, j as int) + seq![b@[j as int]]);
        }
        j = j + 1;
    }
    proof {
        assert(b@.subrange(0, b@.len() as int) =~= b@);
    }
}

/// The exec form of an aggregation domain tag.
fn agg_domain_bytes(tag: u8) -> (r: Vec<u8>)
    ensures
        r@ == agg_domain(tag),
{
    let mut v: Vec<u8> = Vec::new();
    v.push(0x43);
    v.push(0x4c);
    v.push(0x53);
    v.push(0x41);
    v.push(0x47);
    v.push(0x5f);
    v.push(0x61);
    v.push(0x67);
    v.push(0x67);
    v.push(0x5f);
    v.push(tag);
    proof {
        assert(v@ =~= agg_domain(tag));
    }
    v
}

/// The exec form of the round domain tag.
fn round_domain_bytes() -> (r: Vec<u8>)
    ensures
        r@ == round_domain(),
{
    let mut v: Vec<u8> = Vec::new();
    v.push(0x43);
    v.push(0x4c);
    v.push(0x53);
    v.push(0x41);
    v.push(0x47);
    v.push(0x5f);
    v.push(0x72);
    v.push(0x6f);
    v.push(0x75);
    v.push(0x6e);
    v.push(0x64);
    proof {
        assert(v@ =~= round_domain());
    }
    v
}

/// The exec form of the hash-to-point domain tag.
fn hp_domain_bytes() -> (r: Vec<u8>)
    ensures
        r@ == hp_domain(),
{
    let mut v: Vec<u8> = Vec::new();
    v.push(0x68);
    v.push(0x61);
    v.push(0x73);
    v.push(0x68);
    v.push(0x5f);
    v.push(0x74);
    v.push(0x6f);
    v.push(0x5f);
    v.push(0x70);
    v.push(0x6f);
    v.push(0x69);
    v.push(0x6e);
    v.push(0x74);
    proof {
        assert(v@ =~= hp_domain());
    }
    v
}

/// Hashes a byte string to a scalar: Keccak-256 reduced modulo the group
/// order.
pub fn hash_to_scalar(data: &Vec<u8>) -> (r: Sc)
    ensures
        r.wf(),
        r.val() == le_val(keccak256(data@)) % group_order(),
{
    let d = keccak256_digest(data);
    sc_from_bytes_mod_order(&d)
}

/// The protocol's hash-to-point map.
pub fn hash_point(p: &Pt) -> (r: Pt)
    requires
        p.wf(),
    ensures
        r.wf(),
        r.bytes@ == hp_spec(p.bytes@),
{
    let mut buf = hp_domain_bytes();
    push_arr32(&mut buf, &p.bytes);
    let s = hash_to_scalar(&buf);
    let g = pt_basepoint();
    let r = pt_mul(&s, &g);
    proof {
        lemma_enc32_of_bytes(s.bytes@);
    }
    r
}

/// A CLSAG signature: the eleven responses (the real one at index 0), the
/// initial round hash, the key image and the auxiliary image.
#[derive(Clone, Copy, Debug, PartialEq, Eq)]
#[allow(non_snake_case)]
pub struct Signature {
    pub responses: [Sc; 11],
    pub h_0: Sc,
    /// Key image of the real key in the ring.
    pub I: Pt,
    pub D: Pt,
}

impl Signature {
    /// Well-formed: responses and hash canonical, images decompressible.
    pub open spec fn wf(self) -> bool {
        &&& forall|i: int| 0 <= i < 11 ==> self.responses@[i].wf()
        &&& self.h_0.wf()
        &&& self.I.wf()
        &&& self.D.wf()
    }
}

/// The value of the multiplicative inverse of eight modulo the group order.
pub closed spec fn inv8_val() -> nat {
    choose|v: nat| v < group_order() && #[trigger] ((8 * v) % group_order()) == 1
}

/// Inverses of eight modulo the group order are unique.
proof fn lemma_inv8_unique(a: nat, b: nat)
    requires
        a < group_order(),
        b < group_order(),
        (8 * a) % group_order() == 1,
        (8 * b) % group_order() == 1,
    ensures
        a == b,
{
    let l = group_order();
    assert((8 * a) * b == (8 * b) * a) by (nonlinear_arith);
    vstd::arithmetic::div_mod::lemma_mul_mod_noop_left((8 * a) as int, b as int, l as int);
    vstd::arithmetic::div_mod::lemma_mul_mod_noop_left((8 * b) as int, a as int, l as int);
    vstd::arithmetic::div_mod::lemma_small_mod(a, l);
    vstd::arithmetic::div_mod::lemma_small_mod(b, l);
}

/// Pins `inv8_val` to any witness produced at run time.
proof fn lemma_inv8_val_is(v: nat)
    requires
        v < group_order(),
        (8 * v) % group_order() == 1,
    ensures
        inv8_val() == v,
{
    assert(exists|w: nat| w < group_order() && #[trigger] ((8 * w) % group_order()) == 1) by {
        assert(v < group_order() && (8 * v) % group_order() == 1);
    }
    let w = choose|w: nat| w < group_order() && #[trigger] ((8 * w) % group_order()) == 1;
    lemma_inv8_unique(w, v);
}

/// Computes the scalar one-eighth, used for the wire form of `D`.
pub fn sc_inv_eight() -> (r: Sc)
    ensures
        r.wf(),
        r.val() == inv8_val(),
{
    let eight = sc_from_u64(8);
    let r = sc_invert(&eight);
    proof {
        lemma_inv8_val_is(r.val());
    }
    r
}

/// The published auxiliary image divided by eight, as the wire carries it and
/// as the aggregation hashes absorb it.
pub open spec fn d8_bytes(db: Seq<u8>) -> Seq<u8> {
    pt_mul_spec(enc32(inv8_val()), db)
}

/// The byte string an aggregation hash absorbs.
pub open spec fn agg_input(tag: u8, ringb: Seq<u8>, cringb: Seq<u8>, ib: Seq<u8>, d8b: Seq<u8>, coutb: Seq<u8>) -> Seq<u8> {
    agg_domain(tag) + ringb + cringb + ib + d8b + coutb
}

/// An aggregation hash value: the tagged hash of both rings, the key image,
/// the eighth of the auxiliary image `db`, and the pseudo-output commitment.
pub open spec fn mu_val(tag: u8, ringb: Seq<u8>, cringb: Seq<u8>, ib: Seq<u8>, db: Seq<u8>, coutb: Seq<u8>) -> nat {
    le_val(keccak256(agg_input(tag, ringb, cringb, ib, d8_bytes(db), coutb))) % group_order()
}

/// The prefix of every round hash: domain, both rings, the pseudo-output
/// commitment and the message.
pub open spec fn round_prefix_spec(ringb: Seq<u8>, cringb: Seq<u8>, coutb: Seq<u8>, msg: Seq<u8>) -> Seq<u8> {
    round_domain() + ringb + cringb + coutb + msg
}

/// A round hash value.
pub open spec fn round_h_val(prefix: Seq<u8>, lb: Seq<u8>, rb: Seq<u8>) -> nat {
    le_val(keccak256(prefix + lb + rb)) % group_order()
}

/// The left ring element of a round: s·G + (h·mu_P)·pk + (h·mu_C)·adj.
pub open spec fn ell_spec(hprev: nat, mu_p: nat, mu_c: nat, s: Seq<u8>, pk: Seq<u8>, adj: Seq<u8>) -> Seq<u8> {
    pt_add_spec(
        pt_add_spec(
            pt_mul_spec(s, g_bytes()),
            pt_mul_spec(enc32((hprev * mu_p) % group_order()), pk),
        ),
        pt_mul_spec(enc32((hprev * mu_c) % group_order()), adj),
    )
}

/// The right ring element of a round: s·H_p(pk) + (h·mu_P)·I + (h·mu_C)·D.
pub open spec fn rr_spec(hprev: nat, mu_p: nat, mu_c: nat, s: Seq<u8>, hp_pk: Seq<u8>, ib: Seq<u8>, db: Seq<u8>) -> Seq<u8> {
    pt_add_spec(
        pt_add_spec(
            pt_mul_spec(s, hp_pk),
            pt_mul_spec(enc32((hprev * mu_p) % group_order()), ib),
        ),
        pt_mul_spec(enc32((hprev * mu_c) % group_order()), db),
    )
}

/// The adjusted commitment of ring position `i`: commitment_ring[i] − C_out.
pub open spec fn adj_spec(cring: Seq<Pt>, i: int, coutb: Seq<u8>) -> Seq<u8> {
    pt_sub_spec(cring[i].bytes@, coutb)
}

/// The chain of round hashes: `chain_h(.., i)` is h_i, where h_0 is given and
/// round i (1 ≤ i ≤ 10) absorbs response `ss[i−1]`, ring member i and the
/// adjusted commitment i−1.
pub open spec fn chain_h(
    prefix: Seq<u8>,
    mu_p: nat,
    mu_c: nat,
    ring: Seq<Pt>,
    cring: Seq<Pt>,
    coutb: Seq<u8>,
    ib: Seq<u8>,
    db: Seq<u8>,
    h0: nat,
    ss: Seq<Sc>,
    i: nat,
) -> nat
    decreases i,
{
    if i == 0 {
        h0
    } else {
        let hp = chain_h(prefix, mu_p, mu_c, ring, cring, coutb, ib, db, h0, ss, (i - 1) as nat);
        round_h_val(
            prefix,
            ell_spec(hp, mu_p, mu_c, ss[i - 1].bytes@, ring[i as int].bytes@, adj_spec(cring, i - 1, coutb)),
            rr_spec(hp, mu_p, mu_c, ss[i - 1].bytes@, hp_spec(ring[i as int].bytes@), ib, db),
        )
    }
}

/// The closing round hash, computed from the real response at index 0 against
/// ring member 0 and adjusted commitment 0.
pub open spec fn closing_h(
    prefix: Seq<u8>,
    mu_p: nat,
    mu_c: nat,
    ring: Seq<Pt>,
    cring: Seq<Pt>,
    coutb: Seq<u8>,
    ib: Seq<u8>,
    db: Seq<u8>,
    h0: nat,
    ss: Seq<Sc>,
    s0: Sc,
) -> nat {
    let h10 = chain_h(prefix, mu_p, mu_c, ring, cring, coutb, ib, db, h0, ss, 10);
    round_h_val(
        prefix,
        ell_spec(h10, mu_p, mu_c, s0.bytes@, ring[0].bytes@, adj_spec(cring, 0, coutb)),
        rr_spec(h10, mu_p, mu_c, s0.bytes@, hp_spec(ring[0].bytes@), ib, db),
    )
}

/// What `verify` decides: walking the ring from the published responses ends
/// back at the published initial hash.
pub open spec fn verify_spec(sig: Signature, ring: Ring, cring: Ring, cout: Pt, msg: Seq<u8>) -> bool {
    let ringb = ring.bytes();
    let cringb = cring.bytes();
    let mu_p = mu_val(0x30u8, ringb, cringb, sig.I.bytes@, sig.D.bytes@, cout.bytes@);
    let mu_c = mu_val(0x31u8, ringb, cringb, sig.I.bytes@, sig.D.bytes@, cout.bytes@);
    let prefix = round_prefix_spec(ringb, cringb, cout.bytes@, msg);
    closing_h(
        prefix,
        mu_p,
        mu_c,
        ring.points@,
        cring.points@,
        cout.bytes@,
        sig.I.bytes@,
        sig.D.bytes@,
        sig.h_0.val(),
        sig.responses@.subrange(1, 11),
        sig.responses@[0],
    ) == sig.h_0.val()
}

/// The two aggregation scalars binding the key ring and the commitment ring.
#[derive(Clone, Copy, Debug, PartialEq, Eq)]
#[allow(non_snake_case)]
pub struct AggregationHashes {
    pub mu_P: Sc,
    pub mu_C: Sc,
}

impl AggregationHashes {
    /// Hashes both rings, the key image, the published eighth of the
    /// auxiliary image and the pseudo-output commitment under the two
    /// aggregation tags.
    #[allow(non_snake_case)]
    pub fn new(ring: &Ring, commitment_ring: &Ring, I: &Pt, pseudo_output_commitment: &Pt, D_inv_8: &Pt) -> (r: AggregationHashes)
        ensures
            r.mu_P.wf(),
            r.mu_C.wf(),
            r.mu_P.val() == le_val(keccak256(agg_input(0x30u8, ring.bytes(), commitment_ring.bytes(), I.bytes@, D_inv_8.bytes@, pseudo_output_commitment.bytes@))) % group_order(),
            r.mu_C.val() == le_val(keccak256(agg_input(0x31u8, ring.bytes(), commitment_ring.bytes(), I.bytes@, D_inv_8.bytes@, pseudo_output_commitment.bytes@))) % group_order(),
    {
        let ring_b = ring.as_bytes();
        let cring_b = commitment_ring.as_bytes();
        let mut common: Vec<u8> = Vec::new();
        push_slice(&mut common, ring_b.as_slice());
        push_slice(&mut common, cring_b.as_slice());
        push_arr32(&mut common, &I.bytes);
        push_arr32(&mut common, &D_inv_8.bytes);
        push_arr32(&mut common, &pseudo_output_commitment.bytes);
        let mut buf0 = agg_domain_bytes(0x30);
        push_slice(&mut buf0, common.as_slice());
        let mut buf1 = agg_domain_bytes(0x31);
        push_slice(&mut buf1, common.as_slice());
        let mu_P = hash_to_scalar(&buf0);
        let mu_C = hash_to_scalar(&buf1);
        proof {
            assert(buf0@ =~= agg_input(0x30u8, ring.bytes(), commitment_ring.bytes(), I.bytes@, D_inv_8.bytes@, pseudo_output_commitment.bytes@));
            assert(buf1@ =~= agg_input(0x31u8, ring.bytes(), commitment_ring.bytes(), I.bytes@, D_inv_8.bytes@, pseudo_output_commitment.bytes@));
        }
        AggregationHashes { mu_P, mu_C }
    }
}

/// Compute the prefix for the hash common to every iteration of the ring
/// signature algorithm: domain, both rings, the pseudo-output commitment and
/// the message.
pub fn clsag_round_hash_prefix(ring: &Vec<u8>, commitment_ring: &Vec<u8>, pseudo_output_commitment: &Pt, msg: &Vec<u8>) -> (r: Vec<u8>)
    ensures
        r@ == round_prefix_spec(ring@, commitment_ring@, pseudo_output_commitment.bytes@, msg@),
{
    let mut prefix = round_domain_bytes();
    push_slice(&mut prefix, ring.as_slice());
    push_slice(&mut prefix, commitment_ring.as_slice());
    push_arr32(&mut prefix, &pseudo_output_commitment.bytes);
    push_slice(&mut prefix, msg.as_slice());
    proof {
        assert(prefix@ =~= round_prefix_spec(ring@, commitment_ring@, pseudo_output_commitment.bytes@, msg@));
    }
    prefix
}

/// One round hash: Keccak of the prefix and the compressed pair (L, R).
fn round_hash(prefix: &Vec<u8>, l: &Pt, r_pt: &Pt) -> (r: Sc)
    ensures
        r.wf(),
        r.val() == round_h_val(prefix@, l.bytes@, r_pt.bytes@),
{
    let mut buf: Vec<u8> = Vec::new();
    push_slice(&mut buf, prefix.as_slice());
    push_arr32(&mut buf, &l.bytes);
    push_arr32(&mut buf, &r_pt.bytes);
    proof {
        assert(buf@ =~= prefix@ + l.bytes@ + r_pt.bytes@);
    }
    hash_to_scalar(&buf)
}

/// L_i = s_i·G + (h·mu_P)·pk_i + (h·mu_C)·(commitment_i − C_out).
#[allow(non_snake_case)]
fn compute_L(h_prev: &Sc, mus: &AggregationHashes, s_i: &Sc, pk_i: &Pt, adjusted_commitment_i: &Pt) -> (r: Pt)
    requires
        h_prev.wf(),
        mus.mu_P.wf(),
        mus.mu_C.wf(),
        s_i.wf(),
        pk_i.wf(),
        adjusted_commitment_i.wf(),
    ensures
        r.wf(),
        r.bytes@ == ell_spec(h_prev.val(), mus.mu_P.val(), mus.mu_C.val(), s_i.bytes@, pk_i.bytes@, adjusted_commitment_i.bytes@),
{
    let c_p = sc_mul(h_prev, &mus.mu_P);
    let c_c = sc_mul(h_prev, &mus.mu_C);
    let g = pt_basepoint();
    let t0 = pt_mul(s_i, &g);
    let t1 = pt_mul(&c_p, pk_i);
    let t2 = pt_mul(&c_c, adjusted_commitment_i);
    let r = pt_add(&pt_add(&t0, &t1), &t2);
    proof {
        lemma_enc32_of_bytes(c_p.bytes@);
        lemma_enc32_of_bytes(c_c.bytes@);
    }
    r
}

/// R_i = s_i·H_p(pk_i) + (h·mu_P)·I + (h·mu_C)·D.
#[allow(non_snake_case)]
fn compute_R(h_prev: &Sc, mus: &AggregationHashes, pk_i: &Pt, s_i: &Sc, I: &Pt, D: &Pt) -> (r: Pt)
    requires
        h_prev.wf(),
        mus.mu_P.wf(),
        mus.mu_C.wf(),
        s_i.wf(),
        pk_i.wf(),
        I.wf(),
        D.wf(),
    ensures
        r.wf(),
        r.bytes@ == rr_spec(h_prev.val(), mus.mu_P.val(), mus.mu_C.val(), s_i.bytes@, hp_spec(pk_i.bytes@), I.bytes@, D.bytes@),
{
    let c_p = sc_mul(h_prev, &mus.mu_P);
    let c_c = sc_mul(h_prev, &mus.mu_C);
    let hp = hash_point(pk_i);
    let t0 = pt_mul(s_i, &hp);
    let t1 = pt_mul(&c_p, I);
    let t2 = pt_mul(&c_c, D);
    let r = pt_add(&pt_add(&t0, &t1), &t2);
    proof {
        lemma_enc32_of_bytes(c_p.bytes@);
        lemma_enc32_of_bytes(c_c.bytes@);
    }
    r
}

/// The value of the real response: s_0 = α − h_10·(μ_P·x + μ_C·z), with every
/// operation reduced modulo the group order as the scalar type computes it.
pub open spec fn s0_val(alpha: nat, h10: nat, mu_p: nat, mu_c: nat, x: nat, z: nat) -> nat {
    ((alpha + group_order() - (h10 * (((mu_p * x) % group_order() + (mu_c * z) % group_order())
        % group_order())) % group_order()) as nat) % group_order()
}

/// The model of `sign`'s output, clause by clause.
#[allow(non_snake_case)]
pub open spec fn sign_ensures(
    sig: Signature,
    msg: Seq<u8>,
    signing_key: Sc,
    H_p_pk: Pt,
    alpha: Sc,
    ring: Ring,
    cring: Ring,
    fakes: Seq<Sc>,
    z: Sc,
    cout: Pt,
    L_0: Pt,
    R_0: Pt,
    I: Pt,
) -> bool {
    let db = pt_mul_spec(enc32(z.val()), H_p_pk.bytes@);
    let mu_p = mu_val(0x30u8, ring.bytes(), cring.bytes(), I.bytes@, db, cout.bytes@);
    let mu_c = mu_val(0x31u8, ring.bytes(), cring.bytes(), I.bytes@, db, cout.bytes@);
    let prefix = round_prefix_spec(ring.bytes(), cring.bytes(), cout.bytes@, msg);
    let h0 = round_h_val(prefix, L_0.bytes@, R_0.bytes@);
    let h10 = chain_h(prefix, mu_p, mu_c, ring.points@, cring.points@, cout.bytes@, I.bytes@, db, h0, fakes, 10);
    &&& sig.wf()
    &&& sig.I == I
    &&& sig.D.bytes@ == db
    &&& sig.h_0.val() == h0
    &&& (forall|i: int| 1 <= i < 11 ==> sig.responses@[i] == fakes[i - 1])
    &&& sig.responses@[0].val() == s0_val(alpha.val(), h10, mu_p, mu_c, signing_key.val(), z.val())
}

/// Produces the CLSAG signature over `msg` for the ring whose real member is
/// index 0, closing the ring with the response derived from the nonce.
#[allow(non_snake_case)]
pub fn sign(
    msg: &Vec<u8>,
    signing_key: &Sc,
    H_p_pk: &Pt,
    alpha: &Sc,
    ring: &Ring,
    commitment_ring: &Ring,
    fake_responses: &[Sc; 10],
    z: &Sc,
    pseudo_output_commitment: &Pt,
    L_0: &Pt,
    R_0: &Pt,
    I: &Pt,
) -> (sig: Signature)
    requires
        signing_key.wf(),
        alpha.wf(),
        z.wf(),
        H_p_pk.wf(),
        pseudo_output_commitment.wf(),
        L_0.wf(),
        R_0.wf(),
        I.wf(),
        ring.wf(),
        commitment_ring.wf(),
        forall|i: int| 0 <= i < 10 ==> fake_responses@[i].wf(),
    ensures
        sign_ensures(sig, msg@, *signing_key, *H_p_pk, *alpha, *ring, *commitment_ring,
            fake_responses@, *z, *pseudo_output_commitment, *L_0, *R_0, *I),
{
    let ghost db: Seq<u8> = pt_mul_spec(enc32(z.val()), H_p_pk.bytes@);
    let ghost mu_p: nat = mu_val(0x30u8, ring.bytes(), commitment_ring.bytes(), I.bytes@, db, pseudo_output_commitment.bytes@);
    let ghost mu_c: nat = mu_val(0x31u8, ring.bytes(), commitment_ring.bytes(), I.bytes@, db, pseudo_output_commitment.bytes@);

    let D = pt_mul(z, H_p_pk);
    let inv8 = sc_inv_eight();
    let D_inv_8 = pt_mul(&inv8, &D);
    proof {
        lemma_enc32_of_bytes(z.bytes@);
        lemma_enc32_of_bytes(inv8.bytes@);
        assert(D_inv_8.bytes@ == d8_bytes(D.bytes@));
    }

    let mus = AggregationHashes::new(ring, commitment_ring, I, pseudo_output_commitment, &D_inv_8);
    proof {
        assert(mus.mu_P.val() == mu_p);
        assert(mus.mu_C.val() == mu_c);
    }

    let ring_b = ring.as_bytes();
    let cring_b = commitment_ring.as_bytes();
    let prefix = clsag_round_hash_prefix(&ring_b, &cring_b, pseudo_output_commitment, msg);
    let h_0 = round_hash(&prefix, L_0, R_0);

    let mut h = h_0;
    let mut i: usize = 1;
    while i < 11
        invariant
            1 <= i <= 11,
            h.wf(),
            h.val() == chain_h(prefix@, mu_p, mu_c, ring.points@, commitment_ring.points@,
                pseudo_output_commitment.bytes@, I.bytes@, D.bytes@, h_0.val(),
                fake_responses@, (i - 1) as nat),
            mus.mu_P.wf(),
            mus.mu_C.wf(),
            mus.mu_P.val() == mu_p,
            mus.mu_C.val() == mu_c,
            h_0.wf(),
            D.wf(),
            D.bytes@ == db,
            prefix@ == round_prefix_spec(ring.bytes(), commitment_ring.bytes(), pseudo_output_commitment.bytes@, msg@),
            ring.wf(),
            commitment_ring.wf(),
            pseudo_output_commitment.wf(),
            I.wf(),
            forall|k: int| 0 <= k < 10 ==> fake_responses@[k].wf(),
        decreases 11 - i,
    {
        let s_i = fake_responses[i - 1];
        let pk_i = ring.points[i];
        let adjusted_commitment_i = pt_sub(&commitment_ring.points[i - 1], pseudo_output_commitment);
        let l_i = compute_L(&h, &mus, &s_i, &pk_i, &adjusted_commitment_i);
        let r_i = compute_R(&h, &mus, &pk_i, &s_i, I, &D);
        let h_next = round_hash(&prefix, &l_i, &r_i);
        proof {
            assert(adjusted_commitment_i.bytes@ == adj_spec(commitment_ring.points@, i - 1, pseudo_output_commitment.bytes@));
            assert(h_next.val() == chain_h(prefix@, mu_p, mu_c, ring.points@, commitment_ring.points@,
                pseudo_output_commitment.bytes@, I.bytes@, D.bytes@, h_0.val(),
                fake_responses@, i as nat));
        }
        h = h_next;
        i = i + 1;
    }

    let t = sc_add(&sc_mul(&mus.mu_P, signing_key), &sc_mul(&mus.mu_C, z));
    let s_0 = sc_sub(alpha, &sc_mul(&h, &t));

    let responses: [Sc; 11] = [
        s_0,
        fake_responses[0],
        fake_responses[1],
        fake_responses[2],
        fake_responses[3],
        fake_responses[4],
        fake_responses[5],
        fake_responses[6],
        fake_responses[7],
        fake_responses[8],
        fake_responses[9],
    ];

    let sig = Signature { responses, h_0, I: *I, D };
    proof {
        assert(forall|i: int| 1 <= i < 11 ==> sig.responses@[i] == fake_responses@[i - 1]);
    }
    sig
}

/// Checks a CLSAG signature: recomputes the aggregation scalars and the round
/// hashes from the published responses and accepts exactly when the walk ends
/// back at the published initial hash.
pub fn verify(
    sig: &Signature,
    ring: &Ring,
    commitment_ring: &Ring,
    pseudo_output_commitment: &Pt,
    msg: &Vec<u8>,
) -> (r: bool)
    requires
        sig.wf(),
        ring.wf(),
        commitment_ring.wf(),
        pseudo_output_commitment.wf(),
    ensures
        r == verify_spec(*sig, *ring, *commitment_ring, *pseudo_output_commitment, msg@),
{
    let ghost mu_p: nat = mu_val(0x30u8, ring.bytes(), commitment_ring.bytes(), sig.I.bytes@, sig.D.bytes@, pseudo_output_commitment.bytes@);
    let ghost mu_c: nat = mu_val(0x31u8, ring.bytes(), commitment_ring.bytes(), sig.I.bytes@, sig.D.bytes@, pseudo_output_commitment.bytes@);
    let ghost ss: Seq<Sc> = sig.responses@.subrange(1, 11);

    let inv8 = sc_inv_eight();
    let D_inv_8 = pt_mul(&inv8, &sig.D);
    proof {
        lemma_enc32_of_bytes(inv8.bytes@);
        assert(D_inv_8.bytes@ == d8_bytes(sig.D.bytes@));
    }
    let mus = AggregationHashes::new(ring, commitment_ring, &sig.I, pseudo_output_commitment, &D_inv_8);

    let ring_b = ring.as_bytes();
    let cring_b = commitment_ring.as_bytes();
    let prefix = clsag_round_hash_prefix(&ring_b, &cring_b, pseudo_output_commitment, msg);

    let mut h = sig.h_0;
    let mut i: usize = 1;
    while i < 11
        invariant
            1 <= i <= 11,
            h.wf(),
            h.val() == chain_h(prefix@, mu_p, mu_c, ring.points@, commitment_ring.points@,
                pseudo_output_commitment.bytes@, sig.I.bytes@, sig.D.bytes@, sig.h_0.val(),
                ss, (i - 1) as nat),
            ss == sig.responses@.subrange(1, 11),
            mus.mu_P.wf(),
            mus.mu_C.wf(),
            mus.mu_P.val() == mu_p,
            mus.mu_C.val() == mu_c,
            prefix@ == round_prefix_spec(ring.bytes(), commitment_ring.bytes(), pseudo_output_commitment.bytes@, msg@),
            sig.wf(),
            ring.wf(),
            commitment_ring.wf(),
            pseudo_output_commitment.wf(),
        decreases 11 - i,
    {
        let s_i = sig.responses[i];
        let pk_i = ring.points[i];
        let adjusted_commitment_i = pt_sub(&commitment_ring.points[i - 1], pseudo_output_commitment);
        let l_i = compute_L(&h, &mus, &s_i, &pk_i, &adjusted_commitment_i);
        let r_i = compute_R(&h, &mus, &pk_i, &s_i, &sig.I, &sig.D);
        let h_next = round_hash(&prefix, &l_i, &r_i);
        proof {
            assert(ss[i - 1] == sig.responses@[i as int]);
            assert(adjusted_commitment_i.bytes@ == adj_spec(commitment_ring.points@, i - 1, pseudo_output_commitment.bytes@));
            assert(h_next.val() == chain_h(prefix@, mu_p, mu_c, ring.points@, commitment_ring.points@,
                pseudo_output_commitment.bytes@, sig.I.bytes@, sig.D.bytes@, sig.h_0.val(),
                ss, i as nat));
        }
        h = h_next;
        i = i + 1;
    }

    let s_0 = sig.responses[0];
    let adjusted_commitment_0 = pt_sub(&commitment_ring.points[0], pseudo_output_commitment);
    let l_c = compute_L(&h, &mus, &s_0, &ring.points[0], &adjusted_commitment_0);
    let r_c = compute_R(&h, &mus, &ring.points[0], &s_0, &sig.I, &sig.D);
    let h_final = round_hash(&prefix, &l_c, &r_c);
    proof {
        assert(h_final.val() == closing_h(prefix@, mu_p, mu_c, ring.points@, commitment_ring.points@,
            pseudo_output_commitment.bytes@, sig.I.bytes@, sig.D.bytes@, sig.h_0.val(),
            ss, sig.responses@[0]));
    }
    sc_eq(&h_final, &sig.h_0)
}

/// The hash chain depends only on the responses it actually reads.
proof fn lemma_chain_congruent(
    prefix: Seq<u8>,
    mu_p: nat,
    mu_c: nat,
    ring: Seq<Pt>,
    cring: Seq<Pt>,
    coutb: Seq<u8>,
    ib: Seq<u8>,
    db: Seq<u8>,
    h0: nat,
    ss1: Seq<Sc>,
    ss2: Seq<Sc>,
    i: nat,
)
    requires
        forall|j: int| 0 <= j < i ==> ss1[j] == ss2[j],
    ensures
        chain_h(prefix, mu_p, mu_c, ring, cring, coutb, ib, db, h0, ss1, i)
            == chain_h(prefix, mu_p, mu_c, ring, cring, coutb, ib, db, h0, ss2, i),
    decreases i,
{
    if i > 0 {
        lemma_chain_congruent(prefix, mu_p, mu_c, ring, cring, coutb, ib, db, h0, ss1, ss2, (i - 1) as nat);
    }
}

/// The ed25519 ring-closure identities for one set of signing inputs: walking
/// the closing round from the derived real response reproduces the signer's
/// first-round pair (L_0, R_0).  These equalities hold by the group laws for
/// scalar multiplication, which the named point operations do not state; the
/// correctness law below takes them as its hypothesis.
#[allow(non_snake_case)]
pub open spec fn ring_closes(
    msg: Seq<u8>,
    signing_key: Sc,
    H_p_pk: Pt,
    alpha: Sc,
    ring: Ring,
    cring: Ring,
    fakes: Seq<Sc>,
    z: Sc,
    cout: Pt,
    L_0: Pt,
    R_0: Pt,
    I: Pt,
) -> bool {
    let db = pt_mul_spec(enc32(z.val()), H_p_pk.bytes@);
    let mu_p = mu_val(0x30u8, ring.bytes(), cring.bytes(), I.bytes@, db, cout.bytes@);
    let mu_c = mu_val(0x31u8, ring.bytes(), cring.bytes(), I.bytes@, db, cout.bytes@);
    let prefix = round_prefix_spec(ring.bytes(), cring.bytes(), cout.bytes@, msg);
    let h0 = round_h_val(prefix, L_0.bytes@, R_0.bytes@);
    let h10 = chain_h(prefix, mu_p, mu_c, ring.points@, cring.points@, cout.bytes@, I.bytes@, db, h0, fakes, 10);
    let s0b = enc32(s0_val(alpha.val(), h10, mu_p, mu_c, signing_key.val(), z.val()));
    &&& ell_spec(h10, mu_p, mu_c, s0b, ring.points@[0].bytes@, adj_spec(cring.points@, 0, cout.bytes@)) == L_0.bytes@
    &&& rr_spec(h10, mu_p, mu_c, s0b, hp_spec(ring.points@[0].bytes@), I.bytes@, db) == R_0.bytes@
}

/// CLSAG correctness: a signature produced by `sign` from valid inputs is
/// accepted by `verify` on the same ring, commitment ring, pseudo-output
/// commitment and message, whenever the ring-closure identities of
/// `ring_closes` hold of those inputs.
#[allow(non_snake_case)]
pub proof fn lemma_sign_verifies(
    sig: Signature,
    msg: Seq<u8>,
    signing_key: Sc,
    H_p_pk: Pt,
    alpha: Sc,
    ring: Ring,
    cring: Ring,
    fakes: Seq<Sc>,
    z: Sc,
    cout: Pt,
    L_0: Pt,
    R_0: Pt,
    I: Pt,
)
    requires
        fakes.len() == 10,
        sign_ensures(sig, msg, signing_key, H_p_pk, alpha, ring, cring, fakes, z, cout, L_0, R_0, I),
        ring_closes(msg, signing_key, H_p_pk, alpha, ring, cring, fakes, z, cout, L_0, R_0, I),
    ensures
        verify_spec(sig, ring, cring, cout, msg),
{
    let db = pt_mul_spec(enc32(z.val()), H_p_pk.bytes@);
    let mu_p = mu_val(0x30u8, ring.bytes(), cring.bytes(), I.bytes@, db, cout.bytes@);
    let mu_c = mu_val(0x31u8, ring.bytes(), cring.bytes(), I.bytes@, db, cout.bytes@);
    let prefix = round_prefix_spec(ring.bytes(), cring.bytes(), cout.bytes@, msg);
    let h0 = round_h_val(prefix, L_0.bytes@, R_0.bytes@);
    let ss = sig.responses@.subrange(1, 11);
    assert(forall|j: int| 0 <= j < 10 ==> ss[j] == fakes[j]);
    lemma_chain_congruent(prefix, mu_p, mu_c, ring.points@, cring.points@, cout.bytes@, I.bytes@,
        db, h0, ss, fakes, 10);
    let h10 = chain_h(prefix, mu_p, mu_c, ring.points@, cring.points@, cout.bytes@, I.bytes@, db, h0, fakes, 10);
    lemma_enc32_of_bytes(sig.responses@[0].bytes@);
    assert(sig.responses@[0].bytes@ == enc32(s0_val(alpha.val(), h10, mu_p, mu_c, signing_key.val(), z.val())));
    assert(closing_h(prefix, mu_p, mu_c, ring.points@, cring.points@, cout.bytes@, I.bytes@, db,
        h0, ss, sig.responses@[0]) == round_h_val(prefix, L_0.bytes@, R_0.bytes@));
}

/// Concatenation of the canonical encodings of a sequence of scalars.
pub open spec fn concat_sc_bytes(ss: Seq<Sc>) -> Seq<u8>
    decreases ss.len(),
{
    if ss.len() == 0 {
        Seq::empty()
    } else {
        concat_sc_bytes(ss.drop_last()) + ss.last().bytes@
    }
}

impl Signature {
    /// Serializes the signature in wire order: the eleven responses, then the
    /// initial hash, then the auxiliary image divided by eight.  The key
    /// image travels on the transaction input, not in the signature.
    pub fn to_wire_bytes(&self) -> (r: Vec<u8>)
        requires
            self.wf(),
        ensures
            r@ == concat_sc_bytes(self.responses@) + self.h_0.bytes@ + d8_bytes(self.D.bytes@),
    {
        let mut out: Vec<u8> = Vec::new();
        let mut i: usize = 0;
        while i < 11
            invariant
                i <= 11,
                out@ == concat_sc_bytes(self.responses@.subrange(0, i as int)),
            decreases 11 - i,
        {
            push_arr32(&mut out, &self.responses[i].bytes);
            proof {
                let sub = self.responses@.subrange(0, i + 1);
                assert(sub.drop_last() =~= self.responses@.subrange(0, i as int));
                assert(sub.last() == self.responses@[i as int]);
            }
            i = i + 1;
        }
        proof {
            assert(self.responses@.subrange(0, 11) =~= self.responses@);
        }
        push_arr32(&mut out, &self.h_0.bytes);
        let inv8 = sc_inv_eight();
        let d8 = pt_mul(&inv8, &self.D);
        proof {
            lemma_enc32_of_bytes(inv8.bytes@);
        }
        push_arr32(&mut out, &d8.bytes);
        out
    }
}

/// Assembles a signature from raw parts, rejecting any response or hash out
/// of canonical range and any image that does not decompress.
#[allow(non_snake_case)]
pub fn signature_from_parts(
    responses: &[[u8; 32]; 11],
    h_0: &[u8; 32],
    I: &[u8; 32],
    D: &[u8; 32],
) -> (r: Result<Signature, ClsagError>)
    ensures
        r is Ok <==> (forall|i: int| 0 <= i < 11 ==> sc_canon(responses@[i]@)) && sc_canon(h_0@)
            && pt_valid(I@) && pt_valid(D@),
        r is Ok ==> {
            let sig = r->Ok_0;
            &&& sig.wf()
            &&& (forall|i: int| 0 <= i < 11 ==> sig.responses@[i].bytes@ == responses@[i]@)
            &&& sig.h_0.bytes@ == h_0@
            &&& sig.I.bytes@ == I@
            &&& sig.D.bytes@ == D@
        },
        r is Err ==> r->Err_0 == ClsagError::InvalidSignature,
{
    let mut rs: [Sc; 11] = [Sc { bytes: [0u8; 32] }; 11];
    let mut i: usize = 0;
    while i < 11
        invariant
            i <= 11,
            forall|j: int| 0 <= j < i ==> rs@[j].wf() && rs@[j].bytes@ == responses@[j]@,
        decreases 11 - i,
    {
        match sc_from_canonical_bytes(&responses[i]) {
            Some(s) => {
                rs[i] = s;
            },
            None => {
                return Err(ClsagError::InvalidSignature);
            },
        }
        i = i + 1;
    }
    let h = match sc_from_canonical_bytes(h_0) {
        Some(s) => s,
        None => {
            return Err(ClsagError::InvalidSignature);
        },
    };
    let big_i = match pt_from_bytes(I) {
        Some(p) => p,
        None => {
            return Err(ClsagError::InvalidSignature);
        },
    };
    let big_d = match pt_from_bytes(D) {
        Some(p) => p,
        None => {
            return Err(ClsagError::InvalidSignature);
        },
    };
    Ok(Signature { responses: rs, h_0: h, I: big_i, D: big_d })
}

} // verus!
