//! The adaptor-signature layer guarding the Bitcoin redeem transaction.
//!
//! A pre-signature binds a statement point `T = t·G`: completing it requires
//! the discrete log `t`, and whoever holds the pre-signature recovers `t`
//! from the completed signature once it is published.  The scalar algebra is
//! verified exactly; the curve checks go through the named point operations.

use crate::ed25519::{
    enc32, g_bytes, group_order, le_val, lemma_enc32_of_bytes, lemma_le_val_injective, pt_add,
    pt_add_spec, pt_basepoint, pt_eq, pt_mul, pt_mul_spec, sc_eq, sc_from_bytes_mod_order,
    sc_from_u64, sc_invert, sc_mul, Pt, Sc,
};
use vstd::prelude::*;

verus! {

/// Errors of the adaptor layer.
#[derive(Clone, Copy, Debug, PartialEq, Eq)]
pub enum AdaptorError {
    /// The published signature is malformed (zero response).
    MalformedSignature,
    /// The recovered scalar does not match the statement point.
    MismatchedStatement,
}

/// A pre-signature: the two nonce images R = k·T and R̂ = k·G, the projected
/// nonce scalar and the encrypted response.
#[derive(Clone, Copy, Debug, PartialEq, Eq)]
pub struct EncryptedSignature {
    pub big_r: Pt,
    pub big_r_hat: Pt,
    pub r: Sc,
    pub s_hat: Sc,
}

impl EncryptedSignature {
    /// Well-formed: scalars canonical, points decompressible.
    pub open spec fn wf(self) -> bool {
        self.big_r.wf() && self.big_r_hat.wf() && self.r.wf() && self.s_hat.wf()
    }
}

/// A completed signature.
#[derive(Clone, Copy, Debug, PartialEq, Eq)]
pub struct EcdsaSignature {
    pub r: Sc,
    pub s: Sc,
}

impl EcdsaSignature {
    /// Well-formed: both scalars canonical.
    pub open spec fn wf(self) -> bool {
        self.r.wf() && self.s.wf()
    }
}

/// Inverses modulo the group order are unique.
proof fn lemma_inv_unique(v: nat, a: nat, b: nat)
    requires
        a < group_order(),
        b < group_order(),
        (v * a) % group_order() == 1,
        (v * b) % group_order() == 1,
    ensures
        a == b,
{
    let l = group_order();
    assert((v * a) * b == (v * b) * a) by (nonlinear_arith);
    vstd::arithmetic::div_mod::lemma_mul_mod_noop_left((v * a) as int, b as int, l as int);
    vstd::arithmetic::div_mod::lemma_mul_mod_noop_left((v * b) as int, a as int, l as int);
    vstd::arithmetic::div_mod::lemma_small_mod(a, l);
    vstd::arithmetic::div_mod::lemma_small_mod(b, l);
}

/// ((a·b) mod ℓ · c) mod ℓ = (a·(b·c mod ℓ)) mod ℓ.
proof fn lemma_mod_mul_assoc(a: nat, b: nat, c: nat)
    ensures
        (((a * b) % group_order()) * c) % group_order() == (a * ((b * c) % group_order()))
            % group_order(),
{
    let l = group_order();
    assert((a * b) * c == a * (b * c)) by (nonlinear_arith);
    vstd::arithmetic::div_mod::lemma_mul_mod_noop_left((a * b) as int, c as int, l as int);
    vstd::arithmetic::div_mod::lemma_mul_mod_noop_right(a as int, (b * c) as int, l as int);
}

/// Produces a pre-signature on a message hash under signing key `x`, nonce
/// `k` and statement point `T`.  The encrypted response satisfies
/// s̃·k ≡ h + r·x, so that k = s̃⁻¹·(h + r·x) re-derives both nonce images.
#[allow(non_snake_case)]
pub fn enc_sign(x: &Sc, k: &Sc, T: &Pt, msg_hash: &Sc) -> (sig: EncryptedSignature)
    requires
        x.wf(),
        k.wf(),
        T.wf(),
        msg_hash.wf(),
        k.val() != 0,
    ensures
        sig.wf(),
        sig.big_r.bytes@ == pt_mul_spec(enc32(k.val()), T.bytes@),
        sig.big_r_hat.bytes@ == pt_mul_spec(enc32(k.val()), g_bytes()),
        sig.r.val() == le_val(sig.big_r.bytes@) % group_order(),
        (sig.s_hat.val() * k.val()) % group_order() == (msg_hash.val() + (sig.r.val() * x.val())
            % group_order()) % group_order(),
{
    let g = pt_basepoint();
    let big_r = pt_mul(k, T);
    let big_r_hat = pt_mul(k, &g);
    proof {
        lemma_enc32_of_bytes(k.bytes@);
    }
    let r = sc_from_bytes_mod_order(&big_r.bytes);
    let k_inv = sc_invert(k);
    let rx = sc_mul(&r, x);
    let h_plus_rx = crate::ed25519::sc_add(msg_hash, &rx);
    let s_hat = sc_mul(&k_inv, &h_plus_rx);
    proof {
        let l = group_order();
        let hv = (msg_hash.val() + (r.val() * x.val()) % l) % l;
        // s̃·k = (k⁻¹·hv mod ℓ)·k ≡ hv·(k⁻¹·k) ≡ hv (mod ℓ)
        assert((s_hat.val() * k.val()) % l == hv) by {
            vstd::arithmetic::div_mod::lemma_mul_mod_noop_left(
                (k_inv.val() * hv) as int, k.val() as int, l as int);
            assert((k_inv.val() * hv) * k.val() == hv * (k.val() * k_inv.val()))
                by (nonlinear_arith);
            vstd::arithmetic::div_mod::lemma_mul_mod_noop_right(
                hv as int, (k.val() * k_inv.val()) as int, l as int);
            vstd::arithmetic::div_mod::lemma_small_mod(hv, l);
        }
    }
    EncryptedSignature { big_r, big_r_hat, r, s_hat }
}

/// Verifies a pre-signature against the verification key `X` without the
/// statement's discrete log: the projected nonce must re-derive R̂ and the
/// nonce scalar must match R.
#[allow(non_snake_case)]
pub fn enc_verify(X: &Pt, T: &Pt, msg_hash: &Sc, sig: &EncryptedSignature) -> (ok: bool)
    requires
        X.wf(),
        T.wf(),
        msg_hash.wf(),
        sig.wf(),
    ensures
        ok <==> sig.s_hat.val() != 0 && sig.r.val() == le_val(sig.big_r.bytes@) % group_order()
            && (exists|w: nat|
            w < group_order() && #[trigger] ((sig.s_hat.val() * w) % group_order()) == 1
                && pt_add_spec(
                pt_mul_spec(enc32((msg_hash.val() * w) % group_order()), g_bytes()),
                pt_mul_spec(enc32((sig.r.val() * w) % group_order()), X.bytes@),
            ) == sig.big_r_hat.bytes@),
{
    let zero = sc_from_u64(0);
    if sc_eq(&sig.s_hat, &zero) {
        return false;
    }
    let s_inv = sc_invert(&sig.s_hat);
    let u1 = sc_mul(msg_hash, &s_inv);
    let u2 = sc_mul(&sig.r, &s_inv);
    let g = pt_basepoint();
    let lhs = pt_add(&pt_mul(&u1, &g), &pt_mul(&u2, X));
    let r_check = sc_from_bytes_mod_order(&sig.big_r.bytes);
    let nonce_ok = pt_eq(&lhs, &sig.big_r_hat);
    let r_ok = sc_eq(&r_check, &sig.r);
    proof {
        lemma_enc32_of_bytes(u1.bytes@);
        lemma_enc32_of_bytes(u2.bytes@);
        let l = group_order();
        let w0 = s_inv.val();
        if nonce_ok {
            assert(w0 < l && (sig.s_hat.val() * w0) % l == 1 && pt_add_spec(
                pt_mul_spec(enc32((msg_hash.val() * w0) % l), g_bytes()),
                pt_mul_spec(enc32((sig.r.val() * w0) % l), X.bytes@),
            ) == sig.big_r_hat.bytes@);
        }
        if exists|w: nat|
            w < l && #[trigger] ((sig.s_hat.val() * w) % l) == 1 && pt_add_spec(
                pt_mul_spec(enc32((msg_hash.val() * w) % l), g_bytes()),
                pt_mul_spec(enc32((sig.r.val() * w) % l), X.bytes@),
            ) == sig.big_r_hat.bytes@ {
            let w = choose|w: nat|
                w < l && #[trigger] ((sig.s_hat.val() * w) % l) == 1 && pt_add_spec(
                    pt_mul_spec(enc32((msg_hash.val() * w) % l), g_bytes()),
                    pt_mul_spec(enc32((sig.r.val() * w) % l), X.bytes@),
                ) == sig.big_r_hat.bytes@;
            lemma_inv_unique(sig.s_hat.val(), w, w0);
            assert(nonce_ok);
        }
    }
    nonce_ok && r_ok
}

/// Completes a pre-signature with the statement's discrete log `t`.  The
/// completed response satisfies s·t ≡ s̃ (mod ℓ).
pub fn decrypt(sig: &EncryptedSignature, t: &Sc) -> (out: EcdsaSignature)
    requires
        sig.wf(),
        t.wf(),
        t.val() != 0,
    ensures
        out.wf(),
        out.r == sig.r,
        (out.s.val() * t.val()) % group_order() == sig.s_hat.val(),
{
    let t_inv = sc_invert(t);
    let s = sc_mul(&sig.s_hat, &t_inv);
    proof {
        let l = group_order();
        lemma_mod_mul_assoc(sig.s_hat.val(), t_inv.val(), t.val());
        assert(t_inv.val() * t.val() == t.val() * t_inv.val()) by (nonlinear_arith);
        vstd::arithmetic::div_mod::lemma_mul_mod_noop_right(
            sig.s_hat.val() as int, (t_inv.val() * t.val()) as int, l as int);
        vstd::arithmetic::div_mod::lemma_small_mod(sig.s_hat.val(), l);
    }
    EcdsaSignature { r: sig.r, s }
}

/// A completed response is nonzero whenever the encrypted one is: the two are
/// related by an invertible factor.
pub proof fn lemma_decrypt_nonzero(sig: EncryptedSignature, t: Sc, out: EcdsaSignature)
    requires
        sig.wf(),
        t.wf(),
        out.wf(),
        sig.s_hat.val() != 0,
        (out.s.val() * t.val()) % group_order() == sig.s_hat.val(),
    ensures
        out.s.val() != 0,
{
    if out.s.val() == 0 {
        assert((0 * t.val()) % group_order() == 0) by (nonlinear_arith);
    }
}

/// Extracts the statement's discrete log from a pre-signature and the
/// published completed signature, checking it against the statement point.
#[allow(non_snake_case)]
pub fn recover(sig: &EncryptedSignature, published: &EcdsaSignature, T: &Pt) -> (out: Result<
    Sc,
    AdaptorError,
>)
    requires
        sig.wf(),
        published.wf(),
        T.wf(),
    ensures
        published.s.val() == 0 ==> out == Result::<Sc, AdaptorError>::Err(
            AdaptorError::MalformedSignature,
        ),
        out is Ok ==> {
            let t = out->Ok_0;
            &&& t.wf()
            &&& (t.val() * published.s.val()) % group_order() == sig.s_hat.val()
            &&& pt_mul_spec(enc32(t.val()), g_bytes()) == T.bytes@
        },
        out is Err ==> published.s.val() == 0 || (exists|v: nat|
            v < group_order() && #[trigger] ((v * published.s.val()) % group_order())
                == sig.s_hat.val() && pt_mul_spec(enc32(v), g_bytes()) != T.bytes@),
{
    let zero = sc_from_u64(0);
    if sc_eq(&published.s, &zero) {
        return Err(AdaptorError::MalformedSignature);
    }
    let s_inv = sc_invert(&published.s);
    let t = sc_mul(&sig.s_hat, &s_inv);
    let g = pt_basepoint();
    let t_pub = pt_mul(&t, &g);
    proof {
        lemma_enc32_of_bytes(t.bytes@);
        let l = group_order();
        lemma_mod_mul_assoc(sig.s_hat.val(), s_inv.val(), published.s.val());
        assert(s_inv.val() * published.s.val() == published.s.val() * s_inv.val())
            by (nonlinear_arith);
        vstd::arithmetic::div_mod::lemma_mul_mod_noop_right(
            sig.s_hat.val() as int, (s_inv.val() * published.s.val()) as int, l as int);
        vstd::arithmetic::div_mod::lemma_small_mod(sig.s_hat.val(), l);
    }
    if pt_eq(&t_pub, T) {
        Ok(t)
    } else {
        proof {
            assert(t.val() < group_order() && (t.val() * published.s.val()) % group_order()
                == sig.s_hat.val() && pt_mul_spec(enc32(t.val()), g_bytes()) != T.bytes@);
        }
        Err(AdaptorError::MismatchedStatement)
    }
}

/// The adaptor law: completing a pre-signature with `t` and then recovering
/// from the completed signature yields `t` itself, and the recovered scalar
/// passes the statement check against T = t·G.  The parameters are the
/// intermediate values exactly as the contracts of `sc_invert`, `decrypt` and
/// `recover` deliver them.
#[allow(non_snake_case)]
pub proof fn lemma_adaptor_recover(
    sig: EncryptedSignature,
    t: Sc,
    s: Sc,
    s_inv_v: nat,
    t2: Sc,
    T: Pt,
)
    requires
        sig.wf(),
        t.wf(),
        s.wf(),
        t2.wf(),
        sig.s_hat.val() != 0,
        t.val() != 0,
        (s.val() * t.val()) % group_order() == sig.s_hat.val(),
        s_inv_v < group_order(),
        (s.val() * s_inv_v) % group_order() == 1,
        t2.val() == (sig.s_hat.val() * s_inv_v) % group_order(),
        T.bytes@ == pt_mul_spec(enc32(t.val()), g_bytes()),
    ensures
        t2 == t,
        pt_mul_spec(enc32(t2.val()), g_bytes()) == T.bytes@,
{
    let l = group_order();
    // t = (t·(s·s⁻¹ mod ℓ)) mod ℓ = ((t·s mod ℓ)·s⁻¹) mod ℓ = (s̃·s⁻¹) mod ℓ = t2
    assert((t.val() * ((s.val() * s_inv_v) % l)) % l == t.val()) by {
        vstd::arithmetic::div_mod::lemma_mul_mod_noop_right(t.val() as int, 1int, l as int);
        vstd::arithmetic::div_mod::lemma_small_mod(t.val(), l);
    }
    assert((t.val() * ((s.val() * s_inv_v) % l)) % l == ((sig.s_hat.val() % l) * s_inv_v) % l) by {
        lemma_mod_mul_assoc(t.val(), s.val(), s_inv_v);
        assert(t.val() * (s.val() * s_inv_v) == (t.val() * s.val()) * s_inv_v)
            by (nonlinear_arith);
        assert(t.val() * ((s.val() * s_inv_v) % l) == ((s.val() * s_inv_v) % l) * t.val())
            by (nonlinear_arith);
        vstd::arithmetic::div_mod::lemma_mul_mod_noop_left((s.val() * s_inv_v) as int,
            t.val() as int, l as int);
        assert((s.val() * s_inv_v) * t.val() == (s.val() * t.val()) * s_inv_v)
            by (nonlinear_arith);
        vstd::arithmetic::div_mod::lemma_mul_mod_noop_left((s.val() * t.val()) as int,
            s_inv_v as int, l as int);
    }
    vstd::arithmetic::div_mod::lemma_small_mod(sig.s_hat.val(), l);
    assert(t2.val() == t.val());
    lemma_le_val_injective(t2.bytes@, t.bytes@);
    assert(t2.bytes =~= t.bytes) by {
        vstd::array::axiom_array_ext_equal(t2.bytes, t.bytes);
        assert(forall|i: int| 0 <= i < 32 ==> t2.bytes[i] == t2.bytes@[i] && t.bytes[i]
            == t.bytes@[i]);
    }
}

} // verus!
