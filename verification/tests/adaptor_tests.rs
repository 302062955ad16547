use swap_core::adaptor::{decrypt, enc_sign, enc_verify, recover, AdaptorError, EcdsaSignature};
use swap_core::ed25519::{pt_basepoint, pt_mul, sc_from_u64, Sc};

#[test]
fn adaptor_round_trip_recovers_secret() {
    // recover(σ̃, decrypt(σ̃, t), t·G) = t
    let g = pt_basepoint();
    let x = sc_from_u64(11);
    let big_x = pt_mul(&x, &g);
    let k = sc_from_u64(13);
    let t = sc_from_u64(17);
    let big_t = pt_mul(&t, &g);
    let h = sc_from_u64(19);

    let pre = enc_sign(&x, &k, &big_t, &h);
    assert!(enc_verify(&big_x, &big_t, &h, &pre));

    let sig = decrypt(&pre, &t);
    let recovered = recover(&pre, &sig, &big_t).unwrap();
    assert_eq!(recovered, t);
}

#[test]
fn adaptor_round_trip_many_secrets() {
    let g = pt_basepoint();
    let x = sc_from_u64(23);
    let k = sc_from_u64(29);
    let h = sc_from_u64(31);
    for t_val in [1u64, 2, 1000, 987654321] {
        let t = sc_from_u64(t_val);
        let big_t = pt_mul(&t, &g);
        let pre = enc_sign(&x, &k, &big_t, &h);
        let sig = decrypt(&pre, &t);
        assert_eq!(recover(&pre, &sig, &big_t).unwrap(), t);
    }
}

#[test]
fn enc_verify_rejects_wrong_key() {
    let g = pt_basepoint();
    let x = sc_from_u64(11);
    let k = sc_from_u64(13);
    let t = sc_from_u64(17);
    let big_t = pt_mul(&t, &g);
    let h = sc_from_u64(19);
    let pre = enc_sign(&x, &k, &big_t, &h);

    let wrong_x = pt_mul(&sc_from_u64(12), &g);
    assert!(!enc_verify(&wrong_x, &big_t, &h, &pre));
}

#[test]
fn recover_rejects_zero_response() {
    let g = pt_basepoint();
    let x = sc_from_u64(11);
    let k = sc_from_u64(13);
    let t = sc_from_u64(17);
    let big_t = pt_mul(&t, &g);
    let h = sc_from_u64(19);
    let pre = enc_sign(&x, &k, &big_t, &h);

    let zero_sig = EcdsaSignature { r: pre.r, s: sc_from_u64(0) };
    assert_eq!(recover(&pre, &zero_sig, &big_t), Err(AdaptorError::MalformedSignature));
}

#[test]
fn recover_rejects_mismatched_statement() {
    let g = pt_basepoint();
    let x = sc_from_u64(11);
    let k = sc_from_u64(13);
    let t = sc_from_u64(17);
    let big_t = pt_mul(&t, &g);
    let h = sc_from_u64(19);
    let pre = enc_sign(&x, &k, &big_t, &h);
    let sig = decrypt(&pre, &t);

    let other_t = pt_mul(&sc_from_u64(18), &g);
    assert_eq!(recover(&pre, &sig, &other_t), Err(AdaptorError::MismatchedStatement));
}

#[test]
fn decrypt_then_completed_signature_differs_from_presignature() {
    let g = pt_basepoint();
    let x = sc_from_u64(11);
    let k = sc_from_u64(13);
    let t = sc_from_u64(17);
    let big_t = pt_mul(&t, &g);
    let h = sc_from_u64(19);
    let pre = enc_sign(&x, &k, &big_t, &h);
    let sig = decrypt(&pre, &t);
    assert_eq!(sig.r, pre.r);
    assert_ne!(sig.s, pre.s_hat);
}

#[test]
fn keccak_digest_matches_known_answer() {
    // Keccak-256 of the empty string, to pin the trusted digest wrapper to
    // the real function.
    let digest = swap_core::ed25519::keccak256_digest(&Vec::new());
    let expected: [u8; 32] = [
        0xc5, 0xd2, 0x46, 0x01, 0x86, 0xf7, 0x23, 0x3c, 0x92, 0x7e, 0x7d, 0xb2, 0xdc, 0xc7, 0x03,
        0xc0, 0xe5, 0x00, 0xb6, 0x53, 0xca, 0x82, 0x27, 0x3b, 0x7b, 0xfa, 0xd8, 0x04, 0x5d, 0x85,
        0xa4, 0x70,
    ];
    assert_eq!(digest, expected);
}

#[test]
fn sc_arithmetic_matches_modular_arithmetic() {
    // a + b and a·b for small values, against plain integers.
    let a = sc_from_u64(1234567);
    let b = sc_from_u64(89);
    let sum = swap_core::ed25519::sc_add(&a, &b);
    assert_eq!(sum, sc_from_u64(1234567 + 89));
    let prod = swap_core::ed25519::sc_mul(&a, &b);
    assert_eq!(prod, sc_from_u64(1234567 * 89));
    let diff = swap_core::ed25519::sc_sub(&a, &b);
    assert_eq!(diff, sc_from_u64(1234567 - 89));
}

#[test]
fn sc_from_canonical_bytes_rejects_large_values() {
    assert!(swap_core::ed25519::sc_from_canonical_bytes(&[0xff; 32]).is_none());
    let five = sc_from_u64(5);
    let parsed: Sc = swap_core::ed25519::sc_from_canonical_bytes(&five.bytes).unwrap();
    assert_eq!(parsed, five);
}
