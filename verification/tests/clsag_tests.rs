use swap_core::clsag::{
    hash_point, sc_inv_eight, sign, signature_from_parts, verify, Ring, Signature, RING_SIZE,
};
use swap_core::ed25519::{pt_add, pt_basepoint, pt_mul, sc_add, sc_from_u64, Pt, Sc};

const INV_EIGHT_BYTES: [u8; 32] = [
    121, 47, 220, 226, 41, 229, 6, 97, 208, 218, 28, 125, 179, 157, 211, 7, 0, 0, 0, 0, 0, 0, 0,
    0, 0, 0, 0, 0, 0, 0, 0, 6,
];

#[test]
fn const_is_inv_eight() {
    let inv_eight = curve25519_dalek::scalar::Scalar::from(8u8).invert();

    assert_eq!(inv_eight, curve25519_dalek::scalar::Scalar::from_bits(INV_EIGHT_BYTES));
}

#[test]
fn library_inv_eight_matches_constant() {
    let inv8 = sc_inv_eight();
    assert_eq!(inv8.bytes, INV_EIGHT_BYTES);
}

struct TestInputs {
    msg: Vec<u8>,
    signing_key: Sc,
    h_p_pk: Pt,
    alpha: Sc,
    ring: Ring,
    commitment_ring: Ring,
    fake_responses: [Sc; 10],
    z: Sc,
    pseudo_output_commitment: Pt,
    l_0: Pt,
    r_0: Pt,
    key_image: Pt,
}

/// Builds a deterministic, valid set of signing inputs whose real index is 0.
fn test_inputs(msg: &[u8]) -> TestInputs {
    let g = pt_basepoint();
    let x = sc_from_u64(5);
    let pk = pt_mul(&x, &g);
    let h_p_pk = hash_point(&pk);

    let alpha = sc_from_u64(7);
    let z = sc_from_u64(3);

    let mut ring_points = [pk; RING_SIZE];
    for i in 1..RING_SIZE {
        let s = sc_from_u64(100 + i as u64);
        ring_points[i] = pt_mul(&s, &g);
    }
    let ring = Ring::new(ring_points);

    // commitment_ring[0] - pseudo_output_commitment = z·G
    let c0 = sc_from_u64(41);
    let pseudo_output_commitment = pt_mul(&c0, &g);
    let mut cring_points = [pt_mul(&sc_add(&c0, &z), &g); RING_SIZE];
    for i in 1..RING_SIZE {
        let s = sc_from_u64(200 + i as u64);
        cring_points[i] = pt_mul(&s, &g);
    }
    let commitment_ring = Ring::new(cring_points);

    let fake_responses = [
        sc_from_u64(301),
        sc_from_u64(302),
        sc_from_u64(303),
        sc_from_u64(304),
        sc_from_u64(305),
        sc_from_u64(306),
        sc_from_u64(307),
        sc_from_u64(308),
        sc_from_u64(309),
        sc_from_u64(310),
    ];

    let l_0 = pt_mul(&alpha, &g);
    let r_0 = pt_mul(&alpha, &h_p_pk);
    let key_image = pt_mul(&x, &h_p_pk);

    TestInputs {
        msg: msg.to_vec(),
        signing_key: x,
        h_p_pk,
        alpha,
        ring,
        commitment_ring,
        fake_responses,
        z,
        pseudo_output_commitment,
        l_0,
        r_0,
        key_image,
    }
}

fn sign_inputs(t: &TestInputs) -> Signature {
    sign(
        &t.msg,
        &t.signing_key,
        &t.h_p_pk,
        &t.alpha,
        &t.ring,
        &t.commitment_ring,
        &t.fake_responses,
        &t.z,
        &t.pseudo_output_commitment,
        &t.l_0,
        &t.r_0,
        &t.key_image,
    )
}

#[test]
fn sign_and_verify() {
    let msg_to_sign = b"hello world, monero is amazing!!";
    let t = test_inputs(msg_to_sign);
    let signature = sign_inputs(&t);

    assert!(verify(
        &signature,
        &t.ring,
        &t.commitment_ring,
        &t.pseudo_output_commitment,
        &t.msg
    ));
}

#[test]
fn verify_rejects_flipped_message_byte() {
    let t = test_inputs(b"hello world, monero is amazing!!");
    let signature = sign_inputs(&t);
    for i in 0..t.msg.len() {
        let mut msg = t.msg.clone();
        msg[i] ^= 1;
        assert!(!verify(
            &signature,
            &t.ring,
            &t.commitment_ring,
            &t.pseudo_output_commitment,
            &msg
        ));
    }
}

fn reparse_and_verify_fails(sig: &Signature, t: &TestInputs) {
    let responses: [[u8; 32]; 11] = [
        sig.responses[0].bytes,
        sig.responses[1].bytes,
        sig.responses[2].bytes,
        sig.responses[3].bytes,
        sig.responses[4].bytes,
        sig.responses[5].bytes,
        sig.responses[6].bytes,
        sig.responses[7].bytes,
        sig.responses[8].bytes,
        sig.responses[9].bytes,
        sig.responses[10].bytes,
    ];
    match signature_from_parts(&responses, &sig.h_0.bytes, &sig.I.bytes, &sig.D.bytes) {
        Ok(parsed) => {
            assert!(!verify(
                &parsed,
                &t.ring,
                &t.commitment_ring,
                &t.pseudo_output_commitment,
                &t.msg
            ));
        }
        Err(_) => {}
    }
}

#[test]
fn verify_rejects_flipped_response_byte() {
    let t = test_inputs(b"hello world, monero is amazing!!");
    for i in 0..11 {
        let mut sig = sign_inputs(&t);
        sig.responses[i].bytes[0] ^= 1;
        reparse_and_verify_fails(&sig, &t);
    }
}

#[test]
fn verify_rejects_flipped_h0_byte() {
    let t = test_inputs(b"hello world, monero is amazing!!");
    let mut sig = sign_inputs(&t);
    sig.h_0.bytes[0] ^= 1;
    reparse_and_verify_fails(&sig, &t);
}

#[test]
fn verify_rejects_flipped_key_image_byte() {
    let t = test_inputs(b"hello world, monero is amazing!!");
    let mut sig = sign_inputs(&t);
    sig.I.bytes[0] ^= 1;
    reparse_and_verify_fails(&sig, &t);
}

#[test]
fn verify_rejects_flipped_auxiliary_image_byte() {
    let t = test_inputs(b"hello world, monero is amazing!!");
    let mut sig = sign_inputs(&t);
    sig.D.bytes[0] ^= 1;
    reparse_and_verify_fails(&sig, &t);
}

#[test]
fn verify_rejects_changed_ring_point() {
    let t = test_inputs(b"hello world, monero is amazing!!");
    let sig = sign_inputs(&t);
    let g = pt_basepoint();
    let mut points = t.ring.points;
    points[4] = pt_mul(&sc_from_u64(999), &g);
    let other_ring = Ring::new(points);
    assert!(!verify(
        &sig,
        &other_ring,
        &t.commitment_ring,
        &t.pseudo_output_commitment,
        &t.msg
    ));
}

#[test]
fn aggregation_binds_commitment_ring() {
    // Changing the commitment ring while keeping the key ring fixed must
    // break verification: the aggregation scalars depend on both rings.
    let t = test_inputs(b"hello world, monero is amazing!!");
    let sig = sign_inputs(&t);
    let g = pt_basepoint();
    let mut points = t.commitment_ring.points;
    points[5] = pt_mul(&sc_from_u64(888), &g);
    let other_cring = Ring::new(points);
    assert!(!verify(
        &sig,
        &t.ring,
        &other_cring,
        &t.pseudo_output_commitment,
        &t.msg
    ));
}

#[test]
fn one_eighth_round_trips() {
    // 8 · (P · (1/8)) = P for points in the prime-order subgroup.
    let g = pt_basepoint();
    let inv8 = sc_inv_eight();
    let eight = sc_from_u64(8);
    for seed in [1u64, 7, 42, 123456789] {
        let p = pt_mul(&sc_from_u64(seed), &g);
        let divided = pt_mul(&inv8, &p);
        let back = pt_mul(&eight, &divided);
        assert_eq!(back, p);
    }
}

#[test]
fn wire_bytes_layout() {
    let t = test_inputs(b"hello world, monero is amazing!!");
    let sig = sign_inputs(&t);
    let wire = sig.to_wire_bytes();
    assert_eq!(wire.len(), 13 * 32);
    for i in 0..11 {
        assert_eq!(&wire[i * 32..(i + 1) * 32], &sig.responses[i].bytes);
    }
    assert_eq!(&wire[11 * 32..12 * 32], &sig.h_0.bytes);
    // The trailing 32 bytes are D/8; multiplying back by 8 gives D.
    let mut d8_bytes = [0u8; 32];
    d8_bytes.copy_from_slice(&wire[12 * 32..]);
    let d8 = curve25519_dalek::edwards::CompressedEdwardsY(d8_bytes).decompress().unwrap();
    let d = curve25519_dalek::edwards::CompressedEdwardsY(sig.D.bytes).decompress().unwrap();
    assert_eq!(d8 * curve25519_dalek::scalar::Scalar::from(8u64), d);
}

#[test]
fn signature_from_parts_rejects_invalid_point() {
    let t = test_inputs(b"hello world, monero is amazing!!");
    let sig = sign_inputs(&t);
    let responses: [[u8; 32]; 11] = [
        sig.responses[0].bytes,
        sig.responses[1].bytes,
        sig.responses[2].bytes,
        sig.responses[3].bytes,
        sig.responses[4].bytes,
        sig.responses[5].bytes,
        sig.responses[6].bytes,
        sig.responses[7].bytes,
        sig.responses[8].bytes,
        sig.responses[9].bytes,
        sig.responses[10].bytes,
    ];
    // A scalar far above the group order is rejected as a response.
    let mut bad = responses;
    bad[0] = [0xffu8; 32];
    assert!(signature_from_parts(&bad, &sig.h_0.bytes, &sig.I.bytes, &sig.D.bytes).is_err());
}

#[test]
fn ring_from_bytes_round_trips() {
    let t = test_inputs(b"hello world, monero is amazing!!");
    let mut bytes = [[0u8; 32]; 11];
    for i in 0..11 {
        bytes[i] = t.ring.points[i].bytes;
    }
    let ring = swap_core::clsag::ring_from_bytes(&bytes).unwrap();
    assert_eq!(ring, t.ring);
}

#[test]
fn pt_add_matches_dalek() {
    // The trusted point wrappers agree with direct curve arithmetic.
    let g = pt_basepoint();
    let a = pt_mul(&sc_from_u64(3), &g);
    let b = pt_mul(&sc_from_u64(4), &g);
    let sum = pt_add(&a, &b);
    let seven = pt_mul(&sc_from_u64(7), &g);
    assert_eq!(sum, seven);
}

#[test]
fn sign_known_answer() {
    // The deterministic test vector: ring[0] = 5·G, x = 5, α = 7, z = 3,
    // fake responses 301..=310, commitment blinding 41.
    let t = test_inputs(b"hello world, monero is amazing!!");
    let sig = sign_inputs(&t);
    let mut wire_hex = String::new();
    for b in sig.to_wire_bytes() {
        wire_hex.push_str(&format!("{:02x}", b));
    }
    let mut i_hex = String::new();
    for b in sig.I.bytes {
        i_hex.push_str(&format!("{:02x}", b));
    }
    assert_eq!(i_hex, "561908687fba795347264ee1c9153a1971793556bf020f031cc2e43e932048e3");
    let expected_wire = "2ff39ad160da39f6762e249ffb4ec906ce4acc31eea3e863f15127bc99f2060b2d010000000000000000000000000000000000000000000000000000000000002e010000000000000000000000000000000000000000000000000000000000002f0100000000000000000000000000000000000000000000000000000000000030010000000000000000000000000000000000000000000000000000000000003101000000000000000000000000000000000000000000000000000000000000320100000000000000000000000000000000000000000000000000000000000033010000000000000000000000000000000000000000000000000000000000003401000000000000000000000000000000000000000000000000000000000000350100000000000000000000000000000000000000000000000000000000000036010000000000000000000000000000000000000000000000000000000000008a43e282e136e3577ccf35987a9df299707c162713091d900b147c52abcfb109c1c0c13641558df52817548a26b68baa5d86fba68433b772de757f85785e606b";
    assert_eq!(wire_hex, expected_wire);
}

#[test]
fn pt_sub_matches_dalek() {
    let g = pt_basepoint();
    let seven = pt_mul(&sc_from_u64(7), &g);
    let three = pt_mul(&sc_from_u64(3), &g);
    let four = pt_mul(&sc_from_u64(4), &g);
    assert_eq!(swap_core::ed25519::pt_sub(&seven, &three), four);
}

#[test]
fn sign_and_verify_empty_message() {
    let t = test_inputs(b"");
    let signature = sign_inputs(&t);
    assert!(verify(
        &signature,
        &t.ring,
        &t.commitment_ring,
        &t.pseudo_output_commitment,
        &t.msg
    ));
}

#[test]
fn point_validation_agrees_with_curve_arithmetic() {
    // The trusted decompression check agrees with the curve library on both
    // valid and invalid encodings.
    for i in 0..=255u8 {
        let mut bytes = [0u8; 32];
        bytes[0] = i;
        let via_library = swap_core::ed25519::pt_from_bytes(&bytes).is_some();
        let via_curve =
            curve25519_dalek::edwards::CompressedEdwardsY(bytes).decompress().is_some();
        assert_eq!(via_library, via_curve);
    }
}
