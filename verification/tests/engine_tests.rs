use concrete_core::engine::DefaultEngine;
use concrete_core::engine::GlweSeededCiphertextToGlweCiphertextTransformationEngine;
use concrete_core::engine::GlweTransformationError;
use concrete_core::entities::{GlweSeededCiphertext, PlaintextVector};
use concrete_core::parameters::{GlweSize, LweDimension, PolynomialSize};

fn zero_noise(n: usize) -> Vec<u64> {
    vec![0u64; n]
}

#[test]
fn seeded_round_trip_matches_direct_encryption() {
    let mut key_engine = DefaultEngine::new(99);
    let key = key_engine.new_lwe_secret_key(LweDimension(100));

    let plaintexts = PlaintextVector {
        raw: (0..10u64).map(|v| v << 60).collect(),
    };
    let noise = zero_noise(10);

    // Two engines at the same seed: one produces the seeded form, the other
    // the direct full encryption the expansion must reproduce.
    let mut seeded_engine = DefaultEngine::new(7);
    let mut direct_engine = DefaultEngine::new(7);

    let seeded = seeded_engine.encrypt_lwe_seeded_ciphertext_vector(&key, &plaintexts, &noise);
    let direct = direct_engine.encrypt_lwe_ciphertext_vector(&key, &plaintexts, &noise);
    let expanded =
        seeded_engine.transform_lwe_seeded_ciphertext_vector_to_lwe_ciphertext_vector(seeded);

    assert_eq!(expanded.ciphertexts.len(), direct.ciphertexts.len());
    for (a, b) in expanded.ciphertexts.iter().zip(direct.ciphertexts.iter()) {
        assert_eq!(a.mask, b.mask);
        assert_eq!(a.body, b.body);
    }

    let from_expanded = direct_engine.decrypt_lwe_ciphertext_vector(&key, &expanded);
    let from_direct = direct_engine.decrypt_lwe_ciphertext_vector(&key, &direct);
    assert_eq!(from_expanded.raw, from_direct.raw);
    assert_eq!(from_expanded.raw, plaintexts.raw);
}

#[test]
fn expansion_depends_on_the_seed() {
    let mut key_engine = DefaultEngine::new(99);
    let key = key_engine.new_lwe_secret_key(LweDimension(20));
    let plaintexts = PlaintextVector { raw: vec![1u64 << 60; 4] };
    let noise = zero_noise(4);

    let mut first = DefaultEngine::new(1);
    let mut second = DefaultEngine::new(2);
    let a = first.encrypt_lwe_seeded_ciphertext_vector(&key, &plaintexts, &noise);
    let b = second.encrypt_lwe_seeded_ciphertext_vector(&key, &plaintexts, &noise);
    let ea = first.transform_lwe_seeded_ciphertext_vector_to_lwe_ciphertext_vector(a);
    let eb = second.transform_lwe_seeded_ciphertext_vector_to_lwe_ciphertext_vector(b);
    assert_ne!(ea.ciphertexts[0].mask, eb.ciphertexts[0].mask);
}

#[test]
fn glwe_seeded_transformation_keeps_body_and_derives_masks() {
    let mut engine = DefaultEngine::new(5);
    let body: Vec<u64> = (0..16u64).collect();
    let seeded = GlweSeededCiphertext {
        seed: 77,
        polynomial_size: PolynomialSize(16),
        glwe_size: GlweSize(3),
        body: body.clone(),
    };
    let full = engine
        .transform_glwe_seeded_ciphertext_to_glwe_ciphertext(seeded)
        .unwrap();
    assert_eq!(full.coefficients.len(), 48);
    assert_eq!(&full.coefficients[32..48], body.as_slice());

    // The same seed always derives the same masks.
    let again = GlweSeededCiphertext {
        seed: 77,
        polynomial_size: PolynomialSize(16),
        glwe_size: GlweSize(3),
        body,
    };
    let full2 = engine
        .transform_glwe_seeded_ciphertext_to_glwe_ciphertext_unchecked(again);
    assert_eq!(full.coefficients, full2.coefficients);
}

#[test]
fn glwe_seeded_transformation_rejects_malformed_input() {
    let mut engine = DefaultEngine::new(5);
    let seeded = GlweSeededCiphertext {
        seed: 3,
        polynomial_size: PolynomialSize(16),
        glwe_size: GlweSize(3),
        body: vec![0u64; 15],
    };
    let r = engine.transform_glwe_seeded_ciphertext_to_glwe_ciphertext(seeded);
    assert!(matches!(
        r,
        Err(GlweTransformationError::MalformedSeededCiphertext)
    ));
}
