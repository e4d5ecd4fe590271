use concrete_core::engine::DefaultEngine;
use concrete_core::fixture::{
    LweSeededCiphertextVectorEncryptionFixture, VARIANCE_HUNDRED_MILLIONTH_BITS,
};

#[test]
fn fixture_parameters_match_the_fixed_list() {
    assert_eq!(VARIANCE_HUNDRED_MILLIONTH_BITS, (1.0e-8f64).to_bits());
    let params = LweSeededCiphertextVectorEncryptionFixture::generate_parameters_iterator();
    assert_eq!(params.len(), 7);
    let expected = [
        (100usize, 1usize),
        (100, 100),
        (300, 100),
        (600, 100),
        (1000, 100),
        (3000, 100),
        (6000, 100),
    ];
    for (p, (dim, count)) in params.iter().zip(expected.iter()) {
        assert_eq!(p.noise.0, VARIANCE_HUNDRED_MILLIONTH_BITS);
        assert_eq!(p.lwe_dimension.0, *dim);
        assert_eq!(p.lwe_ciphertext_count.0, *count);
    }
}

#[test]
fn fixture_run_recovers_plaintexts_through_the_seeded_path() {
    let params = LweSeededCiphertextVectorEncryptionFixture::generate_parameters_iterator();
    let p = &params[0];
    let mut engine = DefaultEngine::new(2024);
    let key = LweSeededCiphertextVectorEncryptionFixture::generate_random_repetition_prototypes(
        p, &mut engine,
    );
    let plaintexts = LweSeededCiphertextVectorEncryptionFixture::generate_random_sample_prototypes(
        p, &mut engine,
    );
    let proto_key = key.clone();
    let context = LweSeededCiphertextVectorEncryptionFixture::prepare_context(plaintexts, key);
    let noise = vec![0u64; p.lwe_ciphertext_count.0];
    let context = LweSeededCiphertextVectorEncryptionFixture::execute_engine(
        &mut engine,
        context,
        &noise,
    );
    let (inputs, outputs) = LweSeededCiphertextVectorEncryptionFixture::process_context(
        &mut engine,
        &proto_key,
        context,
    );
    assert_eq!(inputs, outputs);
    let criteria =
        LweSeededCiphertextVectorEncryptionFixture::compute_criteria(p);
    assert_eq!(criteria.0, VARIANCE_HUNDRED_MILLIONTH_BITS);
}
