use concrete_core::cuda::{
    convert_lwe_keyswitch_key_to_gpus, execute_lwe_ciphertext_vector_keyswitch_on_gpu,
    gather_lwe_ciphertext_vector_from_gpus, split_lwe_ciphertext_vector_across_gpus, CudaLweList,
};
use concrete_core::engine::DefaultEngine;
use concrete_core::entities::PlaintextVector;
use concrete_core::keyswitch::{keyswitch_lwe_ciphertext_vector, LweKeyswitchError};
use concrete_core::parameters::{
    DecompositionBaseLog, DecompositionLevelCount, LweCiphertextCount, LweDimension, NumberOfGpus,
};

fn zero_noise(n: usize) -> Vec<u64> {
    vec![0u64; n]
}

/// Encodes a small value in the top four bits of a torus word.
fn encode(v: u64) -> u64 {
    v << 60
}

#[test]
fn checked_keyswitch_rejects_dimension_mismatch() {
    let mut engine = DefaultEngine::new(11);
    let input_key = engine.new_lwe_secret_key(LweDimension(600));
    let output_key = engine.new_lwe_secret_key(LweDimension(100));
    let ksk = engine.new_lwe_keyswitch_key(
        &input_key,
        &output_key,
        DecompositionLevelCount(8),
        DecompositionBaseLog(8),
        &zero_noise(600 * 8),
    );

    // A ciphertext vector of dimension 100 against a key expecting 600.
    let small_key = engine.new_lwe_secret_key(LweDimension(100));
    let plaintexts = PlaintextVector { raw: vec![encode(1); 3] };
    let cts = engine.encrypt_lwe_ciphertext_vector(&small_key, &plaintexts, &zero_noise(3));
    let r = keyswitch_lwe_ciphertext_vector(&ksk, &cts);
    assert!(matches!(r, Err(LweKeyswitchError::InputLweDimensionMismatch)));
}

#[test]
fn end_to_end_seeded_keyswitch_scenario() {
    // Encrypt 100 plaintexts under LWE dimension 600, convert to seeded
    // form, transform back to the full form, key switch to dimension 100,
    // decrypt, and recover every plaintext within the noise bound (exactly,
    // since the noise supplied here is zero and the decomposition is exact).
    let mut engine = DefaultEngine::new(4242);
    let big_key = engine.new_lwe_secret_key(LweDimension(600));
    let small_key = engine.new_lwe_secret_key(LweDimension(100));
    let ksk = engine.new_lwe_keyswitch_key(
        &big_key,
        &small_key,
        DecompositionLevelCount(8),
        DecompositionBaseLog(8),
        &zero_noise(600 * 8),
    );

    let values: Vec<u64> = (0..100u64).map(|v| v % 16).collect();
    let plaintexts = PlaintextVector {
        raw: values.iter().map(|&v| encode(v)).collect(),
    };
    let seeded =
        engine.encrypt_lwe_seeded_ciphertext_vector(&big_key, &plaintexts, &zero_noise(100));
    let full = engine.transform_lwe_seeded_ciphertext_vector_to_lwe_ciphertext_vector(seeded);

    let switched = keyswitch_lwe_ciphertext_vector(&ksk, &full).unwrap();
    assert_eq!(switched.lwe_dimension, LweDimension(100));

    let decrypted = engine.decrypt_lwe_ciphertext_vector(&small_key, &switched);
    for (d, &v) in decrypted.raw.iter().zip(values.iter()) {
        // Round the recovered torus word to its top four bits.
        let rounded = (d.wrapping_add(1u64 << 59)) >> 60;
        assert_eq!(rounded & 0xF, v);
    }
}

#[test]
fn gpu_dispatch_matches_single_device_keyswitch() {
    let mut engine = DefaultEngine::new(5150);
    let big_key = engine.new_lwe_secret_key(LweDimension(60));
    let small_key = engine.new_lwe_secret_key(LweDimension(20));
    let ksk = engine.new_lwe_keyswitch_key(
        &big_key,
        &small_key,
        DecompositionLevelCount(8),
        DecompositionBaseLog(8),
        &zero_noise(60 * 8),
    );

    let values: Vec<u64> = (0..10u64).collect();
    let plaintexts = PlaintextVector {
        raw: values.iter().map(|&v| encode(v)).collect(),
    };
    let cts = engine.encrypt_lwe_ciphertext_vector(&big_key, &plaintexts, &zero_noise(10));

    // Reference result on one device's worth of work.
    let reference = keyswitch_lwe_ciphertext_vector(&ksk, &cts).unwrap();

    // Split over three devices, dispatch, gather.
    let gpus = NumberOfGpus(3);
    let input_list = split_lwe_ciphertext_vector_across_gpus(&cts, gpus);
    assert_eq!(input_list.d_vecs.len(), 3);
    assert_eq!(input_list.d_vecs[0].ciphertexts.len(), 4);
    assert_eq!(input_list.d_vecs[1].ciphertexts.len(), 3);
    assert_eq!(input_list.d_vecs[2].ciphertexts.len(), 3);

    let gpu_key = convert_lwe_keyswitch_key_to_gpus(&ksk, gpus);
    let mut output_list = CudaLweList {
        d_vecs: Vec::new(),
        lwe_dimension: LweDimension(20),
        lwe_ciphertext_count: LweCiphertextCount(0),
    };
    execute_lwe_ciphertext_vector_keyswitch_on_gpu(&mut output_list, &input_list, &gpu_key, gpus);
    let gathered = gather_lwe_ciphertext_vector_from_gpus(output_list);

    assert_eq!(gathered.ciphertexts.len(), reference.ciphertexts.len());
    for (a, b) in gathered.ciphertexts.iter().zip(reference.ciphertexts.iter()) {
        assert_eq!(a.mask, b.mask);
        assert_eq!(a.body, b.body);
    }

    let decrypted = engine.decrypt_lwe_ciphertext_vector(&small_key, &gathered);
    for (d, &v) in decrypted.raw.iter().zip(values.iter()) {
        let rounded = (d.wrapping_add(1u64 << 59)) >> 60;
        assert_eq!(rounded & 0xF, v);
    }
}
