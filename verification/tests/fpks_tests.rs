use concrete_core::cuda::split_lwe_ciphertext_vector_across_gpus;
use concrete_core::entities::{LweCiphertext, LweCiphertextVector};
use concrete_core::fpks::{
    execute_lwe_ciphertext_vector_fp_keyswitch_on_gpu, CudaGlweCiphertext,
    CudaLwePrivateFunctionalPackingKeyswitchKeyList, LwePrivateFunctionalPackingKeyswitchKeyList,
};
use concrete_core::parameters::{
    DecompositionBaseLog, DecompositionLevelCount, FunctionalPackingKeyswitchKeyCount,
    GlweDimension, LweDimension, NumberOfGpus, PolynomialSize,
};

fn sample_key() -> LwePrivateFunctionalPackingKeyswitchKeyList {
    let rows: Vec<Vec<u64>> = (0..(4 + 1) * 2)
        .map(|t| {
            (0..16u64)
                .map(|j| (t as u64).wrapping_mul(0xA076_1D64_78BD_642F).wrapping_add(j * 17 + 3))
                .collect()
        })
        .collect();
    LwePrivateFunctionalPackingKeyswitchKeyList {
        input_lwe_key_dimension: LweDimension(4),
        output_glwe_key_dimension: GlweDimension(1),
        output_polynomial_size: PolynomialSize(8),
        decomposition_level_count: DecompositionLevelCount(2),
        decomposition_base_log: DecompositionBaseLog(8),
        fpksk_count: FunctionalPackingKeyswitchKeyCount(1),
        rows,
    }
}

fn sample_batch() -> LweCiphertextVector {
    let ciphertexts: Vec<LweCiphertext> = (0..6u64)
        .map(|k| LweCiphertext {
            mask: (0..4u64).map(|i| k.wrapping_mul(0x5851_F42D_4C95_7F2D).wrapping_add(i)).collect(),
            body: k.wrapping_mul(0x1405_7B7E_F767_814F),
        })
        .collect();
    LweCiphertextVector {
        lwe_dimension: LweDimension(4),
        ciphertexts,
    }
}

fn run(gpus: usize) -> Vec<u64> {
    let batch = sample_batch();
    let list = split_lwe_ciphertext_vector_across_gpus(&batch, NumberOfGpus(gpus));
    let keys = CudaLwePrivateFunctionalPackingKeyswitchKeyList {
        d_vecs: (0..gpus).map(|_| sample_key()).collect(),
        input_lwe_key_dimension: LweDimension(4),
        output_glwe_key_dimension: GlweDimension(1),
        output_polynomial_size: PolynomialSize(8),
        decomposition_level_count: DecompositionLevelCount(2),
        decomposition_base_log: DecompositionBaseLog(8),
        fpksk_count: FunctionalPackingKeyswitchKeyCount(1),
    };
    let mut output = CudaGlweCiphertext {
        d_vec: vec![0u64; 16],
        glwe_dimension: GlweDimension(1),
        polynomial_size: PolynomialSize(8),
    };
    execute_lwe_ciphertext_vector_fp_keyswitch_on_gpu(
        &mut output,
        &list,
        &keys,
        NumberOfGpus(gpus),
    );
    output.d_vec
}

#[test]
fn fp_keyswitch_folds_the_whole_batch() {
    let single = run(1);
    assert_ne!(single, vec![0u64; 16]);
}

#[test]
fn fp_keyswitch_result_is_independent_of_the_partition() {
    // The same batch folded on one, two or three devices gives the same
    // accumulator, because shards are contiguous and folded in device order.
    let single = run(1);
    assert_eq!(run(2), single);
    assert_eq!(run(3), single);
}

#[test]
fn fp_keyswitch_ignores_trailing_devices_without_work() {
    let single = run(1);
    assert_eq!(run(8), single);
}
