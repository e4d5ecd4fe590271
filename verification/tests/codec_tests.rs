use concrete_core::codec::{
    deserialize_fft_fourier_lwe_bootstrap_key, serialize_fft_fourier_lwe_bootstrap_key,
    EntityDeserializationError, FftFourierLweBootstrapKey64, FOURIER_BOOTSTRAP_KEY_TAG,
};
use concrete_core::parameters::{
    DecompositionBaseLog, DecompositionLevelCount, GlweSize, LweDimension, PolynomialSize,
};

fn sample_key() -> FftFourierLweBootstrapKey64 {
    FftFourierLweBootstrapKey64 {
        input_lwe_dimension: LweDimension(600),
        glwe_size: GlweSize(2),
        polynomial_size: PolynomialSize(8),
        decomposition_base_log: DecompositionBaseLog(7),
        decomposition_level_count: DecompositionLevelCount(3),
        fourier_data: (0..32u64).map(|i| i.wrapping_mul(0xD6E8_FEB8_6659_FD93)).collect(),
    }
}

#[test]
fn bootstrap_key_serialization_round_trips() {
    let key = sample_key();
    let bytes = serialize_fft_fourier_lwe_bootstrap_key(&key);
    assert_eq!(bytes[0], FOURIER_BOOTSTRAP_KEY_TAG);
    assert_eq!(bytes.len(), 49 + 8 * key.fourier_data.len());
    let back = deserialize_fft_fourier_lwe_bootstrap_key(&bytes).unwrap();
    assert_eq!(back.input_lwe_dimension, key.input_lwe_dimension);
    assert_eq!(back.glwe_size, key.glwe_size);
    assert_eq!(back.polynomial_size, key.polynomial_size);
    assert_eq!(back.decomposition_base_log, key.decomposition_base_log);
    assert_eq!(back.decomposition_level_count, key.decomposition_level_count);
    assert_eq!(back.fourier_data, key.fourier_data);
}

#[test]
fn bootstrap_key_deserialization_rejects_wrong_tag() {
    let mut bytes = serialize_fft_fourier_lwe_bootstrap_key(&sample_key());
    bytes[0] = bytes[0].wrapping_add(1);
    assert!(matches!(
        deserialize_fft_fourier_lwe_bootstrap_key(&bytes),
        Err(EntityDeserializationError::WrongEntityType)
    ));
    assert!(matches!(
        deserialize_fft_fourier_lwe_bootstrap_key(&Vec::new()),
        Err(EntityDeserializationError::WrongEntityType)
    ));
}

#[test]
fn bootstrap_key_deserialization_rejects_truncated_header() {
    let bytes = serialize_fft_fourier_lwe_bootstrap_key(&sample_key());
    let short = bytes[..20].to_vec();
    assert!(matches!(
        deserialize_fft_fourier_lwe_bootstrap_key(&short),
        Err(EntityDeserializationError::TruncatedHeader)
    ));
}

#[test]
fn bootstrap_key_deserialization_rejects_length_mismatch() {
    let mut bytes = serialize_fft_fourier_lwe_bootstrap_key(&sample_key());
    bytes.pop();
    assert!(matches!(
        deserialize_fft_fourier_lwe_bootstrap_key(&bytes),
        Err(EntityDeserializationError::LengthMismatch)
    ));
    let mut extended = serialize_fft_fourier_lwe_bootstrap_key(&sample_key());
    extended.extend_from_slice(&[0u8; 8]);
    assert!(matches!(
        deserialize_fft_fourier_lwe_bootstrap_key(&extended),
        Err(EntityDeserializationError::LengthMismatch)
    ));
}
