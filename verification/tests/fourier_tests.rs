use concrete_core::entities::GlweCiphertext;
use concrete_core::fourier::{closest_representable, FourierBuffers};
use concrete_core::parameters::{GlweSize, PolynomialSize};

fn sample_lut(poly: usize, glwe: usize, salt: u64) -> GlweCiphertext {
    GlweCiphertext {
        polynomial_size: PolynomialSize(poly),
        glwe_size: GlweSize(glwe),
        coefficients: (0..(poly * glwe) as u64)
            .map(|i| i.wrapping_mul(0x9E37_79B9_7F4A_7C15).wrapping_add(salt))
            .collect(),
    }
}

#[test]
fn buffer_cache_records_its_dimensions() {
    let buffers = FourierBuffers::for_params(PolynomialSize(64), GlweSize(2));
    assert!(buffers.matches_params(PolynomialSize(64), GlweSize(2)));
    assert!(!buffers.matches_params(PolynomialSize(128), GlweSize(2)));
    assert!(!buffers.matches_params(PolynomialSize(64), GlweSize(3)));
    assert_eq!(buffers.lut_buffer.coefficients.len(), 128);
    assert_eq!(buffers.rounded_buffer.coefficients.len(), 128);
    // The transform scratch was allocated at the recorded sizes: two
    // one-polynomial buffers and one accumulator of one polynomial per GLWE
    // polynomial, two words per complex coefficient.
    assert_eq!(buffers.fft_buffers.scratch_lengths(), (128, 128, 256));
}

#[test]
fn buffer_cache_reuse_is_idempotent() {
    // One cache reused across consecutive calls holds, after each call,
    // exactly what a freshly constructed cache would hold.
    let mut reused = FourierBuffers::new(PolynomialSize(64), GlweSize(2));
    for round in 0..3u64 {
        let lut = sample_lut(64, 2, round);
        reused.prepare_bootstrap(&lut, 8, 4);

        let mut fresh = FourierBuffers::new(PolynomialSize(64), GlweSize(2));
        fresh.prepare_bootstrap(&lut, 8, 4);

        assert_eq!(
            reused.lut_buffer.coefficients,
            fresh.lut_buffer.coefficients
        );
        assert_eq!(
            reused.rounded_buffer.coefficients,
            fresh.rounded_buffer.coefficients
        );
    }
}

#[test]
fn closest_representable_rounds_to_kept_bits() {
    // Keeping 32 bits: values round to the nearest multiple of 2^32.
    let step = 1u64 << 32;
    assert_eq!(closest_representable(0, 8, 4), 0);
    assert_eq!(closest_representable(step, 8, 4), step);
    assert_eq!(closest_representable(step + (step >> 1), 8, 4), 2 * step);
    assert_eq!(closest_representable(step + (step >> 1) - 1, 8, 4), step);
}
