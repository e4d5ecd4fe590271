use concrete_core::engine::DefaultEngine;
use concrete_core::entities::PlaintextVector;
use concrete_core::parameters::LweDimension;
use concrete_csprng::generators::{RandomGenerator, SoftwareRandomGenerator};
use concrete_csprng::seeders::Seed;

const TWO_POW_64: f64 = 18446744073709551616.0;

/// Uniform values in (0, 1) drawn from the cryptographic generator.
struct Uniform {
    generator: SoftwareRandomGenerator,
}

impl Uniform {
    fn new(seed: u128) -> Self {
        Uniform {
            generator: SoftwareRandomGenerator::new(Seed(seed)),
        }
    }

    fn next_word(&mut self) -> u64 {
        let mut w = 0u64;
        for _ in 0..8 {
            w = (w << 8) | self.generator.next().unwrap() as u64;
        }
        w
    }

    fn next_unit(&mut self) -> f64 {
        (((self.next_word() >> 11) + 1) as f64) / ((1u64 << 53) as f64 + 2.0)
    }

    /// One centered gaussian sample of the given standard deviation.
    fn next_gaussian(&mut self, sigma: f64) -> f64 {
        let u1 = self.next_unit();
        let u2 = self.next_unit();
        sigma * (-2.0 * u1.ln()).sqrt() * (2.0 * std::f64::consts::PI * u2).cos()
    }
}

/// Encodes a real in (-0.5, 0.5) as a torus word.
fn encode_torus(x: f64) -> u64 {
    (x * TWO_POW_64) as i128 as u64
}

/// Decodes a torus word back to the centered real it stands for.
fn decode_torus(w: u64) -> f64 {
    (w as i64) as f64 / TWO_POW_64
}

/// Whether the empirical variance of the samples is consistent with the
/// expected variance.
fn variance_is_consistent(samples: &[f64], expected: f64) -> bool {
    let n = samples.len() as f64;
    let mean: f64 = samples.iter().sum::<f64>() / n;
    let var: f64 = samples.iter().map(|x| (x - mean) * (x - mean)).sum::<f64>() / (n - 1.0);
    var >= 0.6 * expected && var <= 1.5 * expected
}

#[test]
fn noise_distribution_is_accepted_at_the_configured_variance() {
    let variance = 1.0e-8f64;
    let sigma = variance.sqrt();
    let repetitions = 1000usize;
    let dimension = 100usize;

    let mut uniform = Uniform::new(314159);
    let mut engine = DefaultEngine::new(2718);
    let key = engine.new_lwe_secret_key(LweDimension(dimension));

    let mut errors: Vec<f64> = Vec::new();
    let plaintexts = PlaintextVector { raw: vec![0u64; 1] };
    for _ in 0..repetitions {
        let noise = vec![encode_torus(uniform.next_gaussian(sigma))];
        let cts = engine.encrypt_lwe_ciphertext_vector(&key, &plaintexts, &noise);
        let decrypted = engine.decrypt_lwe_ciphertext_vector(&key, &cts);
        errors.push(decode_torus(decrypted.raw[0]));
    }
    assert!(variance_is_consistent(&errors, variance));
    // A deliberately mis-scaled expectation must fail the same check.
    assert!(!variance_is_consistent(&errors, variance * 10.0));
    assert!(!variance_is_consistent(&errors, variance / 10.0));
}
