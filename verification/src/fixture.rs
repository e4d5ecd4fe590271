//! The deterministic core of the test-oracle driver for seeded LWE vector
//! encryption: the fixed parameter sets, the synthesis of fresh key and
//! plaintext material, the execution of the operation under test, and the
//! decryption of its output. The statistical acceptance decision itself
//! works on binary64 values and therefore lives with the callers, outside
//! the verified core.

use vstd::prelude::*;
use crate::engine::{spec_lwe_body, spec_lwe_phase, spec_mask_of, spec_seed_after, DefaultEngine};
use crate::entities::{LweSecretKey, LweSeededCiphertextVector, PlaintextVector};
use crate::parameters::{LweCiphertextCount, LweDimension, Variance};
use crate::random::{random_words_of_seed, spec_random_words};

verus! {

/// The bit pattern of the binary64 value one-hundred-millionth, the noise
/// variance every fixed parameter set requests.
pub const VARIANCE_HUNDRED_MILLIONTH_BITS: u64 = 0x3E45798EE2308C3A;

/// One parameter set of the fixture: requested noise, LWE dimension, and
/// batch size.
#[derive(Clone, Copy, PartialEq, Eq, Structural, Debug)]
pub struct LweSeededCiphertextVectorEncryptionParameters {
    pub noise: Variance,
    pub lwe_dimension: LweDimension,
    pub lwe_ciphertext_count: LweCiphertextCount,
}

/// A fixture for engines encrypting plaintext vectors into seeded LWE
/// ciphertext vectors.
pub struct LweSeededCiphertextVectorEncryptionFixture;

impl LweSeededCiphertextVectorEncryptionFixture {
    /// The fixed list of parameter sets the fixture enumerates: one small
    /// batch, then batches of one hundred at growing LWE dimensions, all at
    /// the same requested variance.
    pub fn generate_parameters_iterator() -> (r: Vec<
        LweSeededCiphertextVectorEncryptionParameters,
    >)
        ensures
            r@.len() == 7,
            forall|i: int|
                0 <= i < 7 ==> (#[trigger] r@[i]).noise.0 == VARIANCE_HUNDRED_MILLIONTH_BITS,
            r@[0].lwe_dimension.0 == 100 && r@[0].lwe_ciphertext_count.0 == 1,
            r@[1].lwe_dimension.0 == 100 && r@[1].lwe_ciphertext_count.0 == 100,
            r@[2].lwe_dimension.0 == 300 && r@[2].lwe_ciphertext_count.0 == 100,
            r@[3].lwe_dimension.0 == 600 && r@[3].lwe_ciphertext_count.0 == 100,
            r@[4].lwe_dimension.0 == 1000 && r@[4].lwe_ciphertext_count.0 == 100,
            r@[5].lwe_dimension.0 == 3000 && r@[5].lwe_ciphertext_count.0 == 100,
            r@[6].lwe_dimension.0 == 6000 && r@[6].lwe_ciphertext_count.0 == 100,
    {
        let noise = Variance(VARIANCE_HUNDRED_MILLIONTH_BITS);
        let mut r: Vec<LweSeededCiphertextVectorEncryptionParameters> = Vec::new();
        r.push(
            LweSeededCiphertextVectorEncryptionParameters {
                noise,
                lwe_dimension: LweDimension(100),
                lwe_ciphertext_count: LweCiphertextCount(1),
            },
        );
        r.push(
            LweSeededCiphertextVectorEncryptionParameters {
                noise,
                lwe_dimension: LweDimension(100),
                lwe_ciphertext_count: LweCiphertextCount(100),
            },
        );
        r.push(
            LweSeededCiphertextVectorEncryptionParameters {
                noise,
                lwe_dimension: LweDimension(300),
                lwe_ciphertext_count: LweCiphertextCount(100),
            },
        );
        r.push(
            LweSeededCiphertextVectorEncryptionParameters {
                noise,
                lwe_dimension: LweDimension(600),
                lwe_ciphertext_count: LweCiphertextCount(100),
            },
        );
        r.push(
            LweSeededCiphertextVectorEncryptionParameters {
                noise,
                lwe_dimension: LweDimension(1000),
                lwe_ciphertext_count: LweCiphertextCount(100),
            },
        );
        r.push(
            LweSeededCiphertextVectorEncryptionParameters {
                noise,
                lwe_dimension: LweDimension(3000),
                lwe_ciphertext_count: LweCiphertextCount(100),
            },
        );
        r.push(
            LweSeededCiphertextVectorEncryptionParameters {
                noise,
                lwe_dimension: LweDimension(6000),
                lwe_ciphertext_count: LweCiphertextCount(100),
            },
        );
        r
    }

    /// Draws the per-repetition material: a fresh binary secret key of the
    /// parameter set's dimension.
    pub fn generate_random_repetition_prototypes(
        parameters: &LweSeededCiphertextVectorEncryptionParameters,
        engine: &mut DefaultEngine,
    ) -> (r: LweSecretKey)
        requires
            8 * parameters.lwe_dimension.0 <= usize::MAX,
        ensures
            final(engine).next_seed == spec_seed_after(old(engine).next_seed),
            r.wf(),
            r.spec_dimension() == parameters.lwe_dimension.0,
            r.coefficients@ == Seq::new(
                parameters.lwe_dimension.0 as nat,
                |i: int| spec_random_words(
                    old(engine).next_seed,
                    parameters.lwe_dimension.0 as nat,
                )[i] & 1u64,
            ),
    {
        engine.new_lwe_secret_key(parameters.lwe_dimension)
    }

    /// Draws the per-sample material: a uniformly pseudo-random plaintext
    /// vector of the parameter set's batch size.
    pub fn generate_random_sample_prototypes(
        parameters: &LweSeededCiphertextVectorEncryptionParameters,
        engine: &mut DefaultEngine,
    ) -> (r: PlaintextVector)
        requires
            8 * parameters.lwe_ciphertext_count.0 <= usize::MAX,
        ensures
            final(engine).next_seed == spec_seed_after(old(engine).next_seed),
            r.raw@ == spec_random_words(
                old(engine).next_seed,
                parameters.lwe_ciphertext_count.0 as nat,
            ),
            r.raw@.len() == parameters.lwe_ciphertext_count.0,
    {
        let seed = engine.fresh_seed();
        let raw = random_words_of_seed(seed, parameters.lwe_ciphertext_count.0);
        PlaintextVector { raw }
    }

    /// Synthesizes the execution context from the prototypes: in this
    /// backend the entities are the prototypes themselves, moved.
    pub fn prepare_context(sample_proto: PlaintextVector, repetition_proto: LweSecretKey) -> (r: (
        PlaintextVector,
        LweSecretKey,
    ))
        ensures
            r.0 == sample_proto,
            r.1 == repetition_proto,
    {
        (sample_proto, repetition_proto)
    }

    /// Runs the operation under test: encrypts the plaintext vector into a
    /// seeded ciphertext vector, one supplied noise word to a plaintext.
    pub fn execute_engine(
        engine: &mut DefaultEngine,
        context: (PlaintextVector, LweSecretKey),
        noise: &Vec<u64>,
    ) -> (r: (PlaintextVector, LweSecretKey, LweSeededCiphertextVector))
        requires
            noise@.len() == context.0.raw@.len(),
            8 * (context.1.spec_dimension() * context.0.raw@.len()) <= usize::MAX,
        ensures
            final(engine).next_seed == spec_seed_after(old(engine).next_seed),
            r.0 == context.0,
            r.1 == context.1,
            r.2.seed == old(engine).next_seed,
            r.2.lwe_dimension.0 == context.1.spec_dimension(),
            r.2.bodies@.len() == context.0.raw@.len(),
            forall|i: int|
                0 <= i < context.0.raw@.len() ==> #[trigger] r.2.bodies@[i] == spec_lwe_body(
                    spec_mask_of(
                        r.2.seed,
                        context.1.spec_dimension(),
                        context.0.raw@.len() as nat,
                        i,
                    ),
                    context.1.coefficients@,
                    context.0.raw@[i],
                    noise@[i],
                ),
    {
        let (plaintext_vector, secret_key) = context;
        let seeded = engine.encrypt_lwe_seeded_ciphertext_vector(
            &secret_key,
            &plaintext_vector,
            noise,
        );
        (plaintext_vector, secret_key, seeded)
    }

    /// Consumes the execution context: expands the seeded ciphertext vector
    /// into a full one, decrypts it under the repetition's key, and returns
    /// the raw input plaintexts beside the raw decrypted values.
    pub fn process_context(
        engine: &mut DefaultEngine,
        repetition_proto: &LweSecretKey,
        context: (PlaintextVector, LweSecretKey, LweSeededCiphertextVector),
    ) -> (r: (Vec<u64>, Vec<u64>))
        requires
            repetition_proto.spec_dimension() == context.2.lwe_dimension.0,
            8 * (context.2.lwe_dimension.0 * context.2.spec_count()) <= usize::MAX,
        ensures
            r.0@ == context.0.raw@,
            r.1@.len() == context.2.spec_count(),
            forall|i: int|
                0 <= i < context.2.spec_count() ==> #[trigger] r.1@[i] == spec_lwe_phase(
                    spec_mask_of(
                        context.2.seed,
                        context.2.lwe_dimension.0 as nat,
                        context.2.spec_count(),
                        i,
                    ),
                    context.2.bodies@[i],
                    repetition_proto.coefficients@,
                ),
    {
        let (plaintext_vector, _secret_key, seeded) = context;
        let full = engine.transform_lwe_seeded_ciphertext_vector_to_lwe_ciphertext_vector(seeded);
        let decrypted = engine.decrypt_lwe_ciphertext_vector(repetition_proto, &full);
        (plaintext_vector.raw, decrypted.raw)
    }

    /// The acceptance criteria of a run: the variance the noise of the
    /// decrypted values is held against.
    pub fn compute_criteria(parameters: &LweSeededCiphertextVectorEncryptionParameters) -> (r:
        Variance)
        ensures
            r == parameters.noise,
    {
        parameters.noise
    }
}

} // verus!
