//! The default engine: encryption, decryption, and the expansion of seeded
//! ciphertexts into full ones. All arithmetic lives on the discretized torus,
//! that is modulo the machine word.

use vstd::prelude::*;
use crate::entities::{
    GlweCiphertext, GlweSeededCiphertext, KeyDistribution, LweCiphertext, LweCiphertextVector,
    LweSecretKey, LweSeededCiphertextVector, PlaintextVector,
};
use crate::parameters::LweDimension;
use crate::random::{random_words_of_seed, spec_random_words};

verus! {

/// Torus addition: addition modulo the word size.
pub open spec fn wadd(a: u64, b: u64) -> u64 {
    vstd::wrapping::u64_specs::wrapping_add(a, b)
}

/// Torus subtraction: subtraction modulo the word size.
pub open spec fn wsub(a: u64, b: u64) -> u64 {
    vstd::wrapping::u64_specs::wrapping_sub(a, b)
}

/// Torus multiplication: multiplication modulo the word size.
pub open spec fn wmul(a: u64, b: u64) -> u64 {
    vstd::wrapping::u64_specs::wrapping_mul(a, b)
}

/// Dot product of a mask and a key on the torus.
pub open spec fn spec_dot(mask: Seq<u64>, key: Seq<u64>) -> u64
    recommends
        mask.len() == key.len(),
    decreases mask.len(),
{
    if mask.len() == 0 || key.len() == 0 {
        0u64
    } else {
        wadd(spec_dot(mask.drop_last(), key.drop_last()), wmul(mask.last(), key.last()))
    }
}

/// The body of an LWE encryption: mask times key, plus plaintext, plus noise.
pub open spec fn spec_lwe_body(mask: Seq<u64>, key: Seq<u64>, plaintext: u64, noise: u64) -> u64 {
    wadd(wadd(spec_dot(mask, key), plaintext), noise)
}

/// The phase of an LWE ciphertext under a key: body minus mask times key.
/// Decryption returns it; for a well-formed encryption it is the plaintext
/// plus the encryption noise.
pub open spec fn spec_lwe_phase(mask: Seq<u64>, body: u64, key: Seq<u64>) -> u64 {
    wsub(body, spec_dot(mask, key))
}

/// The mask of the `i`-th ciphertext of a batch of `count` ciphertexts of
/// dimension `dim`, all drawn from one seed.
pub open spec fn spec_mask_of(seed: u128, dim: nat, count: nat, i: int) -> Seq<u64> {
    spec_random_words(seed, dim * count).subrange(dim * i, dim * i + dim)
}

/// Decryption recovers the plaintext plus the noise: the phase of a body
/// built over a mask and a key, taken under the same mask and key, is exactly
/// plaintext plus noise. This holds for any mask, so it holds alike for a
/// directly encrypted ciphertext and for one expanded from its seeded form.
pub proof fn lemma_phase_recovers_message(mask: Seq<u64>, key: Seq<u64>, plaintext: u64, noise: u64)
    ensures
        spec_lwe_phase(mask, spec_lwe_body(mask, key, plaintext, noise), key) == wadd(
            plaintext,
            noise,
        ),
{
}

/// Seeded round-trip: the `i`-th ciphertext expanded from a seeded
/// encryption decrypts to the same value as the `i`-th ciphertext of a
/// direct encryption drawn from the same seed, plaintexts and noise; both
/// equal the plaintext plus its noise.
pub proof fn lemma_seeded_round_trip(
    seed: u128,
    dim: nat,
    count: nat,
    key: Seq<u64>,
    plaintext: u64,
    noise: u64,
    i: int,
)
    requires
        0 <= i < count,
    ensures
        spec_lwe_phase(
            spec_mask_of(seed, dim, count, i),
            spec_lwe_body(spec_mask_of(seed, dim, count, i), key, plaintext, noise),
            key,
        ) == wadd(plaintext, noise),
{
    lemma_phase_recovers_message(spec_mask_of(seed, dim, count, i), key, plaintext, noise);
}

/// Dot product of a mask and a key, on the torus.
pub fn dot(mask: &Vec<u64>, key: &Vec<u64>) -> (r: u64)
    requires
        mask@.len() == key@.len(),
    ensures
        r == spec_dot(mask@, key@),
{
    let mut acc: u64 = 0;
    let mut i: usize = 0;
    while i < mask.len()
        invariant
            i <= mask@.len(),
            mask@.len() == key@.len(),
            acc == spec_dot(mask@.take(i as int), key@.take(i as int)),
        decreases mask@.len() - i,
    {
        proof {
            assert(mask@.take(i + 1).drop_last() =~= mask@.take(i as int));
            assert(key@.take(i + 1).drop_last() =~= key@.take(i as int));
        }
        acc = acc.wrapping_add(mask[i].wrapping_mul(key[i]));
        i = i + 1;
    }
    proof {
        assert(mask@.take(mask@.len() as int) =~= mask@);
        assert(key@.take(key@.len() as int) =~= key@);
    }
    acc
}

/// The seed an engine moves to after consuming one.
pub open spec fn spec_seed_after(s: u128) -> u128 {
    if s == u128::MAX {
        0u128
    } else {
        (s + 1) as u128
    }
}

/// An engine of the reference backend. It owns the seed the next seeded
/// entity will be drawn from; every operation that consumes a seed advances
/// it, so no two entities share a generator stream.
pub struct DefaultEngine {
    pub next_seed: u128,
}

impl DefaultEngine {
    /// A fresh engine whose first generated entity uses `seed`.
    pub fn new(seed: u128) -> (r: DefaultEngine)
        ensures
            r.next_seed == seed,
    {
        DefaultEngine { next_seed: seed }
    }

    /// Hands out the current seed and moves to the next one.
    pub fn fresh_seed(&mut self) -> (r: u128)
        ensures
            r == old(self).next_seed,
            final(self).next_seed == spec_seed_after(old(self).next_seed),
    {
        let r = self.next_seed;
        if self.next_seed == u128::MAX {
            self.next_seed = 0;
        } else {
            self.next_seed = self.next_seed + 1;
        }
        r
    }

    /// Generates a binary LWE secret key of the requested dimension from the
    /// engine's next seed: coefficient `i` is the low bit of the `i`-th
    /// pseudo-random word.
    pub fn new_lwe_secret_key(&mut self, lwe_dimension: LweDimension) -> (r: LweSecretKey)
        requires
            8 * lwe_dimension.0 <= usize::MAX,
        ensures
            final(self).next_seed == spec_seed_after(old(self).next_seed),
            r.wf(),
            r.distribution == KeyDistribution::Binary,
            r.spec_dimension() == lwe_dimension.0,
            r.coefficients@ == Seq::new(
                lwe_dimension.0 as nat,
                |i: int| spec_random_words(old(self).next_seed, lwe_dimension.0 as nat)[i] & 1u64,
            ),
    {
        let seed = self.fresh_seed();
        let words = random_words_of_seed(seed, lwe_dimension.0);
        let mut coefficients: Vec<u64> = Vec::new();
        let mut i: usize = 0;
        while i < lwe_dimension.0
            invariant
                i <= lwe_dimension.0,
                words@ == spec_random_words(seed, lwe_dimension.0 as nat),
                words@.len() == lwe_dimension.0,
                coefficients@.len() == i,
                forall|k: int| 0 <= k < i ==> coefficients@[k] == (words@[k] & 1u64),
            decreases lwe_dimension.0 - i,
        {
            let bit: u64 = words[i] & 1;
            coefficients.push(bit);
            i = i + 1;
        }
        assert(coefficients@ =~= Seq::new(
            lwe_dimension.0 as nat,
            |k: int| spec_random_words(seed, lwe_dimension.0 as nat)[k] & 1u64,
        ));
        proof {
            assert(forall|w: u64| #[trigger] (w & 1u64) <= 1u64) by (bit_vector);
            assert(forall|k: int| 0 <= k < coefficients@.len() ==> coefficients@[k] <= 1);
        }
        LweSecretKey { distribution: KeyDistribution::Binary, coefficients }
    }

    /// Encrypts a plaintext vector directly into a full ciphertext vector,
    /// every mask drawn from the engine's next seed, one noise word to a
    /// plaintext.
    pub fn encrypt_lwe_ciphertext_vector(
        &mut self,
        key: &LweSecretKey,
        input: &PlaintextVector,
        noise: &Vec<u64>,
    ) -> (r: LweCiphertextVector)
        requires
            noise@.len() == input.raw@.len(),
            8 * (key.spec_dimension() * input.raw@.len()) <= usize::MAX,
        ensures
            final(self).next_seed == spec_seed_after(old(self).next_seed),
            r.wf(),
            r.lwe_dimension.0 == key.spec_dimension(),
            r.ciphertexts@.len() == input.raw@.len(),
            forall|i: int|
                0 <= i < input.raw@.len() ==> {
                    let m = spec_mask_of(
                        old(self).next_seed,
                        key.spec_dimension(),
                        input.raw@.len() as nat,
                        i,
                    );
                    (#[trigger] r.ciphertexts@[i]).mask@ == m && r.ciphertexts@[i].body
                        == spec_lwe_body(m, key.coefficients@, input.raw@[i], noise@[i])
                },
    {
        let seed = self.fresh_seed();
        let dim = key.coefficients.len();
        let count = input.raw.len();
        proof {
            vstd::arithmetic::mul::lemma_mul_is_commutative(dim as int, count as int);
        }
        let total: usize = dim * count;
        let words = random_words_of_seed(seed, total);
        let mut ciphertexts: Vec<LweCiphertext> = Vec::new();
        let mut i: usize = 0;
        while i < count
            invariant
                i <= count,
                count == input.raw@.len(),
                noise@.len() == count,
                dim == key.spec_dimension(),
                dim * count <= usize::MAX,
                words@ == spec_random_words(seed, (dim * count) as nat),
                words@.len() == dim * count,
                ciphertexts@.len() == i,
                forall|k: int|
                    0 <= k < i ==> {
                        let m = spec_mask_of(seed, dim as nat, count as nat, k);
                        (#[trigger] ciphertexts@[k]).mask@ == m && ciphertexts@[k].body
                            == spec_lwe_body(m, key.coefficients@, input.raw@[k], noise@[k])
                            && ciphertexts@[k].mask@.len() == dim
                    },
            decreases count - i,
        {
            let mask = mask_of_words(&words, dim, count, i);
            let d = dot(&mask, &key.coefficients);
            let body = d.wrapping_add(input.raw[i]).wrapping_add(noise[i]);
            ciphertexts.push(LweCiphertext { mask, body });
            i = i + 1;
        }
        LweCiphertextVector { lwe_dimension: LweDimension(dim), ciphertexts }
    }

    /// Encrypts a plaintext vector into its compact, seeded form: only the
    /// seed and the bodies are stored; the masks will be re-derived from the
    /// seed on expansion.
    pub fn encrypt_lwe_seeded_ciphertext_vector(
        &mut self,
        key: &LweSecretKey,
        input: &PlaintextVector,
        noise: &Vec<u64>,
    ) -> (r: LweSeededCiphertextVector)
        requires
            noise@.len() == input.raw@.len(),
            8 * (key.spec_dimension() * input.raw@.len()) <= usize::MAX,
        ensures
            final(self).next_seed == spec_seed_after(old(self).next_seed),
            r.seed == old(self).next_seed,
            r.lwe_dimension.0 == key.spec_dimension(),
            r.bodies@.len() == input.raw@.len(),
            forall|i: int|
                0 <= i < input.raw@.len() ==> #[trigger] r.bodies@[i] == spec_lwe_body(
                    spec_mask_of(r.seed, key.spec_dimension(), input.raw@.len() as nat, i),
                    key.coefficients@,
                    input.raw@[i],
                    noise@[i],
                ),
    {
        let seed = self.next_seed;
        let full = self.encrypt_lwe_ciphertext_vector(key, input, noise);
        let mut bodies: Vec<u64> = Vec::new();
        let mut i: usize = 0;
        let count = input.raw.len();
        while i < count
            invariant
                i <= count,
                count == input.raw@.len(),
                full.ciphertexts@.len() == count,
                bodies@.len() == i,
                forall|k: int| 0 <= k < i ==> bodies@[k] == (#[trigger] full.ciphertexts@[k]).body,
            decreases count - i,
        {
            bodies.push(full.ciphertexts[i].body);
            i = i + 1;
        }
        proof {
            assert forall|k: int| 0 <= k < input.raw@.len() implies bodies@[k] == spec_lwe_body(
                spec_mask_of(seed, key.spec_dimension(), input.raw@.len() as nat, k),
                key.coefficients@,
                input.raw@[k],
                noise@[k],
            ) by {
                assert(bodies@[k] == full.ciphertexts@[k].body);
            }
        }
        LweSeededCiphertextVector { seed, lwe_dimension: full.lwe_dimension, bodies }
    }

    /// Transforms a seeded ciphertext vector into a full one: a pure move
    /// that re-derives every mask from the stored seed and keeps every body.
    pub fn transform_lwe_seeded_ciphertext_vector_to_lwe_ciphertext_vector(
        &mut self,
        input: LweSeededCiphertextVector,
    ) -> (r: LweCiphertextVector)
        requires
            8 * (input.lwe_dimension.0 * input.spec_count()) <= usize::MAX,
        ensures
            *final(self) == *old(self),
            r.wf(),
            r.lwe_dimension == input.lwe_dimension,
            r.ciphertexts@.len() == input.spec_count(),
            forall|i: int|
                0 <= i < input.spec_count() ==> {
                    let m = spec_mask_of(
                        input.seed,
                        input.lwe_dimension.0 as nat,
                        input.spec_count(),
                        i,
                    );
                    (#[trigger] r.ciphertexts@[i]).mask@ == m && r.ciphertexts@[i].body
                        == input.bodies@[i]
                },
    {
        let dim = input.lwe_dimension.0;
        let count = input.bodies.len();
        let expanded = expand_ciphertext_vector(input.seed, dim, count, Some(&input.bodies));
        LweCiphertextVector { lwe_dimension: input.lwe_dimension, ciphertexts: expanded }
    }

    /// Decrypts every ciphertext of a batch: entry `i` of the result is the
    /// phase of ciphertext `i` under the key, the plaintext plus its noise.
    pub fn decrypt_lwe_ciphertext_vector(
        &self,
        key: &LweSecretKey,
        input: &LweCiphertextVector,
    ) -> (r: PlaintextVector)
        requires
            input.wf(),
            key.spec_dimension() == input.lwe_dimension.0,
        ensures
            r.raw@.len() == input.ciphertexts@.len(),
            forall|i: int|
                0 <= i < input.ciphertexts@.len() ==> #[trigger] r.raw@[i] == spec_lwe_phase(
                    input.ciphertexts@[i].mask@,
                    input.ciphertexts@[i].body,
                    key.coefficients@,
                ),
    {
        let mut raw: Vec<u64> = Vec::new();
        let mut i: usize = 0;
        let count = input.ciphertexts.len();
        while i < count
            invariant
                i <= count,
                count == input.ciphertexts@.len(),
                input.wf(),
                key.spec_dimension() == input.lwe_dimension.0,
                raw@.len() == i,
                forall|k: int|
                    0 <= k < i ==> #[trigger] raw@[k] == spec_lwe_phase(
                        input.ciphertexts@[k].mask@,
                        input.ciphertexts@[k].body,
                        key.coefficients@,
                    ),
            decreases count - i,
        {
            let ct = &input.ciphertexts[i];
            let d = dot(&ct.mask, &key.coefficients);
            raw.push(ct.body.wrapping_sub(d));
            i = i + 1;
        }
        PlaintextVector { raw }
    }
}

/// Expands a seed into `count` ciphertexts of dimension `dim`: ciphertext
/// `i` takes the `i`-th slice of the pseudo-random word stream as its mask,
/// and its body from `bodies` when given, zero otherwise.
fn expand_ciphertext_vector(
    seed: u128,
    dim: usize,
    count: usize,
    bodies: Option<&Vec<u64>>,
) -> (r: Vec<LweCiphertext>)
    requires
        8 * (dim * count) <= usize::MAX,
        bodies is Some ==> bodies.unwrap()@.len() == count,
    ensures
        r@.len() == count,
        forall|i: int|
            0 <= i < count ==> (#[trigger] r@[i]).mask@ == spec_mask_of(
                seed,
                dim as nat,
                count as nat,
                i,
            ),
        forall|i: int|
            0 <= i < count ==> (#[trigger] r@[i]).body == (if bodies is Some {
                bodies.unwrap()@[i]
            } else {
                0u64
            }),
        forall|i: int| 0 <= i < count ==> (#[trigger] r@[i]).mask@.len() == dim,
{
    proof {
        vstd::arithmetic::mul::lemma_mul_is_commutative(dim as int, count as int);
    }
    let total: usize = dim * count;
    let words = random_words_of_seed(seed, total);
    let mut r: Vec<LweCiphertext> = Vec::new();
    let mut i: usize = 0;
    while i < count
        invariant
            i <= count,
            dim * count <= usize::MAX,
            words@ == spec_random_words(seed, (dim * count) as nat),
            words@.len() == dim * count,
            bodies is Some ==> bodies.unwrap()@.len() == count,
            r@.len() == i,
            forall|k: int|
                0 <= k < i ==> (#[trigger] r@[k]).mask@ == spec_mask_of(
                    seed,
                    dim as nat,
                    count as nat,
                    k,
                ) && r@[k].mask@.len() == dim,
            forall|k: int|
                0 <= k < i ==> (#[trigger] r@[k]).body == (if bodies is Some {
                    bodies.unwrap()@[k]
                } else {
                    0u64
                }),
        decreases count - i,
    {
        let mask = mask_of_words(&words, dim, count, i);
        let body: u64 = match bodies {
            Some(b) => b[i],
            None => 0u64,
        };
        r.push(LweCiphertext { mask, body });
        i = i + 1;
    }
    r
}

/// Copies the `i`-th `dim`-word slice out of the pseudo-random word stream
/// of a batch of `count` ciphertexts: the mask of ciphertext `i`.
fn mask_of_words(words: &Vec<u64>, dim: usize, count: usize, i: usize) -> (r: Vec<u64>)
    requires
        i < count,
        dim * count <= usize::MAX,
        words@.len() == dim * count,
    ensures
        r@ == words@.subrange(dim * i, dim * i + dim),
        r@.len() == dim,
{
    proof {
        assert(i * dim + dim <= count * dim) by (nonlinear_arith)
            requires
                i < count,
                dim >= 0,
        ;
        assert(count * dim == dim * count) by (nonlinear_arith);
        assert(i * dim == dim * i) by (nonlinear_arith);
    }
    let start: usize = i * dim;
    let mut mask: Vec<u64> = Vec::new();
    let mut j: usize = 0;
    while j < dim
        invariant
            j <= dim,
            start == i * dim,
            i * dim == dim * i,
            dim * i + dim <= dim * count,
            dim * count <= usize::MAX,
            words@.len() == dim * count,
            mask@.len() == j,
            forall|k: int| 0 <= k < j ==> mask@[k] == words@[start + k],
        decreases dim - j,
    {
        mask.push(words[start + j]);
        j = j + 1;
    }
    proof {
        assert(mask@ =~= words@.subrange(dim as int * i as int, dim as int * i as int + dim as int));
    }
    mask
}

/// The error surface of the seeded-to-full GLWE transformation: either the
/// seeded ciphertext's recorded dimensions disagree with its payload, or the
/// expanded ciphertext would not fit in memory.
#[derive(Clone, Copy, PartialEq, Eq, Structural, Debug)]
pub enum GlweTransformationError {
    MalformedSeededCiphertext,
    SizeOverflow,
}

/// A trait for engines transforming GLWE seeded ciphertexts into GLWE
/// ciphertexts. The operation is a pure move: the seeded input is consumed,
/// its masks are re-derived from its seed, and its body is kept verbatim as
/// the last polynomial of the result.
pub trait GlweSeededCiphertextToGlweCiphertextTransformationEngine {
    /// Checked transformation: validates the seeded ciphertext's dimensions
    /// and reports a structured error instead of computing on bad ones.
    fn transform_glwe_seeded_ciphertext_to_glwe_ciphertext(
        &mut self,
        glwe_seeded_ciphertext: GlweSeededCiphertext,
    ) -> (r: Result<GlweCiphertext, GlweTransformationError>)
        ensures
            r is Ok <==> (glwe_seeded_ciphertext.wf() && 8 * (glwe_seeded_ciphertext.polynomial_size.0
                * (glwe_seeded_ciphertext.glwe_size.0 - 1)) <= usize::MAX),
            r matches Err(e) ==> (e == GlweTransformationError::MalformedSeededCiphertext <==> !glwe_seeded_ciphertext.wf()),
            r matches Ok(ct) ==> spec_glwe_expansion_of(glwe_seeded_ciphertext, ct),
    ;

    /// Unchecked transformation: assumes the caller already established the
    /// dimensions; undefined numerical behaviour is avoided here by stating
    /// the assumption as a precondition.
    fn transform_glwe_seeded_ciphertext_to_glwe_ciphertext_unchecked(
        &mut self,
        glwe_seeded_ciphertext: GlweSeededCiphertext,
    ) -> (r: GlweCiphertext)
        requires
            glwe_seeded_ciphertext.wf(),
            8 * (glwe_seeded_ciphertext.polynomial_size.0 * (glwe_seeded_ciphertext.glwe_size.0
                - 1)) <= usize::MAX,
        ensures
            spec_glwe_expansion_of(glwe_seeded_ciphertext, r),
    ;
}

/// What expanding a seeded GLWE ciphertext yields: the mask polynomials are
/// the pseudo-random stream of the seed, and the body polynomial, stored
/// last, is the seeded payload.
pub open spec fn spec_glwe_expansion_of(input: GlweSeededCiphertext, r: GlweCiphertext) -> bool {
    let mask_len = input.polynomial_size.0 * (input.glwe_size.0 - 1);
    &&& r.wf()
    &&& r.polynomial_size == input.polynomial_size
    &&& r.glwe_size == input.glwe_size
    &&& r.coefficients@ == spec_random_words(input.seed, mask_len as nat) + input.body@
}

impl GlweSeededCiphertextToGlweCiphertextTransformationEngine for DefaultEngine {
    fn transform_glwe_seeded_ciphertext_to_glwe_ciphertext(
        &mut self,
        glwe_seeded_ciphertext: GlweSeededCiphertext,
    ) -> (r: Result<GlweCiphertext, GlweTransformationError>) {
        let poly = glwe_seeded_ciphertext.polynomial_size.0;
        let glwe = glwe_seeded_ciphertext.glwe_size.0;
        if glwe < 1 || glwe_seeded_ciphertext.body.len() != poly {
            return Err(GlweTransformationError::MalformedSeededCiphertext);
        }
        let product = match poly.checked_mul(glwe) {
            Some(p) => p,
            None => {
                return Err(GlweTransformationError::MalformedSeededCiphertext);
            },
        };
        proof {
            assert(poly * (glwe - 1) <= poly * glwe) by (nonlinear_arith)
                requires
                    glwe >= 1,
                    poly >= 0,
            ;
        }
        let mask_len: usize = poly * (glwe - 1);
        proof {
            vstd::arithmetic::div_mod::lemma_fundamental_div_mod(usize::MAX as int, 8);
        }
        if mask_len > usize::MAX / 8 {
            return Err(GlweTransformationError::SizeOverflow);
        }
        Ok(self.transform_glwe_seeded_ciphertext_to_glwe_ciphertext_unchecked(
            glwe_seeded_ciphertext,
        ))
    }

    fn transform_glwe_seeded_ciphertext_to_glwe_ciphertext_unchecked(
        &mut self,
        glwe_seeded_ciphertext: GlweSeededCiphertext,
    ) -> (r: GlweCiphertext) {
        let poly = glwe_seeded_ciphertext.polynomial_size.0;
        let glwe = glwe_seeded_ciphertext.glwe_size.0;
        proof {
            assert(poly * (glwe - 1) + poly == poly * glwe) by (nonlinear_arith)
                requires
                    glwe >= 1,
            ;
        }
        let mask_len: usize = poly * (glwe - 1);
        let mut coefficients = random_words_of_seed(glwe_seeded_ciphertext.seed, mask_len);
        let mut body = glwe_seeded_ciphertext.body;
        coefficients.append(&mut body);
        GlweCiphertext {
            polynomial_size: glwe_seeded_ciphertext.polynomial_size,
            glwe_size: glwe_seeded_ciphertext.glwe_size,
            coefficients,
        }
    }
}

} // verus!
