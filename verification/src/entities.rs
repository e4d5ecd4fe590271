//! The cryptographic entities: plaintexts, secret keys, LWE and GLWE
//! ciphertexts, and their seeded (seed plus payload) forms. Each entity
//! carries its dimensions and a well-formedness predicate that every
//! constructor establishes and every operation preserves.

use vstd::prelude::*;
use crate::parameters::{GlweSize, LweDimension, PolynomialSize};

verus! {

/// An ordered sequence of encoded scalar values.
pub struct PlaintextVector {
    pub raw: Vec<u64>,
}

/// The distribution the coefficients of a secret key are drawn from.
#[derive(Clone, Copy, PartialEq, Eq, Structural, Debug)]
pub enum KeyDistribution {
    Binary,
    Ternary,
    Gaussian,
}

/// An LWE secret key: its dimension is the number of its coefficients.
#[derive(Clone)]
pub struct LweSecretKey {
    pub distribution: KeyDistribution,
    pub coefficients: Vec<u64>,
}

impl LweSecretKey {
    /// Dimension of the key.
    pub open spec fn spec_dimension(&self) -> nat {
        self.coefficients@.len()
    }

    /// A binary key holds only zero or one coefficients.
    pub open spec fn wf(&self) -> bool {
        self.distribution == KeyDistribution::Binary ==> forall|i: int|
            0 <= i < self.coefficients@.len() ==> self.coefficients@[i] <= 1
    }

    /// Dimension of the key, as a machine word.
    pub fn lwe_dimension(&self) -> (r: LweDimension)
        ensures
            r.0 == self.spec_dimension(),
    {
        LweDimension(self.coefficients.len())
    }
}

/// One LWE ciphertext: a mask of `dimension` words and one body word.
pub struct LweCiphertext {
    pub mask: Vec<u64>,
    pub body: u64,
}

impl LweCiphertext {
    /// Dimension of the ciphertext.
    pub open spec fn spec_dimension(&self) -> nat {
        self.mask@.len()
    }
}

/// A batch of LWE ciphertexts of one common dimension. Its length is the
/// logical batch size.
pub struct LweCiphertextVector {
    pub lwe_dimension: LweDimension,
    pub ciphertexts: Vec<LweCiphertext>,
}

impl LweCiphertextVector {
    /// Every ciphertext of the batch carries the recorded dimension.
    pub open spec fn wf(&self) -> bool {
        forall|i: int|
            0 <= i < self.ciphertexts@.len() ==> (#[trigger] self.ciphertexts@[i]).spec_dimension()
                == self.lwe_dimension.0
    }

    /// The batch size.
    pub fn count(&self) -> (r: usize)
        ensures
            r == self.ciphertexts@.len(),
    {
        self.ciphertexts.len()
    }
}

/// The compact form of a batch of LWE ciphertexts: the generator seed the
/// masks were drawn from, and one body word per ciphertext. It expands
/// deterministically into the full batch.
pub struct LweSeededCiphertextVector {
    pub seed: u128,
    pub lwe_dimension: LweDimension,
    pub bodies: Vec<u64>,
}

impl LweSeededCiphertextVector {
    /// The batch size.
    pub open spec fn spec_count(&self) -> nat {
        self.bodies@.len()
    }
}

/// A GLWE ciphertext: `glwe_size` polynomials of `polynomial_size`
/// coefficients each, stored contiguously, body polynomial last.
pub struct GlweCiphertext {
    pub polynomial_size: PolynomialSize,
    pub glwe_size: GlweSize,
    pub coefficients: Vec<u64>,
}

impl GlweCiphertext {
    /// The coefficient storage covers exactly the recorded dimensions.
    pub open spec fn wf(&self) -> bool {
        &&& self.glwe_size.0 >= 1
        &&& self.coefficients@.len() == self.polynomial_size.0 * self.glwe_size.0
    }

    /// A ciphertext of the given dimensions with every coefficient zero.
    pub fn allocate(polynomial_size: PolynomialSize, glwe_size: GlweSize) -> (r: GlweCiphertext)
        requires
            glwe_size.0 >= 1,
            polynomial_size.0 * glwe_size.0 <= usize::MAX,
        ensures
            r.wf(),
            r.polynomial_size == polynomial_size,
            r.glwe_size == glwe_size,
            r.coefficients@ == Seq::new((polynomial_size.0 * glwe_size.0) as nat, |i: int| 0u64),
    {
        let len: usize = polynomial_size.0 * glwe_size.0;
        let mut coefficients: Vec<u64> = Vec::new();
        let mut i: usize = 0;
        while i < len
            invariant
                i <= len,
                coefficients@.len() == i,
                forall|k: int| 0 <= k < i ==> coefficients@[k] == 0u64,
            decreases len - i,
        {
            coefficients.push(0u64);
            i = i + 1;
        }
        assert(coefficients@ =~= Seq::new(len as nat, |i: int| 0u64));
        GlweCiphertext { polynomial_size, glwe_size, coefficients }
    }
}

/// The compact form of a GLWE ciphertext: the generator seed its mask
/// polynomials were drawn from, and the body polynomial.
pub struct GlweSeededCiphertext {
    pub seed: u128,
    pub polynomial_size: PolynomialSize,
    pub glwe_size: GlweSize,
    pub body: Vec<u64>,
}

impl GlweSeededCiphertext {
    /// The body holds one polynomial and the dimensions leave room for it.
    pub open spec fn wf(&self) -> bool {
        &&& self.glwe_size.0 >= 1
        &&& self.body@.len() == self.polynomial_size.0
        &&& self.polynomial_size.0 * self.glwe_size.0 <= usize::MAX
    }
}

} // verus!
