//! Plain newtypes for the dimensions and counts that parameterize every
//! cryptographic entity. Keeping each quantity in its own type prevents two
//! dimensions from being swapped silently at a call site.

use vstd::prelude::*;

verus! {

/// Dimension (mask length) of an LWE ciphertext or secret key.
#[derive(Clone, Copy, PartialEq, Eq, Structural, Debug)]
pub struct LweDimension(pub usize);

/// Dimension (number of mask polynomials) of a GLWE ciphertext or secret key.
#[derive(Clone, Copy, PartialEq, Eq, Structural, Debug)]
pub struct GlweDimension(pub usize);

/// Number of polynomials of a GLWE ciphertext: its dimension plus one body.
#[derive(Clone, Copy, PartialEq, Eq, Structural, Debug)]
pub struct GlweSize(pub usize);

/// Number of coefficients of one polynomial.
#[derive(Clone, Copy, PartialEq, Eq, Structural, Debug)]
pub struct PolynomialSize(pub usize);

/// Number of ciphertexts in a batch.
#[derive(Clone, Copy, PartialEq, Eq, Structural, Debug)]
pub struct CiphertextCount(pub usize);

/// Number of LWE ciphertexts in a vector.
#[derive(Clone, Copy, PartialEq, Eq, Structural, Debug)]
pub struct LweCiphertextCount(pub usize);

/// Logarithm, base two, of the decomposition base used by key switching.
#[derive(Clone, Copy, PartialEq, Eq, Structural, Debug)]
pub struct DecompositionBaseLog(pub usize);

/// Number of levels kept by the decomposition used by key switching.
#[derive(Clone, Copy, PartialEq, Eq, Structural, Debug)]
pub struct DecompositionLevelCount(pub usize);

/// Number of functional packing key-switch keys in a list.
#[derive(Clone, Copy, PartialEq, Eq, Structural, Debug)]
pub struct FunctionalPackingKeyswitchKeyCount(pub usize);

/// Number of devices available to a multi-device backend.
#[derive(Clone, Copy, PartialEq, Eq, Structural, Debug)]
pub struct NumberOfGpus(pub usize);

/// Index of one device among the available ones.
#[derive(Clone, Copy, PartialEq, Eq, Structural, Debug)]
pub struct GpuIndex(pub usize);

/// Noise variance requested of an encryption, carried as the raw bit pattern
/// of the caller's binary64 value. The verified core never computes with it;
/// it only records and hands it to the sampling done outside.
#[derive(Clone, Copy, PartialEq, Eq, Structural, Debug)]
pub struct Variance(pub u64);

} // verus!
