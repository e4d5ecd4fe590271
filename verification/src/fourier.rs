//! The transform-domain buffer cache: scratch memory for the fast Fourier
//! transform reused across bootstrap calls against one key, so that the
//! steady state allocates nothing. Construction records the polynomial size
//! and GLWE size; every later call must match them, and every call
//! overwrites the buffers without reallocating them. The transform itself is
//! the transform backend's own supplied primitive; the cache's contracts
//! concern the recorded sizes, the buffer layout, and the rule that a call's
//! outcome never depends on what an earlier call left behind.

use vstd::prelude::*;
use crate::entities::GlweCiphertext;
use crate::parameters::{GlweSize, PolynomialSize};

verus! {

/// The transform plan prepared once for one polynomial size and kept with
/// the cache, so that it is not rebuilt on every bootstrap call.
pub struct TransformPlan {
    pub size: PolynomialSize,
}

/// A polynomial held in the transform domain: each complex coefficient is
/// carried as the bit patterns of its real and imaginary parts, two words to
/// a coefficient.
pub struct FourierPolynomial {
    pub coefficients: Vec<u64>,
}

/// A vector of `n` zero words.
fn zero_words(n: usize) -> (r: Vec<u64>)
    ensures
        r@ == Seq::new(n as nat, |i: int| 0u64),
{
    let mut r: Vec<u64> = Vec::new();
    let mut i: usize = 0;
    while i < n
        invariant
            i <= n,
            r@.len() == i,
            forall|k: int| 0 <= k < i ==> r@[k] == 0u64,
        decreases n - i,
    {
        r.push(0u64);
        i = i + 1;
    }
    assert(r@ =~= Seq::new(n as nat, |i: int| 0u64));
    r
}

/// A forward and a backward transform plan over one polynomial size.
pub struct Fft {
    pub forward: TransformPlan,
    pub backward: TransformPlan,
    pub size: PolynomialSize,
}

impl Fft {
    /// Both plans were prepared for the recorded polynomial size.
    pub open spec fn wf(&self) -> bool {
        &&& self.forward.size == self.size
        &&& self.backward.size == self.size
    }

    /// Prepares the plan pair for one polynomial size.
    pub fn new(size: PolynomialSize) -> (r: Fft)
        ensures
            r.wf(),
            r.size == size,
    {
        Fft {
            forward: TransformPlan { size },
            backward: TransformPlan { size },
            size,
        }
    }
}

/// The transform-domain scratch of the cache: the plan pair and the
/// frequency-domain buffers a bootstrap overwrites on every call.
pub struct FftBuffers {
    pub fft: Fft,
    pub first_buffer: FourierPolynomial,
    pub second_buffer: FourierPolynomial,
    pub output_buffer: Vec<u64>,
}

impl FftBuffers {
    /// The lengths of the three transform-domain scratch buffers.
    pub fn scratch_lengths(&self) -> (r: (usize, usize, usize))
        ensures
            r.0 == self.first_buffer.coefficients@.len(),
            r.1 == self.second_buffer.coefficients@.len(),
            r.2 == self.output_buffer@.len(),
    {
        (
            self.first_buffer.coefficients.len(),
            self.second_buffer.coefficients.len(),
            self.output_buffer.len(),
        )
    }

    /// The plan and every scratch buffer agree with the recorded sizes: the
    /// two polynomial buffers hold one polynomial each, the accumulator one
    /// polynomial per GLWE polynomial, two words to a complex coefficient.
    pub open spec fn wf(&self, poly_size: nat, glwe_size: nat) -> bool {
        &&& self.fft.wf()
        &&& self.fft.size.0 == poly_size
        &&& self.first_buffer.coefficients@.len() == 2 * poly_size
        &&& self.second_buffer.coefficients@.len() == 2 * poly_size
        &&& self.output_buffer@.len() == 2 * (poly_size * glwe_size)
    }
}

/// The buffer cache of one backend instance: the transform scratch plus the
/// two time-domain holders (look-up table and rounded input) sized to one
/// GLWE ciphertext. Reused, never reallocated, across every bootstrap call
/// whose entities carry the recorded dimensions; one cache must never be
/// mutated by two concurrent calls.
pub struct FourierBuffers {
    pub lut_buffer: GlweCiphertext,
    pub rounded_buffer: GlweCiphertext,
    pub fft_buffers: FftBuffers,
}

impl FourierBuffers {
    /// The polynomial size recorded at construction.
    pub open spec fn spec_polynomial_size(&self) -> nat {
        self.lut_buffer.polynomial_size.0 as nat
    }

    /// The GLWE size recorded at construction.
    pub open spec fn spec_glwe_size(&self) -> nat {
        self.lut_buffer.glwe_size.0 as nat
    }

    /// Both time-domain holders and the whole transform scratch agree with
    /// the recorded dimensions.
    pub open spec fn wf(&self) -> bool {
        &&& self.lut_buffer.wf()
        &&& self.rounded_buffer.wf()
        &&& self.rounded_buffer.polynomial_size == self.lut_buffer.polynomial_size
        &&& self.rounded_buffer.glwe_size == self.lut_buffer.glwe_size
        &&& self.fft_buffers.wf(self.spec_polynomial_size(), self.spec_glwe_size())
    }

    /// Builds the cache for the given dimensions.
    pub fn new(poly_size: PolynomialSize, glwe_size: GlweSize) -> (r: FourierBuffers)
        requires
            glwe_size.0 >= 1,
            2 * (poly_size.0 * glwe_size.0) <= usize::MAX,
        ensures
            r.wf(),
            r.lut_buffer.polynomial_size == poly_size,
            r.lut_buffer.glwe_size == glwe_size,
    {
        let fft = Fft::new(poly_size);
        proof {
            assert(poly_size.0 <= poly_size.0 * glwe_size.0) by (nonlinear_arith)
                requires
                    glwe_size.0 >= 1,
                    poly_size.0 >= 0,
            ;
        }
        let first_buffer = FourierPolynomial { coefficients: zero_words(2 * poly_size.0) };
        let second_buffer = FourierPolynomial { coefficients: zero_words(2 * poly_size.0) };
        let output_buffer = zero_words(2 * (poly_size.0 * glwe_size.0));
        let lut_buffer = GlweCiphertext::allocate(poly_size, glwe_size);
        let rounded_buffer = GlweCiphertext::allocate(poly_size, glwe_size);
        FourierBuffers {
            lut_buffer,
            rounded_buffer,
            fft_buffers: FftBuffers { fft, first_buffer, second_buffer, output_buffer },
        }
    }

    /// Builds the cache for the dimensions of the key it will serve.
    pub fn for_params(poly_size: PolynomialSize, glwe_size: GlweSize) -> (r: FourierBuffers)
        requires
            glwe_size.0 >= 1,
            2 * (poly_size.0 * glwe_size.0) <= usize::MAX,
        ensures
            r.wf(),
            r.lut_buffer.polynomial_size == poly_size,
            r.lut_buffer.glwe_size == glwe_size,
    {
        Self::new(poly_size, glwe_size)
    }

    /// Whether the cache was built for exactly the given dimensions: the
    /// match every bootstrap call must check on the checked path.
    pub fn matches_params(&self, poly_size: PolynomialSize, glwe_size: GlweSize) -> (r: bool)
        ensures
            r == (self.spec_polynomial_size() == poly_size.0 && self.spec_glwe_size()
                == glwe_size.0),
    {
        self.lut_buffer.polynomial_size.0 == poly_size.0 && self.lut_buffer.glwe_size.0
            == glwe_size.0
    }

    /// The time-domain half of a bootstrap call against this cache: loads
    /// the caller's look-up table into the lut buffer and the rounded form
    /// of it into the rounding buffer, overwriting both in place. What the
    /// call leaves in the buffers is a function of the call's arguments and
    /// the cache's dimensions alone — never of what an earlier call left
    /// there — which is why one cache can serve any number of consecutive
    /// calls exactly as a chain of freshly built caches would.
    pub fn prepare_bootstrap(&mut self, lut: &GlweCiphertext, base_log: usize, levels: usize)
        requires
            old(self).wf(),
            lut.wf(),
            lut.polynomial_size == old(self).lut_buffer.polynomial_size,
            lut.glwe_size == old(self).lut_buffer.glwe_size,
            1 <= base_log * levels <= 63,
        ensures
            final(self).wf(),
            final(self).lut_buffer.polynomial_size == old(self).lut_buffer.polynomial_size,
            final(self).lut_buffer.glwe_size == old(self).lut_buffer.glwe_size,
            final(self).fft_buffers == old(self).fft_buffers,
            final(self).lut_buffer.coefficients@ == lut.coefficients@,
            final(self).rounded_buffer.coefficients@ == Seq::new(
                lut.coefficients@.len(),
                |j: int| spec_closest_representable(
                    lut.coefficients@[j],
                    base_log as u64,
                    levels as u64,
                ),
            ),
    {
        let len = lut.coefficients.len();
        let mut new_lut: Vec<u64> = Vec::new();
        let mut new_rounded: Vec<u64> = Vec::new();
        let mut j: usize = 0;
        while j < len
            invariant
                j <= len,
                len == lut.coefficients@.len(),
                1 <= base_log * levels <= 63,
                new_lut@.len() == j,
                new_rounded@.len() == j,
                forall|t: int| 0 <= t < j ==> new_lut@[t] == lut.coefficients@[t],
                forall|t: int|
                    0 <= t < j ==> new_rounded@[t] == spec_closest_representable(
                        lut.coefficients@[t],
                        base_log as u64,
                        levels as u64,
                    ),
            decreases len - j,
        {
            let c = lut.coefficients[j];
            new_lut.push(c);
            new_rounded.push(closest_representable(c, base_log, levels));
            j = j + 1;
        }
        proof {
            assert(new_lut@ =~= lut.coefficients@);
        }
        self.lut_buffer = GlweCiphertext {
            polynomial_size: lut.polynomial_size,
            glwe_size: lut.glwe_size,
            coefficients: new_lut,
        };
        self.rounded_buffer = GlweCiphertext {
            polynomial_size: lut.polynomial_size,
            glwe_size: lut.glwe_size,
            coefficients: new_rounded,
        };
    }
}

/// The closest value whose low bits, below the `base_log * levels` the
/// decomposition keeps, are zero: ties round up.
pub open spec fn spec_closest_representable(a: u64, base_log: u64, levels: u64) -> u64
    recommends
        1 <= base_log * levels <= 63,
{
    let shift = (64 - base_log * levels) as u64;
    (vstd::wrapping::u64_specs::wrapping_add(a >> ((shift - 1) as u64), 1u64) >> 1u64) << shift
}

/// Rounds a torus word to the closest value the decomposition can represent.
pub fn closest_representable(a: u64, base_log: usize, levels: usize) -> (r: u64)
    requires
        1 <= base_log * levels <= 63,
    ensures
        r == spec_closest_representable(a, base_log as u64, levels as u64),
{
    proof {
        assert(base_log * levels <= 63);
    }
    let kept: u64 = (base_log as u64) * (levels as u64);
    let shift: u64 = 64 - kept;
    let half_interval: u64 = a >> (shift - 1);
    (half_interval.wrapping_add(1) >> 1) << shift
}

} // verus!
