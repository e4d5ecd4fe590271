//! Key switching: converting LWE ciphertexts encrypted under one secret key
//! into ciphertexts under another, through a decomposition-parameterized
//! key-switch key. The checked entry point validates dimensional
//! compatibility and reports a typed error; the unchecked one states the
//! same compatibility as a precondition.

use vstd::prelude::*;
use vstd::pervasive::VecAdditionalExecFns;
use crate::engine::{spec_lwe_body, spec_mask_of, spec_seed_after, wmul, wsub, DefaultEngine};
use crate::entities::{LweCiphertext, LweCiphertextVector, LweSecretKey, PlaintextVector};
use crate::parameters::{DecompositionBaseLog, DecompositionLevelCount, LweDimension};

verus! {

/// Key material converting ciphertexts under an input key into ciphertexts
/// under an output key: one row per (input coefficient, decomposition level)
/// pair, each row an LWE ciphertext of the output dimension.
pub struct LweKeyswitchKey {
    pub input_lwe_dimension: LweDimension,
    pub output_lwe_dimension: LweDimension,
    pub decomp_level_count: DecompositionLevelCount,
    pub decomp_base_log: DecompositionBaseLog,
    pub rows: Vec<LweCiphertext>,
}

impl LweKeyswitchKey {
    /// The decomposition parameters are meaningful and the rows cover every
    /// (input coefficient, level) pair at the output dimension.
    pub open spec fn wf(&self) -> bool {
        &&& 1 <= self.decomp_base_log.0
        &&& self.decomp_base_log.0 <= 63
        &&& 1 <= self.decomp_level_count.0
        &&& self.decomp_base_log.0 * self.decomp_level_count.0 <= 64
        &&& self.rows@.len() == self.input_lwe_dimension.0 * self.decomp_level_count.0
        &&& forall|i: int|
            0 <= i < self.rows@.len() ==> (#[trigger] self.rows@[i]).spec_dimension()
                == self.output_lwe_dimension.0
    }
}

/// The digit of `a` at one decomposition level: the `base_log` bits of `a`
/// just below the top `base_log * level` bits.
pub open spec fn spec_digit(a: u64, base_log: u64, level: u64) -> u64
    recommends
        1 <= base_log <= 63,
        base_log * (level + 1) <= 64,
{
    (a >> ((64 - base_log * (level + 1)) as u64)) & (((1u64 << base_log) - 1) as u64)
}

/// The plaintext encrypted in the key-switch-key row of coefficient `s` at
/// one level: `s` scaled to the weight the digit of that level carries.
pub open spec fn spec_ks_row_message(s: u64, base_log: u64, level: u64) -> u64
    recommends
        1 <= base_log <= 63,
        base_log * (level + 1) <= 64,
{
    s << ((64 - base_log * (level + 1)) as u64)
}

/// One accumulator update: subtracts `d` times a key row from the mask and
/// body being built.
pub open spec fn spec_ks_sub_row(mask: Seq<u64>, body: u64, row: LweCiphertext, d: u64) -> (
    Seq<u64>,
    u64,
) {
    (
        Seq::new(mask.len(), |j: int| wsub(mask[j], wmul(d, row.mask@[j]))),
        wsub(body, wmul(d, row.body)),
    )
}

/// The accumulator after the first `upto` levels of input coefficient `i`
/// have been applied.
pub open spec fn spec_ks_levels(
    ksk: LweKeyswitchKey,
    a_i: u64,
    i: int,
    mask: Seq<u64>,
    body: u64,
    upto: nat,
) -> (Seq<u64>, u64)
    decreases upto,
{
    if upto == 0 {
        (mask, body)
    } else {
        let prev = spec_ks_levels(ksk, a_i, i, mask, body, (upto - 1) as nat);
        spec_ks_sub_row(
            prev.0,
            prev.1,
            ksk.rows@[i * ksk.decomp_level_count.0 + (upto - 1)],
            spec_digit(a_i, ksk.decomp_base_log.0 as u64, (upto - 1) as u64),
        )
    }
}

/// The accumulator after the first `upto` input coefficients have been
/// applied, every level of each.
pub open spec fn spec_ks_coords(
    ksk: LweKeyswitchKey,
    a: Seq<u64>,
    mask: Seq<u64>,
    body: u64,
    upto: nat,
) -> (Seq<u64>, u64)
    decreases upto,
{
    if upto == 0 {
        (mask, body)
    } else {
        let prev = spec_ks_coords(ksk, a, mask, body, (upto - 1) as nat);
        spec_ks_levels(
            ksk,
            a[upto - 1],
            upto - 1,
            prev.0,
            prev.1,
            ksk.decomp_level_count.0 as nat,
        )
    }
}

/// What key switching one ciphertext yields: starting from a zero mask and
/// the input body, every decomposition digit of every input mask coefficient
/// subtracts its multiple of the matching key row.
pub open spec fn spec_keyswitch(ksk: LweKeyswitchKey, ct: LweCiphertext) -> (Seq<u64>, u64) {
    spec_ks_coords(
        ksk,
        ct.mask@,
        Seq::new(ksk.output_lwe_dimension.0 as nat, |j: int| 0u64),
        ct.body,
        ct.mask@.len(),
    )
}

/// A vector of `n` zero words.
pub fn zero_vector(n: usize) -> (r: Vec<u64>)
    ensures
        r@ == Seq::new(n as nat, |i: int| 0u64),
{
    let mut r: Vec<u64> = Vec::new();
    let mut i: usize = 0;
    while i < n
        invariant
            i <= n,
            r@.len() == i,
            forall|k: int| 0 <= k < i ==> r@[k] == 0u64,
        decreases n - i,
    {
        r.push(0u64);
        i = i + 1;
    }
    assert(r@ =~= Seq::new(n as nat, |i: int| 0u64));
    r
}

/// The decomposition digit of `a` at `level`.
pub(crate) fn decomposition_digit(a: u64, base_log: usize, level: usize) -> (r: u64)
    requires
        1 <= base_log <= 63,
        base_log * (level + 1) <= 64,
    ensures
        r == spec_digit(a, base_log as u64, level as u64),
{
    proof {
        assert(level + 1 <= 64 && 1 <= base_log * (level + 1)) by (nonlinear_arith)
            requires
                1 <= base_log,
                base_log * (level + 1) <= 64,
                level >= 0,
        ;
    }
    let b: u64 = base_log as u64;
    let shift: u64 = 64 - b * ((level as u64) + 1);
    proof {
        assert((1u64 << b) >= 1) by (bit_vector)
            requires
                1 <= b <= 63,
        ;
    }
    (a >> shift) & ((1u64 << b) - 1)
}

/// Key switches one LWE ciphertext from the key-switch key's input key to
/// its output key.
pub fn keyswitch_lwe_ciphertext(ksk: &LweKeyswitchKey, input: &LweCiphertext) -> (r: LweCiphertext)
    requires
        ksk.wf(),
        input.spec_dimension() == ksk.input_lwe_dimension.0,
    ensures
        r.spec_dimension() == ksk.output_lwe_dimension.0,
        r.mask@ == spec_keyswitch(*ksk, *input).0,
        r.body == spec_keyswitch(*ksk, *input).1,
{
    let out_dim = ksk.output_lwe_dimension.0;
    let levels = ksk.decomp_level_count.0;
    let base_log = ksk.decomp_base_log.0;
    let in_dim = input.mask.len();
    let n_rows_total = ksk.rows.len();
    let ghost zeros = Seq::new(out_dim as nat, |j: int| 0u64);
    let mut mask = zero_vector(out_dim);
    let mut body: u64 = input.body;
    let mut i: usize = 0;
    while i < in_dim
        invariant
            i <= in_dim,
            ksk.wf(),
            n_rows_total == ksk.rows@.len(),
            in_dim == input.spec_dimension(),
            in_dim == ksk.input_lwe_dimension.0,
            out_dim == ksk.output_lwe_dimension.0,
            levels == ksk.decomp_level_count.0,
            base_log == ksk.decomp_base_log.0,
            zeros == Seq::new(out_dim as nat, |j: int| 0u64),
            mask@.len() == out_dim,
            mask@ == spec_ks_coords(*ksk, input.mask@, zeros, input.body, i as nat).0,
            body == spec_ks_coords(*ksk, input.mask@, zeros, input.body, i as nat).1,
        decreases in_dim - i,
    {
        let a_i = input.mask[i];
        let ghost sm = mask@;
        let ghost sb = body;
        let mut l: usize = 0;
        while l < levels
            invariant
                l <= levels,
                i < in_dim,
                ksk.wf(),
                n_rows_total == ksk.rows@.len(),
                a_i == input.mask@[i as int],
                in_dim == ksk.input_lwe_dimension.0,
                out_dim == ksk.output_lwe_dimension.0,
                levels == ksk.decomp_level_count.0,
                base_log == ksk.decomp_base_log.0,
                mask@.len() == out_dim,
                mask@ == spec_ks_levels(*ksk, a_i, i as int, sm, sb, l as nat).0,
                body == spec_ks_levels(*ksk, a_i, i as int, sm, sb, l as nat).1,
            decreases levels - l,
        {
            proof {
                assert(i * levels + l < in_dim * levels) by (nonlinear_arith)
                    requires
                        i < in_dim,
                        l < levels,
                ;
                assert(base_log * (l + 1) <= base_log * levels) by (nonlinear_arith)
                    requires
                        l + 1 <= levels,
                        base_log >= 0,
                ;
            }
            let d = decomposition_digit(a_i, base_log, l);
            let row_index: usize = i * levels + l;
            let ghost prev_mask = mask@;
            let ghost prev_body = body;
            let mut j: usize = 0;
            while j < out_dim
                invariant
                    j <= out_dim,
                    ksk.wf(),
                    row_index < ksk.rows@.len(),
                    ksk.rows@[row_index as int].spec_dimension() == out_dim,
                    out_dim == ksk.output_lwe_dimension.0,
                    mask@.len() == out_dim,
                    prev_mask.len() == out_dim,
                    forall|t: int|
                        0 <= t < j ==> mask@[t] == wsub(
                            prev_mask[t],
                            wmul(d, ksk.rows@[row_index as int].mask@[t]),
                        ),
                    forall|t: int| j <= t < out_dim ==> mask@[t] == prev_mask[t],
                decreases out_dim - j,
            {
                let updated = mask[j].wrapping_sub(d.wrapping_mul(ksk.rows[row_index].mask[j]));
                mask.set(j, updated);
                j = j + 1;
            }
            body = body.wrapping_sub(d.wrapping_mul(ksk.rows[row_index].body));
            proof {
                let step = spec_ks_sub_row(
                    prev_mask,
                    prev_body,
                    ksk.rows@[row_index as int],
                    spec_digit(a_i, base_log as u64, l as u64),
                );
                assert(mask@ =~= step.0);
                assert(body == step.1);
                assert(mask@ == spec_ks_levels(*ksk, a_i, i as int, sm, sb, (l + 1) as nat).0);
            }
            l = l + 1;
        }
        proof {
            assert(mask@ == spec_ks_coords(*ksk, input.mask@, zeros, input.body, (i + 1) as nat).0);
            assert(body == spec_ks_coords(*ksk, input.mask@, zeros, input.body, (i + 1) as nat).1);
        }
        i = i + 1;
    }
    LweCiphertext { mask, body }
}

/// The error surface of the checked key-switch entry point: the key-switch
/// key's recorded input dimension disagrees with the ciphertext vector's.
#[derive(Clone, Copy, PartialEq, Eq, Structural, Debug)]
pub enum LweKeyswitchError {
    InputLweDimensionMismatch,
}

/// Key switches a whole ciphertext vector; every output ciphertext is the
/// key switch of the input at the same position.
pub fn keyswitch_lwe_ciphertext_vector_unchecked(
    ksk: &LweKeyswitchKey,
    input: &LweCiphertextVector,
) -> (r: LweCiphertextVector)
    requires
        ksk.wf(),
        input.wf(),
        input.lwe_dimension == ksk.input_lwe_dimension,
    ensures
        r.wf(),
        r.lwe_dimension == ksk.output_lwe_dimension,
        r.ciphertexts@.len() == input.ciphertexts@.len(),
        forall|k: int|
            0 <= k < input.ciphertexts@.len() ==> {
                &&& (#[trigger] r.ciphertexts@[k]).mask@ == spec_keyswitch(
                    *ksk,
                    input.ciphertexts@[k],
                ).0
                &&& r.ciphertexts@[k].body == spec_keyswitch(*ksk, input.ciphertexts@[k]).1
            },
{
    let mut out: Vec<LweCiphertext> = Vec::new();
    let count = input.ciphertexts.len();
    let mut k: usize = 0;
    while k < count
        invariant
            k <= count,
            count == input.ciphertexts@.len(),
            ksk.wf(),
            input.wf(),
            input.lwe_dimension == ksk.input_lwe_dimension,
            out@.len() == k,
            forall|t: int|
                0 <= t < k ==> {
                    &&& (#[trigger] out@[t]).mask@ == spec_keyswitch(*ksk, input.ciphertexts@[t]).0
                    &&& out@[t].body == spec_keyswitch(*ksk, input.ciphertexts@[t]).1
                    &&& out@[t].spec_dimension() == ksk.output_lwe_dimension.0
                },
        decreases count - k,
    {
        let ct = keyswitch_lwe_ciphertext(ksk, &input.ciphertexts[k]);
        out.push(ct);
        k = k + 1;
    }
    LweCiphertextVector { lwe_dimension: ksk.output_lwe_dimension, ciphertexts: out }
}

/// Checked key switch of a ciphertext vector: rejects a key whose recorded
/// input dimension differs from the vector's dimension, allocating nothing
/// in that case; otherwise returns the key switch of every ciphertext.
pub fn keyswitch_lwe_ciphertext_vector(
    ksk: &LweKeyswitchKey,
    input: &LweCiphertextVector,
) -> (r: Result<LweCiphertextVector, LweKeyswitchError>)
    requires
        ksk.wf(),
        input.wf(),
    ensures
        r is Err <==> ksk.input_lwe_dimension != input.lwe_dimension,
        r matches Err(e) ==> e == LweKeyswitchError::InputLweDimensionMismatch,
        r matches Ok(out) ==> {
            &&& out.wf()
            &&& out.lwe_dimension == ksk.output_lwe_dimension
            &&& out.ciphertexts@.len() == input.ciphertexts@.len()
            &&& forall|k: int|
                0 <= k < input.ciphertexts@.len() ==> {
                    &&& (#[trigger] out.ciphertexts@[k]).mask@ == spec_keyswitch(
                        *ksk,
                        input.ciphertexts@[k],
                    ).0
                    &&& out.ciphertexts@[k].body == spec_keyswitch(*ksk, input.ciphertexts@[k]).1
                }
        },
{
    if ksk.input_lwe_dimension.0 != input.lwe_dimension.0 {
        return Err(LweKeyswitchError::InputLweDimensionMismatch);
    }
    Ok(keyswitch_lwe_ciphertext_vector_unchecked(ksk, input))
}

impl DefaultEngine {
    /// Generates a key-switch key from an input key to an output key: the
    /// row of input coefficient `i` at level `l` encrypts that coefficient
    /// scaled to the weight of the digit of level `l`, under the output key,
    /// with one noise word per row.
    pub fn new_lwe_keyswitch_key(
        &mut self,
        input_key: &LweSecretKey,
        output_key: &LweSecretKey,
        decomp_level_count: DecompositionLevelCount,
        decomp_base_log: DecompositionBaseLog,
        noise: &Vec<u64>,
    ) -> (r: LweKeyswitchKey)
        requires
            1 <= decomp_base_log.0 <= 63,
            1 <= decomp_level_count.0,
            decomp_base_log.0 * decomp_level_count.0 <= 64,
            input_key.spec_dimension() * decomp_level_count.0 <= usize::MAX,
            noise@.len() == input_key.spec_dimension() * decomp_level_count.0,
            8 * (output_key.spec_dimension() * (input_key.spec_dimension()
                * decomp_level_count.0)) <= usize::MAX,
        ensures
            final(self).next_seed == spec_seed_after(old(self).next_seed),
            r.wf(),
            r.input_lwe_dimension.0 == input_key.spec_dimension(),
            r.output_lwe_dimension.0 == output_key.spec_dimension(),
            r.decomp_level_count == decomp_level_count,
            r.decomp_base_log == decomp_base_log,
            forall|t: int|
                0 <= t < r.rows@.len() ==> {
                    let m = spec_mask_of(
                        old(self).next_seed,
                        output_key.spec_dimension(),
                        (input_key.spec_dimension() * decomp_level_count.0) as nat,
                        t,
                    );
                    &&& (#[trigger] r.rows@[t]).mask@ == m
                    &&& r.rows@[t].body == spec_lwe_body(
                        m,
                        output_key.coefficients@,
                        spec_ks_row_message(
                            input_key.coefficients@[t / decomp_level_count.0 as int],
                            decomp_base_log.0 as u64,
                            (t % decomp_level_count.0 as int) as u64,
                        ),
                        noise@[t],
                    )
                },
    {
        let in_dim = input_key.coefficients.len();
        let levels = decomp_level_count.0;
        let base_log = decomp_base_log.0;
        let n_rows: usize = in_dim * levels;
        let mut messages: Vec<u64> = Vec::new();
        let mut t: usize = 0;
        while t < n_rows
            invariant
                t <= n_rows,
                n_rows == in_dim * levels,
                in_dim == input_key.spec_dimension(),
                1 <= base_log <= 63,
                1 <= levels,
                base_log * levels <= 64,
                messages@.len() == t,
                forall|u: int|
                    0 <= u < t ==> messages@[u] == spec_ks_row_message(
                        input_key.coefficients@[u / levels as int],
                        base_log as u64,
                        (u % levels as int) as u64,
                    ),
            decreases n_rows - t,
        {
            let i: usize = t / levels;
            let l: usize = t % levels;
            proof {
                vstd::arithmetic::div_mod::lemma_fundamental_div_mod(t as int, levels as int);
                assert(i < in_dim) by (nonlinear_arith)
                    requires
                        t < in_dim * levels,
                        levels >= 1,
                        i == t as int / levels as int,
                ;
                assert(l < levels);
                assert(base_log * (l + 1) <= base_log * levels) by (nonlinear_arith)
                    requires
                        l + 1 <= levels,
                        base_log >= 0,
                ;
                assert(1 <= base_log * (l + 1)) by (nonlinear_arith)
                    requires
                        base_log >= 1,
                        l >= 0,
                ;
            }
            let b: u64 = base_log as u64;
            let shift: u64 = 64 - b * ((l as u64) + 1);
            let msg: u64 = input_key.coefficients[i] << shift;
            messages.push(msg);
            t = t + 1;
        }
        let plain = PlaintextVector { raw: messages };
        let full = self.encrypt_lwe_ciphertext_vector(output_key, &plain, noise);
        LweKeyswitchKey {
            input_lwe_dimension: LweDimension(in_dim),
            output_lwe_dimension: LweDimension(output_key.coefficients.len()),
            decomp_level_count,
            decomp_base_log,
            rows: full.ciphertexts,
        }
    }
}

} // verus!
