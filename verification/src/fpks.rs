//! Functional packing key switch: converts a batch of LWE ciphertexts into
//! one GLWE ciphertext, each ciphertext's decomposition digits subtracting
//! their multiples of the packing key rows from a shared accumulator. The
//! multi-device form lets every device fold its own shard into the
//! accumulator, in device order.

use vstd::prelude::*;
use vstd::pervasive::VecAdditionalExecFns;
use crate::cuda::CudaLweList;
use crate::engine::{wmul, wsub};
use crate::entities::{LweCiphertext, LweCiphertextVector};
use crate::keyswitch::{decomposition_digit, spec_digit};
use crate::parameters::{
    DecompositionBaseLog, DecompositionLevelCount, FunctionalPackingKeyswitchKeyCount,
    GlweDimension, LweDimension, NumberOfGpus, PolynomialSize,
};

verus! {

/// Packing key-switch key material: one row per (input coordinate, level)
/// pair — the ciphertext body counting as the last coordinate — each row a
/// GLWE ciphertext laid out as one word vector.
pub struct LwePrivateFunctionalPackingKeyswitchKeyList {
    pub input_lwe_key_dimension: LweDimension,
    pub output_glwe_key_dimension: GlweDimension,
    pub output_polynomial_size: PolynomialSize,
    pub decomposition_level_count: DecompositionLevelCount,
    pub decomposition_base_log: DecompositionBaseLog,
    pub fpksk_count: FunctionalPackingKeyswitchKeyCount,
    pub rows: Vec<Vec<u64>>,
}

impl LwePrivateFunctionalPackingKeyswitchKeyList {
    /// The length of one row: one polynomial per GLWE polynomial.
    pub open spec fn spec_row_len(&self) -> nat {
        (self.output_polynomial_size.0 * (self.output_glwe_key_dimension.0 + 1)) as nat
    }

    /// The decomposition parameters are meaningful and the rows cover every
    /// (coordinate, level) pair at the output layout.
    pub open spec fn wf(&self) -> bool {
        &&& 1 <= self.decomposition_base_log.0
        &&& self.decomposition_base_log.0 <= 63
        &&& 1 <= self.decomposition_level_count.0
        &&& self.decomposition_base_log.0 * self.decomposition_level_count.0 <= 64
        &&& self.fpksk_count.0 >= 1
        &&& self.rows@.len() == (self.input_lwe_key_dimension.0 + 1)
            * self.decomposition_level_count.0
        &&& forall|t: int|
            0 <= t < self.rows@.len() ==> (#[trigger] self.rows@[t])@.len() == self.spec_row_len()
    }
}

/// One accumulator update: subtracts `d` times a packing key row.
pub open spec fn spec_fp_sub_row(acc: Seq<u64>, row: Seq<u64>, d: u64) -> Seq<u64> {
    Seq::new(acc.len(), |j: int| wsub(acc[j], wmul(d, row[j])))
}

/// The accumulator after the first `upto` levels of coordinate `coord`,
/// whose value is `c`, have been applied.
pub open spec fn spec_fp_levels(
    key: LwePrivateFunctionalPackingKeyswitchKeyList,
    c: u64,
    coord: int,
    acc: Seq<u64>,
    upto: nat,
) -> Seq<u64>
    decreases upto,
{
    if upto == 0 {
        acc
    } else {
        spec_fp_sub_row(
            spec_fp_levels(key, c, coord, acc, (upto - 1) as nat),
            key.rows@[coord * key.decomposition_level_count.0 + (upto - 1)]@,
            spec_digit(c, key.decomposition_base_log.0 as u64, (upto - 1) as u64),
        )
    }
}

/// The value of coordinate `coord` of a ciphertext: its mask coefficients
/// first, its body last.
pub open spec fn spec_fp_coord_value(ct: LweCiphertext, coord: int) -> u64 {
    if coord < ct.mask@.len() {
        ct.mask@[coord]
    } else {
        ct.body
    }
}

/// The accumulator after the first `upto` coordinates of one ciphertext.
pub open spec fn spec_fp_coords(
    key: LwePrivateFunctionalPackingKeyswitchKeyList,
    ct: LweCiphertext,
    acc: Seq<u64>,
    upto: nat,
) -> Seq<u64>
    decreases upto,
{
    if upto == 0 {
        acc
    } else {
        spec_fp_levels(
            key,
            spec_fp_coord_value(ct, upto - 1),
            upto - 1,
            spec_fp_coords(key, ct, acc, (upto - 1) as nat),
            key.decomposition_level_count.0 as nat,
        )
    }
}

/// The accumulator after one whole ciphertext: every coordinate, the body
/// included, at every level.
pub open spec fn spec_fp_ct(
    key: LwePrivateFunctionalPackingKeyswitchKeyList,
    ct: LweCiphertext,
    acc: Seq<u64>,
) -> Seq<u64> {
    spec_fp_coords(key, ct, acc, (ct.mask@.len() + 1) as nat)
}

/// The accumulator after the first `upto` ciphertexts of a batch.
pub open spec fn spec_fp_cts(
    key: LwePrivateFunctionalPackingKeyswitchKeyList,
    cts: Seq<LweCiphertext>,
    acc: Seq<u64>,
    upto: nat,
) -> Seq<u64>
    decreases upto,
{
    if upto == 0 {
        acc
    } else {
        spec_fp_ct(key, cts[upto - 1], spec_fp_cts(key, cts, acc, (upto - 1) as nat))
    }
}

/// Folds one device-resident shard into the accumulator: the per-device
/// packing key-switch computation.
pub fn discard_fp_keyswitch_lwe_to_glwe(
    accumulator: &mut Vec<u64>,
    shard: &LweCiphertextVector,
    key: &LwePrivateFunctionalPackingKeyswitchKeyList,
)
    requires
        key.wf(),
        shard.wf(),
        shard.lwe_dimension == key.input_lwe_key_dimension,
        old(accumulator)@.len() == key.spec_row_len(),
    ensures
        final(accumulator)@ == spec_fp_cts(
            *key,
            shard.ciphertexts@,
            old(accumulator)@,
            shard.ciphertexts@.len(),
        ),
        final(accumulator)@.len() == old(accumulator)@.len(),
{
    let count = shard.ciphertexts.len();
    let levels = key.decomposition_level_count.0;
    let base_log = key.decomposition_base_log.0;
    let row_len = accumulator.len();
    let n_rows = key.rows.len();
    let ghost acc0 = accumulator@;
    let mut k: usize = 0;
    while k < count
        invariant
            k <= count,
            count == shard.ciphertexts@.len(),
            key.wf(),
            shard.wf(),
            shard.lwe_dimension == key.input_lwe_key_dimension,
            levels == key.decomposition_level_count.0,
            base_log == key.decomposition_base_log.0,
            row_len == key.spec_row_len(),
            n_rows == key.rows@.len(),
            accumulator@.len() == row_len,
            accumulator@ == spec_fp_cts(*key, shard.ciphertexts@, acc0, k as nat),
        decreases count - k,
    {
        let ct = &shard.ciphertexts[k];
        proof {
            assert(shard.ciphertexts@[k as int].spec_dimension() == key.input_lwe_key_dimension.0);
            assert((key.input_lwe_key_dimension.0 + 1) * key.decomposition_level_count.0
                >= key.input_lwe_key_dimension.0 + 1) by (nonlinear_arith)
                requires
                    key.decomposition_level_count.0 >= 1,
                    key.input_lwe_key_dimension.0 >= 0,
            ;
        }
        let n_coords: usize = ct.mask.len() + 1;
        let ghost ct_acc = accumulator@;
        let mut coord: usize = 0;
        while coord < n_coords
            invariant
                coord <= n_coords,
                k < count,
                count == shard.ciphertexts@.len(),
                ct == shard.ciphertexts@[k as int],
                n_coords == ct.mask@.len() + 1,
                ct.mask@.len() == key.input_lwe_key_dimension.0,
                key.wf(),
                levels == key.decomposition_level_count.0,
                base_log == key.decomposition_base_log.0,
                row_len == key.spec_row_len(),
                n_rows == key.rows@.len(),
                accumulator@.len() == row_len,
                accumulator@ == spec_fp_coords(*key, *ct, ct_acc, coord as nat),
            decreases n_coords - coord,
        {
            let c: u64 = if coord < ct.mask.len() {
                ct.mask[coord]
            } else {
                ct.body
            };
            let ghost coord_acc = accumulator@;
            let mut l: usize = 0;
            while l < levels
                invariant
                    l <= levels,
                    coord < n_coords,
                    n_coords == ct.mask@.len() + 1,
                    ct.mask@.len() == key.input_lwe_key_dimension.0,
                    c == spec_fp_coord_value(*ct, coord as int),
                    key.wf(),
                    levels == key.decomposition_level_count.0,
                    base_log == key.decomposition_base_log.0,
                    row_len == key.spec_row_len(),
                    n_rows == key.rows@.len(),
                    accumulator@.len() == row_len,
                    accumulator@ == spec_fp_levels(*key, c, coord as int, coord_acc, l as nat),
                decreases levels - l,
            {
                proof {
                    assert(coord * levels + l < (key.input_lwe_key_dimension.0 + 1) * levels)
                        by (nonlinear_arith)
                        requires
                            coord < key.input_lwe_key_dimension.0 + 1,
                            l < levels,
                    ;
                    assert(base_log * (l + 1) <= base_log * levels) by (nonlinear_arith)
                        requires
                            l + 1 <= levels,
                            base_log >= 0,
                    ;
                }
                let d = decomposition_digit(c, base_log, l);
                let row_index: usize = coord * levels + l;
                let ghost prev = accumulator@;
                let mut j: usize = 0;
                while j < row_len
                    invariant
                        j <= row_len,
                        row_index < key.rows@.len(),
                        key.rows@[row_index as int]@.len() == row_len,
                        key.wf(),
                        accumulator@.len() == row_len,
                        prev.len() == row_len,
                        forall|t: int|
                            0 <= t < j ==> accumulator@[t] == wsub(
                                prev[t],
                                wmul(d, key.rows@[row_index as int]@[t]),
                            ),
                        forall|t: int| j <= t < row_len ==> accumulator@[t] == prev[t],
                    decreases row_len - j,
                {
                    let updated = accumulator[j].wrapping_sub(
                        d.wrapping_mul(key.rows[row_index][j]),
                    );
                    accumulator.set(j, updated);
                    j = j + 1;
                }
                proof {
                    assert(accumulator@ =~= spec_fp_sub_row(
                        prev,
                        key.rows@[row_index as int]@,
                        spec_digit(c, base_log as u64, l as u64),
                    ));
                    assert(accumulator@ == spec_fp_levels(
                        *key,
                        c,
                        coord as int,
                        coord_acc,
                        (l + 1) as nat,
                    ));
                }
                l = l + 1;
            }
            coord = coord + 1;
            proof {
                assert(accumulator@ == spec_fp_coords(*key, *ct, ct_acc, coord as nat));
            }
        }
        k = k + 1;
        proof {
            assert(accumulator@ == spec_fp_ct(*key, shard.ciphertexts@[k - 1], ct_acc));
            assert(accumulator@ == spec_fp_cts(*key, shard.ciphertexts@, acc0, k as nat));
        }
    }
}

/// A GLWE ciphertext resident on the devices: the shared accumulator of the
/// packing key switch, plus its layout.
pub struct CudaGlweCiphertext {
    pub d_vec: Vec<u64>,
    pub glwe_dimension: GlweDimension,
    pub polynomial_size: PolynomialSize,
}

/// Packing key material mirrored across devices: one resident copy of the
/// key list per device, all copies carrying the same rows.
pub struct CudaLwePrivateFunctionalPackingKeyswitchKeyList {
    pub d_vecs: Vec<LwePrivateFunctionalPackingKeyswitchKeyList>,
    pub input_lwe_key_dimension: LweDimension,
    pub output_glwe_key_dimension: GlweDimension,
    pub output_polynomial_size: PolynomialSize,
    pub decomposition_level_count: DecompositionLevelCount,
    pub decomposition_base_log: DecompositionBaseLog,
    pub fpksk_count: FunctionalPackingKeyswitchKeyCount,
}

impl CudaLwePrivateFunctionalPackingKeyswitchKeyList {
    /// Every device holds a well-formed copy at the recorded layout.
    pub open spec fn wf(&self) -> bool {
        &&& self.d_vecs@.len() >= 1
        &&& forall|i: int|
            0 <= i < self.d_vecs@.len() ==> (#[trigger] self.d_vecs@[i]).wf()
                && self.d_vecs@[i].input_lwe_key_dimension == self.input_lwe_key_dimension
                && self.d_vecs@[i].output_glwe_key_dimension == self.output_glwe_key_dimension
                && self.d_vecs@[i].output_polynomial_size == self.output_polynomial_size
    }
}

/// The accumulator after the first `upto` shards, each folded by its own
/// device against its own resident key copy, in device order.
pub open spec fn spec_fp_shards(
    keys: Seq<LwePrivateFunctionalPackingKeyswitchKeyList>,
    shards: Seq<Seq<LweCiphertext>>,
    acc: Seq<u64>,
    upto: nat,
) -> Seq<u64>
    decreases upto,
{
    if upto == 0 {
        acc
    } else {
        spec_fp_cts(
            keys[upto - 1],
            shards[upto - 1],
            spec_fp_shards(keys, shards, acc, (upto - 1) as nat),
            shards[upto - 1].len(),
        )
    }
}

/// Packing key switches a device-resident ciphertext batch into one GLWE
/// ciphertext: every device folds its own shard into the accumulator against
/// its own resident key copy, in device order, and the call returns only the
/// fully completed result.
pub fn execute_lwe_ciphertext_vector_fp_keyswitch_on_gpu(
    output: &mut CudaGlweCiphertext,
    input: &CudaLweList,
    fp_ksk_list: &CudaLwePrivateFunctionalPackingKeyswitchKeyList,
    number_of_available_gpus: NumberOfGpus,
)
    requires
        fp_ksk_list.wf(),
        input.wf(number_of_available_gpus.0 as nat),
        input.lwe_dimension == fp_ksk_list.input_lwe_key_dimension,
        fp_ksk_list.d_vecs@.len() >= input.d_vecs@.len(),
        old(output).glwe_dimension == fp_ksk_list.output_glwe_key_dimension,
        old(output).polynomial_size == fp_ksk_list.output_polynomial_size,
        old(output).d_vec@.len() == fp_ksk_list.output_polynomial_size.0
            * (fp_ksk_list.output_glwe_key_dimension.0 + 1),
    ensures
        final(output).glwe_dimension == old(output).glwe_dimension,
        final(output).polynomial_size == old(output).polynomial_size,
        final(output).d_vec@ == spec_fp_shards(
            Seq::new(input.d_vecs@.len(), |g: int| fp_ksk_list.d_vecs@[g]),
            Seq::new(input.d_vecs@.len(), |g: int| input.d_vecs@[g].ciphertexts@),
            old(output).d_vec@,
            input.d_vecs@.len() as nat,
        ),
        final(output).d_vec@.len() == old(output).d_vec@.len(),
{
    let ghost keys = Seq::new(input.d_vecs@.len(), |g: int| fp_ksk_list.d_vecs@[g]);
    let ghost shards = Seq::new(input.d_vecs@.len(), |g: int| input.d_vecs@[g].ciphertexts@);
    let ghost acc0 = output.d_vec@;
    let n_shards = input.d_vecs.len();
    let mut g: usize = 0;
    while g < n_shards
        invariant
            g <= n_shards,
            n_shards == input.d_vecs@.len(),
            fp_ksk_list.wf(),
            input.wf(number_of_available_gpus.0 as nat),
            input.lwe_dimension == fp_ksk_list.input_lwe_key_dimension,
            fp_ksk_list.d_vecs@.len() >= n_shards,
            keys == Seq::new(input.d_vecs@.len(), |t: int| fp_ksk_list.d_vecs@[t]),
            shards == Seq::new(input.d_vecs@.len(), |t: int| input.d_vecs@[t].ciphertexts@),
            output.glwe_dimension == fp_ksk_list.output_glwe_key_dimension,
            output.polynomial_size == fp_ksk_list.output_polynomial_size,
            output.d_vec@.len() == fp_ksk_list.output_polynomial_size.0
                * (fp_ksk_list.output_glwe_key_dimension.0 + 1),
            acc0.len() == output.d_vec@.len(),
            output.d_vec@ == spec_fp_shards(keys, shards, acc0, g as nat),
        decreases n_shards - g,
    {
        discard_fp_keyswitch_lwe_to_glwe(
            &mut output.d_vec,
            &input.d_vecs[g],
            &fp_ksk_list.d_vecs[g],
        );
        g = g + 1;
        proof {
            assert(output.d_vec@ == spec_fp_shards(keys, shards, acc0, g as nat));
        }
    }
}

} // verus!
