//! The multi-device backend: device-resident mirrors of ciphertext batches
//! and key material, the contiguous order-preserving split of a batch across
//! devices, and the dispatch that key switches every shard and exposes only
//! the fully completed result.

use vstd::prelude::*;
use crate::entities::{LweCiphertext, LweCiphertextVector};
use crate::keyswitch::{spec_keyswitch, keyswitch_lwe_ciphertext_vector_unchecked, LweKeyswitchKey};
use crate::parameters::{
    DecompositionBaseLog, DecompositionLevelCount, GpuIndex, LweCiphertextCount, LweDimension,
    NumberOfGpus,
};
use crate::partition::{
    compute_number_of_samples_on_gpu, lemma_partition_sums_to_count, lemma_sum_monotone,
    lemma_sum_stable_past_active, lemma_sum_unfold, number_of_active_gpus, spec_active_gpus,
    spec_samples_on_gpu, spec_sum_of_shares,
};
use crate::parameters::CiphertextCount;

verus! {

/// The mathematical content of one LWE ciphertext: its mask word sequence
/// and its body.
pub open spec fn spec_ct_view(ct: LweCiphertext) -> (Seq<u64>, u64) {
    (ct.mask@, ct.body)
}

/// The contents of a batch of ciphertexts, ciphertext by ciphertext.
pub open spec fn spec_cts_views(cts: Seq<LweCiphertext>) -> Seq<(Seq<u64>, u64)> {
    Seq::new(cts.len(), |i: int| spec_ct_view(cts[i]))
}

/// Concatenation of a sequence of shards, in shard order.
pub open spec fn spec_concat_shards(shards: Seq<Seq<(Seq<u64>, u64)>>) -> Seq<(Seq<u64>, u64)>
    decreases shards.len(),
{
    if shards.len() == 0 {
        Seq::empty()
    } else {
        spec_concat_shards(shards.drop_last()) + shards.last()
    }
}

/// A ciphertext vector mirrored across devices: shard `i` holds a contiguous
/// slice of the logical batch, in device order, so global ordering is
/// preserved.
pub struct CudaLweList {
    pub d_vecs: Vec<LweCiphertextVector>,
    pub lwe_dimension: LweDimension,
    pub lwe_ciphertext_count: LweCiphertextCount,
}

impl CudaLweList {
    /// The shards of the list, as sequences of ciphertext contents.
    pub open spec fn spec_shards(&self) -> Seq<Seq<(Seq<u64>, u64)>> {
        Seq::new(self.d_vecs@.len(), |i: int| spec_cts_views(self.d_vecs@[i].ciphertexts@))
    }

    /// Every shard is well formed at the recorded dimension, and the shard
    /// layout is the even split of the recorded batch size over `available`
    /// devices.
    pub open spec fn wf(&self, available: nat) -> bool {
        &&& self.d_vecs@.len() == spec_active_gpus(available, self.lwe_ciphertext_count.0 as nat)
        &&& forall|i: int|
            0 <= i < self.d_vecs@.len() ==> (#[trigger] self.d_vecs@[i]).wf()
                && self.d_vecs@[i].lwe_dimension == self.lwe_dimension
                && self.d_vecs@[i].ciphertexts@.len() == spec_samples_on_gpu(
                available,
                self.lwe_ciphertext_count.0 as nat,
                i as nat,
            )
    }
}

/// Copies one word vector.
fn clone_words(v: &Vec<u64>) -> (r: Vec<u64>)
    ensures
        r@ == v@,
{
    let mut r: Vec<u64> = Vec::new();
    let mut i: usize = 0;
    while i < v.len()
        invariant
            i <= v@.len(),
            r@.len() == i,
            forall|k: int| 0 <= k < i ==> r@[k] == v@[k],
        decreases v@.len() - i,
    {
        r.push(v[i]);
        i = i + 1;
    }
    assert(r@ =~= v@);
    r
}

/// Copies one LWE ciphertext.
fn clone_ciphertext(ct: &LweCiphertext) -> (r: LweCiphertext)
    ensures
        r.mask@ == ct.mask@,
        r.body == ct.body,
{
    LweCiphertext { mask: clone_words(&ct.mask), body: ct.body }
}

/// Splits a ciphertext vector into per-device shards: contiguous,
/// non-overlapping, order-preserving slices whose concatenation is exactly
/// the input batch, shard `i` holding the share the partition rule assigns
/// to device `i`.
pub fn split_lwe_ciphertext_vector_across_gpus(
    input: &LweCiphertextVector,
    number_of_available_gpus: NumberOfGpus,
) -> (r: CudaLweList)
    requires
        input.wf(),
        number_of_available_gpus.0 >= 1,
    ensures
        r.wf(number_of_available_gpus.0 as nat),
        r.lwe_dimension == input.lwe_dimension,
        r.lwe_ciphertext_count.0 == input.ciphertexts@.len(),
        spec_concat_shards(r.spec_shards()) == spec_cts_views(input.ciphertexts@),
{
    let count = input.ciphertexts.len();
    let avail = number_of_available_gpus.0;
    let active = number_of_active_gpus(number_of_available_gpus, CiphertextCount(count)).0;
    proof {
        lemma_partition_sums_to_count(avail as nat, count as nat);
        lemma_sum_stable_past_active(avail as nat, count as nat, avail as nat);
    }
    let mut d_vecs: Vec<LweCiphertextVector> = Vec::new();
    let mut offset: usize = 0;
    let mut g: usize = 0;
    while g < active
        invariant
            g <= active,
            count == input.ciphertexts@.len(),
            input.wf(),
            active == spec_active_gpus(avail as nat, count as nat),
            avail == number_of_available_gpus.0,
            avail >= 1,
            spec_sum_of_shares(avail as nat, count as nat, active as nat) == count,
            offset == spec_sum_of_shares(avail as nat, count as nat, g as nat),
            offset <= count,
            d_vecs@.len() == g,
            forall|i: int|
                0 <= i < g ==> (#[trigger] d_vecs@[i]).wf() && d_vecs@[i].lwe_dimension
                    == input.lwe_dimension && d_vecs@[i].ciphertexts@.len() == spec_samples_on_gpu(
                    avail as nat,
                    count as nat,
                    i as nat,
                ),
            spec_concat_shards(Seq::new(d_vecs@.len(), |i: int| spec_cts_views(d_vecs@[i].ciphertexts@)))
                == spec_cts_views(input.ciphertexts@).subrange(0, offset as int),
        decreases active - g,
    {
        let samples = compute_number_of_samples_on_gpu(
            number_of_available_gpus,
            CiphertextCount(count),
            GpuIndex(g),
        );
        proof {
            lemma_sum_unfold(avail as nat, count as nat, g as nat);
            lemma_sum_monotone(avail as nat, count as nat, (g + 1) as nat, active as nat);
            assert(samples == spec_samples_on_gpu(avail as nat, count as nat, g as nat));
            assert(spec_sum_of_shares(avail as nat, count as nat, (g as nat) + 1)
                == spec_sum_of_shares(avail as nat, count as nat, g as nat) + spec_samples_on_gpu(
                avail as nat,
                count as nat,
                g as nat,
            ));
            assert(offset + samples == spec_sum_of_shares(avail as nat, count as nat, (g + 1) as nat));
        }
        let mut shard: Vec<LweCiphertext> = Vec::new();
        let mut k: usize = 0;
        while k < samples
            invariant
                k <= samples,
                offset + samples <= count,
                count == input.ciphertexts@.len(),
                input.wf(),
                shard@.len() == k,
                forall|t: int|
                    0 <= t < k ==> (#[trigger] shard@[t]).mask@ == input.ciphertexts@[offset
                        + t].mask@ && shard@[t].body == input.ciphertexts@[offset + t].body
                        && shard@[t].spec_dimension() == input.lwe_dimension.0,
            decreases samples - k,
        {
            let ct = clone_ciphertext(&input.ciphertexts[offset + k]);
            shard.push(ct);
            k = k + 1;
        }
        proof {
            assert(spec_cts_views(shard@) =~= spec_cts_views(input.ciphertexts@).subrange(
                offset as int,
                offset as int + samples as int,
            ));
        }
        let ghost old_shards = Seq::new(
            d_vecs@.len(),
            |i: int| spec_cts_views(d_vecs@[i].ciphertexts@),
        );
        d_vecs.push(
            LweCiphertextVector { lwe_dimension: input.lwe_dimension, ciphertexts: shard },
        );
        proof {
            let new_shards = Seq::new(
                d_vecs@.len(),
                |i: int| spec_cts_views(d_vecs@[i].ciphertexts@),
            );
            assert(new_shards.drop_last() =~= old_shards);
            assert(spec_concat_shards(new_shards) == spec_concat_shards(old_shards)
                + new_shards.last());
            let views = spec_cts_views(input.ciphertexts@);
            assert(views.subrange(0, offset as int) + views.subrange(
                offset as int,
                offset as int + samples as int,
            ) =~= views.subrange(0, offset as int + samples as int));
        }
        offset = offset + samples;
        g = g + 1;
    }
    proof {
        assert(spec_cts_views(input.ciphertexts@).subrange(0, count as int) =~= spec_cts_views(
            input.ciphertexts@,
        ));
    }
    CudaLweList {
        d_vecs,
        lwe_dimension: input.lwe_dimension,
        lwe_ciphertext_count: LweCiphertextCount(count),
    }
}

/// Gathers the shards of a device-resident list back into one ciphertext
/// vector, in shard order, so the logical batch order is restored.
pub fn gather_lwe_ciphertext_vector_from_gpus(list: CudaLweList) -> (r: LweCiphertextVector)
    requires
        forall|i: int|
            0 <= i < list.d_vecs@.len() ==> (#[trigger] list.d_vecs@[i]).wf()
                && list.d_vecs@[i].lwe_dimension == list.lwe_dimension,
    ensures
        r.wf(),
        r.lwe_dimension == list.lwe_dimension,
        spec_cts_views(r.ciphertexts@) == spec_concat_shards(list.spec_shards()),
{
    let ghost orig = list.spec_shards();
    let mut out: Vec<LweCiphertext> = Vec::new();
    let mut remaining = list.d_vecs;
    let mut g: usize = 0;
    let total_shards = remaining.len();
    while g < total_shards
        invariant
            g <= total_shards,
            orig.len() == total_shards,
            remaining@.len() == total_shards - g,
            forall|i: int|
                0 <= i < remaining@.len() ==> spec_cts_views(
                    (#[trigger] remaining@[i]).ciphertexts@,
                ) == orig[g + i] && remaining@[i].wf() && remaining@[i].lwe_dimension
                    == list.lwe_dimension,
            spec_cts_views(out@) == spec_concat_shards(orig.take(g as int)),
            forall|t: int|
                0 <= t < out@.len() ==> (#[trigger] out@[t]).spec_dimension()
                    == list.lwe_dimension.0,
        decreases total_shards - g,
    {
        let mut shard = remaining.remove(0);
        let ghost old_out = out@;
        out.append(&mut shard.ciphertexts);
        g = g + 1;
        proof {
            assert(orig.take(g as int).drop_last() =~= orig.take(g as int - 1));
            assert(spec_cts_views(out@) =~= spec_concat_shards(orig.take(g as int - 1)) + orig[g
                as int - 1]);
            assert(spec_cts_views(out@) == spec_concat_shards(orig.take(g as int)));
        }
    }
    proof {
        assert(orig.take(total_shards as int) =~= orig);
    }
    LweCiphertextVector { lwe_dimension: list.lwe_dimension, ciphertexts: out }
}

/// Key-switch key material mirrored across devices: one resident copy of the
/// key per device, all copies carrying the same rows.
pub struct CudaLweKeyswitchKey {
    pub d_vecs: Vec<LweKeyswitchKey>,
    pub input_lwe_dimension: LweDimension,
    pub output_lwe_dimension: LweDimension,
    pub decomp_level: DecompositionLevelCount,
    pub decomp_base_log: DecompositionBaseLog,
}

/// Two key-switch keys hold the same parameters and the same rows.
pub open spec fn spec_same_ksk(a: LweKeyswitchKey, b: LweKeyswitchKey) -> bool {
    &&& a.input_lwe_dimension == b.input_lwe_dimension
    &&& a.output_lwe_dimension == b.output_lwe_dimension
    &&& a.decomp_level_count == b.decomp_level_count
    &&& a.decomp_base_log == b.decomp_base_log
    &&& a.rows@.len() == b.rows@.len()
    &&& forall|t: int|
        0 <= t < a.rows@.len() ==> (#[trigger] a.rows@[t]).mask@ == b.rows@[t].mask@
            && a.rows@[t].body == b.rows@[t].body
}

/// Applying the levels of one coordinate depends only on the rows' contents,
/// so two keys holding the same rows apply them identically.
proof fn lemma_ks_levels_same(
    a: LweKeyswitchKey,
    b: LweKeyswitchKey,
    a_i: u64,
    i: int,
    mask: Seq<u64>,
    body: u64,
    upto: nat,
)
    requires
        spec_same_ksk(a, b),
        0 <= i,
        i * a.decomp_level_count.0 + upto <= a.rows@.len(),
    ensures
        crate::keyswitch::spec_ks_levels(a, a_i, i, mask, body, upto)
            == crate::keyswitch::spec_ks_levels(b, a_i, i, mask, body, upto),
    decreases upto,
{
    if upto > 0 {
        lemma_ks_levels_same(a, b, a_i, i, mask, body, (upto - 1) as nat);
        let prev = crate::keyswitch::spec_ks_levels(a, a_i, i, mask, body, (upto - 1) as nat);
        let idx = i * a.decomp_level_count.0 + (upto - 1);
        let d = crate::keyswitch::spec_digit(a_i, a.decomp_base_log.0 as u64, (upto - 1) as u64);
        let ra = crate::keyswitch::spec_ks_sub_row(prev.0, prev.1, a.rows@[idx], d);
        let rb = crate::keyswitch::spec_ks_sub_row(prev.0, prev.1, b.rows@[idx], d);
        assert(a.rows@[idx].mask@ == b.rows@[idx].mask@ && a.rows@[idx].body == b.rows@[idx].body);
        assert(ra.0 =~= rb.0);
    }
}

/// Applying the first `upto` coordinates likewise depends only on the rows'
/// contents.
proof fn lemma_ks_coords_same(
    a: LweKeyswitchKey,
    b: LweKeyswitchKey,
    cm: Seq<u64>,
    mask: Seq<u64>,
    body: u64,
    upto: nat,
)
    requires
        spec_same_ksk(a, b),
        a.wf(),
        upto <= a.input_lwe_dimension.0,
    ensures
        crate::keyswitch::spec_ks_coords(a, cm, mask, body, upto)
            == crate::keyswitch::spec_ks_coords(b, cm, mask, body, upto),
    decreases upto,
{
    if upto > 0 {
        lemma_ks_coords_same(a, b, cm, mask, body, (upto - 1) as nat);
        let prev = crate::keyswitch::spec_ks_coords(a, cm, mask, body, (upto - 1) as nat);
        assert((upto - 1) * a.decomp_level_count.0 + a.decomp_level_count.0 <= a.rows@.len())
            by (nonlinear_arith)
            requires
                upto >= 1,
                upto <= a.input_lwe_dimension.0,
                a.rows@.len() == a.input_lwe_dimension.0 * a.decomp_level_count.0,
                a.decomp_level_count.0 >= 0,
        ;
        lemma_ks_levels_same(
            a,
            b,
            cm[upto - 1],
            upto - 1,
            prev.0,
            prev.1,
            a.decomp_level_count.0 as nat,
        );
    }
}

/// Every device copy of one key-switch key acts identically: key switching a
/// ciphertext under any copy holding the same rows gives the same result, so
/// which device a ciphertext lands on cannot change its output.
pub proof fn lemma_keyswitch_same_key(a: LweKeyswitchKey, b: LweKeyswitchKey, ct: LweCiphertext)
    requires
        spec_same_ksk(a, b),
        a.wf(),
        ct.spec_dimension() == a.input_lwe_dimension.0,
    ensures
        spec_keyswitch(a, ct) == spec_keyswitch(b, ct),
{
    lemma_ks_coords_same(
        a,
        b,
        ct.mask@,
        Seq::new(a.output_lwe_dimension.0 as nat, |j: int| 0u64),
        ct.body,
        ct.mask@.len(),
    );
}

impl CudaLweKeyswitchKey {
    /// Every device holds a well-formed copy, all copies are the same key,
    /// and the recorded parameters are the copies' parameters.
    pub open spec fn wf(&self) -> bool {
        &&& self.d_vecs@.len() >= 1
        &&& forall|i: int| 0 <= i < self.d_vecs@.len() ==> (#[trigger] self.d_vecs@[i]).wf()
        &&& forall|i: int|
            0 <= i < self.d_vecs@.len() ==> spec_same_ksk(#[trigger] self.d_vecs@[i], self.d_vecs@[0])
        &&& self.d_vecs@[0].input_lwe_dimension == self.input_lwe_dimension
        &&& self.d_vecs@[0].output_lwe_dimension == self.output_lwe_dimension
        &&& self.d_vecs@[0].decomp_level_count == self.decomp_level
        &&& self.d_vecs@[0].decomp_base_log == self.decomp_base_log
    }
}

/// Copies one key-switch key.
fn clone_keyswitch_key(ksk: &LweKeyswitchKey) -> (r: LweKeyswitchKey)
    ensures
        spec_same_ksk(r, *ksk),
        ksk.wf() ==> r.wf(),
{
    let mut rows: Vec<LweCiphertext> = Vec::new();
    let mut i: usize = 0;
    while i < ksk.rows.len()
        invariant
            i <= ksk.rows@.len(),
            rows@.len() == i,
            forall|t: int|
                0 <= t < i ==> (#[trigger] rows@[t]).mask@ == ksk.rows@[t].mask@ && rows@[t].body
                    == ksk.rows@[t].body,
        decreases ksk.rows@.len() - i,
    {
        let ct = clone_ciphertext(&ksk.rows[i]);
        rows.push(ct);
        i = i + 1;
    }
    LweKeyswitchKey {
        input_lwe_dimension: ksk.input_lwe_dimension,
        output_lwe_dimension: ksk.output_lwe_dimension,
        decomp_level_count: ksk.decomp_level_count,
        decomp_base_log: ksk.decomp_base_log,
        rows,
    }
}

/// Places one resident copy of a key-switch key on each of the available
/// devices.
pub fn convert_lwe_keyswitch_key_to_gpus(
    ksk: &LweKeyswitchKey,
    number_of_available_gpus: NumberOfGpus,
) -> (r: CudaLweKeyswitchKey)
    requires
        ksk.wf(),
        number_of_available_gpus.0 >= 1,
    ensures
        r.wf(),
        r.d_vecs@.len() == number_of_available_gpus.0,
        r.input_lwe_dimension == ksk.input_lwe_dimension,
        r.output_lwe_dimension == ksk.output_lwe_dimension,
        r.decomp_level == ksk.decomp_level_count,
        r.decomp_base_log == ksk.decomp_base_log,
        forall|i: int|
            0 <= i < number_of_available_gpus.0 ==> spec_same_ksk(#[trigger] r.d_vecs@[i], *ksk),
{
    let mut d_vecs: Vec<LweKeyswitchKey> = Vec::new();
    let mut i: usize = 0;
    while i < number_of_available_gpus.0
        invariant
            i <= number_of_available_gpus.0,
            ksk.wf(),
            d_vecs@.len() == i,
            forall|t: int|
                0 <= t < i ==> spec_same_ksk(#[trigger] d_vecs@[t], *ksk) && d_vecs@[t].wf(),
        decreases number_of_available_gpus.0 - i,
    {
        let copy = clone_keyswitch_key(ksk);
        d_vecs.push(copy);
        i = i + 1;
    }
    proof {
        assert(spec_same_ksk(d_vecs@[0], *ksk));
        assert forall|t: int| 0 <= t < d_vecs@.len() implies spec_same_ksk(
            #[trigger] d_vecs@[t],
            d_vecs@[0],
        ) by {
            assert(spec_same_ksk(d_vecs@[t], *ksk));
        }
    }
    CudaLweKeyswitchKey {
        d_vecs,
        input_lwe_dimension: ksk.input_lwe_dimension,
        output_lwe_dimension: ksk.output_lwe_dimension,
        decomp_level: ksk.decomp_level_count,
        decomp_base_log: ksk.decomp_base_log,
    }
}

/// Key switches a device-resident ciphertext batch: every device key
/// switches its own shard against its own resident key copy, and the call
/// returns only the fully completed result; shard sizes, device order and
/// the position of every ciphertext within its shard are preserved.
pub fn execute_lwe_ciphertext_vector_keyswitch_on_gpu(
    output: &mut CudaLweList,
    input: &CudaLweList,
    ksk: &CudaLweKeyswitchKey,
    number_of_available_gpus: NumberOfGpus,
)
    requires
        ksk.wf(),
        input.wf(number_of_available_gpus.0 as nat),
        input.lwe_dimension == ksk.input_lwe_dimension,
        ksk.d_vecs@.len() >= input.d_vecs@.len(),
    ensures
        final(output).lwe_dimension == ksk.output_lwe_dimension,
        final(output).lwe_ciphertext_count == input.lwe_ciphertext_count,
        final(output).wf(number_of_available_gpus.0 as nat),
        final(output).d_vecs@.len() == input.d_vecs@.len(),
        forall|g: int, k: int|
            0 <= g < input.d_vecs@.len() && 0 <= k < input.d_vecs@[g].ciphertexts@.len() ==> {
                &&& (#[trigger] final(output).d_vecs@[g].ciphertexts@[k]).mask@ == spec_keyswitch(
                    ksk.d_vecs@[g],
                    input.d_vecs@[g].ciphertexts@[k],
                ).0
                &&& final(output).d_vecs@[g].ciphertexts@[k].body == spec_keyswitch(
                    ksk.d_vecs@[g],
                    input.d_vecs@[g].ciphertexts@[k],
                ).1
            },
{
    let number_of_gpus = number_of_active_gpus(
        number_of_available_gpus,
        CiphertextCount(input.lwe_ciphertext_count.0),
    );
    let mut d_vecs: Vec<LweCiphertextVector> = Vec::new();
    let mut g: usize = 0;
    let n_shards = input.d_vecs.len();
    while g < n_shards
        invariant
            g <= n_shards,
            n_shards == input.d_vecs@.len(),
            ksk.wf(),
            input.wf(number_of_available_gpus.0 as nat),
            input.lwe_dimension == ksk.input_lwe_dimension,
            ksk.d_vecs@.len() >= n_shards,
            d_vecs@.len() == g,
            forall|t: int|
                0 <= t < g ==> (#[trigger] d_vecs@[t]).wf() && d_vecs@[t].lwe_dimension
                    == ksk.output_lwe_dimension && d_vecs@[t].ciphertexts@.len()
                    == input.d_vecs@[t].ciphertexts@.len(),
            forall|t: int, k: int|
                0 <= t < g && 0 <= k < input.d_vecs@[t].ciphertexts@.len() ==> {
                    &&& (#[trigger] d_vecs@[t].ciphertexts@[k]).mask@ == spec_keyswitch(
                        ksk.d_vecs@[t],
                        input.d_vecs@[t].ciphertexts@[k],
                    ).0
                    &&& d_vecs@[t].ciphertexts@[k].body == spec_keyswitch(
                        ksk.d_vecs@[t],
                        input.d_vecs@[t].ciphertexts@[k],
                    ).1
                },
        decreases n_shards - g,
    {
        proof {
            assert(input.d_vecs@[g as int].wf());
            assert(spec_same_ksk(ksk.d_vecs@[g as int], ksk.d_vecs@[0]));
            assert(ksk.d_vecs@[g as int].wf());
        }
        let shard_out = keyswitch_lwe_ciphertext_vector_unchecked(
            &ksk.d_vecs[g],
            &input.d_vecs[g],
        );
        d_vecs.push(shard_out);
        g = g + 1;
    }
    *output = CudaLweList {
        d_vecs,
        lwe_dimension: ksk.output_lwe_dimension,
        lwe_ciphertext_count: input.lwe_ciphertext_count,
    };
}

} // verus!
