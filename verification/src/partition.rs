//! Partitioning of a ciphertext batch across several devices.
//!
//! The share of every device is a pure function of the batch size, the number
//! of available devices and the device index: an even split with the
//! remainder handed to the earliest devices, so that shares differ by at most
//! one, sum exactly to the batch size, and never spread a small batch over
//! more devices than it has ciphertexts.

use vstd::prelude::*;
use crate::parameters::{CiphertextCount, GpuIndex, NumberOfGpus};

verus! {

/// Number of devices that actually take part: no device receives less than
/// one ciphertext, so a batch smaller than the device count uses only as many
/// devices as it has ciphertexts.
pub open spec fn spec_active_gpus(available: nat, count: nat) -> nat {
    if count < available {
        count
    } else {
        available
    }
}

/// The share of the batch owned by the device at `index`: an even split of
/// `count` over the active devices, with the first `count % active` devices
/// taking one extra unit, and devices past the active range taking nothing.
pub open spec fn spec_samples_on_gpu(available: nat, count: nat, index: nat) -> nat {
    let active = spec_active_gpus(available, count);
    if active == 0 || index >= active {
        0
    } else if index < count % active {
        count / active + 1
    } else {
        count / active
    }
}

/// Sum of the shares of the first `upto` devices.
pub open spec fn spec_sum_of_shares(available: nat, count: nat, upto: nat) -> nat
    decreases upto,
{
    if upto == 0 {
        0
    } else {
        spec_sum_of_shares(available, count, (upto - 1) as nat) + spec_samples_on_gpu(
            available,
            count,
            (upto - 1) as nat,
        )
    }
}

/// How many devices take part in a batch of `sample_count` ciphertexts.
pub fn number_of_active_gpus(
    number_of_available_gpus: NumberOfGpus,
    sample_count: CiphertextCount,
) -> (r: NumberOfGpus)
    ensures
        r.0 == spec_active_gpus(number_of_available_gpus.0 as nat, sample_count.0 as nat),
{
    if sample_count.0 < number_of_available_gpus.0 {
        NumberOfGpus(sample_count.0)
    } else {
        number_of_available_gpus
    }
}

/// The number of ciphertexts assigned to the device at `gpu_index`.
pub fn compute_number_of_samples_on_gpu(
    number_of_available_gpus: NumberOfGpus,
    sample_count: CiphertextCount,
    gpu_index: GpuIndex,
) -> (r: usize)
    ensures
        r == spec_samples_on_gpu(
            number_of_available_gpus.0 as nat,
            sample_count.0 as nat,
            gpu_index.0 as nat,
        ),
{
    let active = number_of_active_gpus(number_of_available_gpus, sample_count).0;
    if active == 0 || gpu_index.0 >= active {
        0
    } else if gpu_index.0 < sample_count.0 % active {
        proof {
            lemma_share_fits(sample_count.0 as nat, active as nat);
        }
        sample_count.0 / active + 1
    } else {
        sample_count.0 / active
    }
}

/// When the split does not come out even, one more than the even share still
/// fits in the machine word that holds the batch size.
proof fn lemma_share_fits(count: nat, active: nat)
    requires
        active >= 1,
        count % active > 0,
    ensures
        count / active + 1 <= count,
{
    assert(count % 1 == 0nat) by (nonlinear_arith);
    assert(active >= 2);
    assert(count / active + 1 <= count) by (nonlinear_arith)
        requires
            active >= 2,
            count % active > 0,
    {
        vstd::arithmetic::div_mod::lemma_fundamental_div_mod(count as int, active as int);
    }
}

/// Closed form for the sum of the first `k` shares among the active devices.
proof fn lemma_sum_closed_form(available: nat, count: nat, k: nat)
    requires
        spec_active_gpus(available, count) >= 1,
        k <= spec_active_gpus(available, count),
    ensures
        spec_sum_of_shares(available, count, k) == k * (count / spec_active_gpus(available, count))
            + (if k <= count % spec_active_gpus(available, count) {
            k
        } else {
            count % spec_active_gpus(available, count)
        }),
    decreases k,
{
    let active = spec_active_gpus(available, count);
    let q = count / active;
    let r = count % active;
    if k == 0 {
        assert(spec_sum_of_shares(available, count, 0) == 0);
    } else {
        lemma_sum_closed_form(available, count, (k - 1) as nat);
        assert(k * q == (k - 1) * q + q) by (nonlinear_arith);
    }
}

/// One more device adds exactly its share to the sum.
pub proof fn lemma_sum_unfold(available: nat, count: nat, k: nat)
    ensures
        spec_sum_of_shares(available, count, k + 1) == spec_sum_of_shares(available, count, k)
            + spec_samples_on_gpu(available, count, k),
{
}

/// The sum of shares only grows with the number of devices counted.
pub proof fn lemma_sum_monotone(available: nat, count: nat, k: nat, m: nat)
    requires
        k <= m,
    ensures
        spec_sum_of_shares(available, count, k) <= spec_sum_of_shares(available, count, m),
    decreases m,
{
    if m > k {
        lemma_sum_monotone(available, count, k, (m - 1) as nat);
    }
}

/// Shares past the active range are zero, so they do not change the sum.
pub proof fn lemma_sum_stable_past_active(available: nat, count: nat, k: nat)
    requires
        spec_active_gpus(available, count) <= k,
    ensures
        spec_sum_of_shares(available, count, k) == spec_sum_of_shares(
            available,
            count,
            spec_active_gpus(available, count),
        ),
    decreases k,
{
    let active = spec_active_gpus(available, count);
    if k > active {
        lemma_sum_stable_past_active(available, count, (k - 1) as nat);
        assert(spec_samples_on_gpu(available, count, (k - 1) as nat) == 0);
    }
}

/// Partition correctness: for every batch size and every device count of at
/// least one, the computed shares sum exactly to the batch size.
pub proof fn lemma_partition_sums_to_count(available: nat, count: nat)
    requires
        available >= 1,
    ensures
        spec_sum_of_shares(available, count, available) == count,
{
    let active = spec_active_gpus(available, count);
    if count == 0 {
        lemma_sum_stable_past_active(available, count, available);
    } else {
        assert(active >= 1);
        vstd::arithmetic::div_mod::lemma_fundamental_div_mod(count as int, active as int);
        lemma_sum_closed_form(available, count, active);
        assert(count % active < active);
        assert(active * (count / active) == (count / active) * active) by (nonlinear_arith);
        lemma_sum_stable_past_active(available, count, available);
    }
}

/// Partition correctness: two shares of the same batch differ by at most one
/// ciphertext, whichever devices they belong to.
pub proof fn lemma_partition_balanced(available: nat, count: nat, i: nat, j: nat)
    requires
        available >= 1,
        i < available,
        j < available,
    ensures
        spec_samples_on_gpu(available, count, i) <= spec_samples_on_gpu(available, count, j) + 1,
{
    let active = spec_active_gpus(available, count);
    if count == 0 {
    } else if count < available {
        assert(active == count);
        assert(count % count == 0 && count / count == 1) by (nonlinear_arith)
            requires
                count >= 1,
        ;
    } else {
        assert(active == available);
        assert(j < active);
    }
}

/// Partition degeneracy: a batch smaller than the device count leaves every
/// device at an index past the batch size without work, so at most `count`
/// devices receive a non-zero share.
pub proof fn lemma_partition_degenerate(available: nat, count: nat, index: nat)
    requires
        count < available,
        count <= index,
    ensures
        spec_samples_on_gpu(available, count, index) == 0,
{
}

/// In the degenerate case the working devices receive exactly one ciphertext
/// each: the batch is spread one to a device, in device order.
pub proof fn lemma_partition_degenerate_ones(available: nat, count: nat, index: nat)
    requires
        count < available,
        index < count,
    ensures
        spec_samples_on_gpu(available, count, index) == 1,
{
    assert(count % count == 0 && count / count == 1) by (nonlinear_arith)
        requires
            count >= 1,
    ;
}

} // verus!
