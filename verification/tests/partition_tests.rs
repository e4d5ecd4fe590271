use concrete_core::parameters::{CiphertextCount, GpuIndex, NumberOfGpus};
use concrete_core::partition::{compute_number_of_samples_on_gpu, number_of_active_gpus};

fn shares(batch: usize, devices: usize) -> Vec<usize> {
    let mut r = Vec::new();
    for d in 0..devices {
        r.push(compute_number_of_samples_on_gpu(
            NumberOfGpus(devices),
            CiphertextCount(batch),
            GpuIndex(d),
        ));
    }
    r
}

#[test]
fn partition_hundred_over_three() {
    assert_eq!(shares(100, 3), vec![34, 33, 33]);
}

#[test]
fn partition_degenerate_two_over_four() {
    assert_eq!(shares(2, 4), vec![1, 1, 0, 0]);
}

#[test]
fn partition_sums_and_balance() {
    for batch in [0usize, 1, 2, 3, 7, 100, 101, 1024] {
        for devices in [1usize, 2, 3, 4, 8, 13] {
            let s = shares(batch, devices);
            assert_eq!(s.iter().sum::<usize>(), batch);
            let max = *s.iter().max().unwrap();
            let min = *s.iter().min().unwrap();
            assert!(max - min <= 1 || (batch < devices && max <= 1));
            // no more devices than ciphertexts receive work
            let busy = s.iter().filter(|&&x| x > 0).count();
            assert!(busy <= batch);
        }
    }
}

#[test]
fn active_gpus_is_min() {
    assert_eq!(
        number_of_active_gpus(NumberOfGpus(8), CiphertextCount(3)).0,
        3
    );
    assert_eq!(
        number_of_active_gpus(NumberOfGpus(2), CiphertextCount(100)).0,
        2
    );
    assert_eq!(number_of_active_gpus(NumberOfGpus(4), CiphertextCount(0)).0, 0);
}
