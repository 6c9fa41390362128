use kompact::work::{split_work, wrapping_sum_range, wrapping_sum_split};

#[test]
fn fan_out_work_sums_the_batch() {
    let data: Vec<u64> = (1..=1000).collect();
    assert_eq!(wrapping_sum_split(&data, 3, 0), 500500);
}

#[test]
fn zero_workers_compute_inline() {
    let data: Vec<u64> = (1..=10).collect();
    assert!(split_work(data.len(), 0).is_empty());
    assert_eq!(wrapping_sum_split(&data, 0, 0), 55);
}

#[test]
fn uneven_split_covers_the_batch() {
    let parts = split_work(1000, 3);
    assert_eq!(parts, vec![(0, 333), (333, 666), (666, 999)]);
    let data: Vec<u64> = (1..=1000).collect();
    // workers fold their strides, the manager folds the remainder
    let mut acc = 0u64;
    for (lo, hi) in &parts {
        acc = wrapping_sum_range(&data, *lo, *hi, acc);
    }
    let total = wrapping_sum_range(&data, 999, 1000, acc);
    assert_eq!(total, 500500);
    assert_eq!(wrapping_sum_split(&data, 3, 0), 500500);
}

#[test]
fn sums_wrap_rather_than_overflow() {
    let data: Vec<u64> = vec![u64::MAX, 2];
    assert_eq!(wrapping_sum_range(&data, 0, 2, 0), 1);
    assert_eq!(wrapping_sum_split(&data, 2, 0), 1);
}

#[test]
fn neutral_element_seeds_the_fold() {
    let data: Vec<u64> = vec![1, 2, 3];
    assert_eq!(wrapping_sum_range(&data, 0, 3, 100), 106);
    assert_eq!(wrapping_sum_range(&data, 1, 1, 9), 9);
}
