use jeprof::histogram::{ilog2, Histogram, BUCKETS, MAX_TRACKED_ALLOCATION_SIZE};

fn counted(values: &[u64]) -> Histogram {
    let mut hist = Histogram::new();
    for v in values {
        hist.increment(*v);
    }
    hist
}

#[test]
fn new_histogram_is_zero() {
    let hist = Histogram::new();
    assert_eq!(hist.data.len(), BUCKETS);
    assert_eq!(hist.data.len(), 35);
    assert_eq!(MAX_TRACKED_ALLOCATION_SIZE, 34);
    assert!(hist.data.iter().all(|c| *c == 0));
    assert_eq!(hist.total, 0);
    assert_eq!(hist.total_count(), 0);
}

#[test]
fn ilog2_rounds_down() {
    assert_eq!(ilog2(1), 0);
    assert_eq!(ilog2(2), 1);
    assert_eq!(ilog2(3), 1);
    assert_eq!(ilog2(1023), 9);
    assert_eq!(ilog2(1024), 10);
    assert_eq!(ilog2(1026), 10);
    assert_eq!(ilog2(u64::MAX), 63);
    for exp in 0..64u32 {
        assert_eq!(ilog2(1u64 << exp), exp);
    }
}

#[test]
fn increment_zero_changes_nothing() {
    let mut hist = counted(&[5, 900]);
    let before = hist;
    hist.increment(0);
    assert_eq!(hist.data, before.data);
    assert_eq!(hist.total, before.total);
}

#[test]
fn increment_counts_one_bucket_and_adds_the_size() {
    let mut hist = counted(&[7]);
    let before = hist;
    hist.increment(1000);
    for i in 0..BUCKETS {
        if i == 9 {
            assert_eq!(hist.data[i], before.data[i] + 1);
        } else {
            assert_eq!(hist.data[i], before.data[i]);
        }
    }
    assert_eq!(hist.total, 1007);
}

#[test]
fn increment_never_lowers_a_counter() {
    let mut hist = Histogram::new();
    let mut before = hist;
    for v in [1u64, 3, 3, 64, 1 << 33, 1 << 34, u64::MAX, 9] {
        hist.increment(v);
        for i in 0..BUCKETS {
            assert!(hist.data[i] >= before.data[i]);
        }
        assert!(hist.total >= before.total);
        before = hist;
    }
}

#[test]
fn smallest_size_goes_to_the_first_bucket() {
    let hist = counted(&[1]);
    assert_eq!(hist.data[0], 1);
    assert_eq!(hist.total, 1);
    assert_eq!(hist.total_count(), 1);
}

#[test]
fn largest_tracked_size_goes_to_the_last_counted_bucket() {
    let hist = counted(&[(1u64 << 34) - 1]);
    assert_eq!(hist.data[33], 1);
    assert_eq!(hist.data[34], 0);
    assert_eq!(hist.total, (1u64 << 34) - 1);
    assert_eq!(hist.total_count(), 1);
}

#[test]
fn sizes_from_sixteen_gib_on_are_only_summed() {
    let hist = counted(&[1u64 << 34]);
    assert!(hist.data.iter().all(|c| *c == 0));
    assert_eq!(hist.total, 1u64 << 34);
    assert_eq!(hist.total_count(), 0);
    let hist = counted(&[1u64 << 40, 3]);
    assert_eq!(hist.data[1], 1);
    assert_eq!(hist.total_count(), 1);
    assert_eq!(hist.total, (1u64 << 40) + 3);
}

#[test]
fn total_saturates() {
    let mut hist = counted(&[u64::MAX - 1]);
    hist.increment(5);
    assert_eq!(hist.total, u64::MAX);
    assert_eq!(hist.data[2], 1);
    hist.increment(1);
    assert_eq!(hist.total, u64::MAX);
    assert_eq!(hist.data[0], 1);
}

#[test]
fn counter_saturates() {
    let mut hist = Histogram::new();
    hist.data[3] = u64::MAX;
    hist.increment(8);
    assert_eq!(hist.data[3], u64::MAX);
    assert_eq!(hist.total, 8);
}

#[test]
fn total_count_saturates() {
    let mut hist = Histogram::new();
    hist.data[0] = u64::MAX;
    hist.data[1] = 2;
    assert_eq!(hist.total_count(), u64::MAX);
    hist.data[0] = u64::MAX - 2;
    assert_eq!(hist.total_count(), u64::MAX);
    hist.data[0] = u64::MAX - 3;
    assert_eq!(hist.total_count(), u64::MAX - 1);
}

#[test]
fn merge_adds_counters_and_totals() {
    let mut a = counted(&[1, 1, 600]);
    let b = counted(&[1, 700, 1 << 20]);
    a.merge(&b);
    assert_eq!(a.data[0], 3);
    assert_eq!(a.data[9], 2);
    assert_eq!(a.data[20], 1);
    assert_eq!(a.total, 1 + 1 + 600 + 1 + 700 + (1 << 20));
    assert_eq!(a.total_count(), 6);
}

#[test]
fn merge_saturates() {
    let mut a = Histogram::new();
    a.data[4] = u64::MAX - 1;
    a.total = u64::MAX - 10;
    let mut b = Histogram::new();
    b.data[4] = 7;
    b.total = 11;
    a.merge(&b);
    assert_eq!(a.data[4], u64::MAX);
    assert_eq!(a.total, u64::MAX);
}

#[test]
fn merge_is_commutative() {
    let a = counted(&[1, 5, 1 << 33, u64::MAX]);
    let b = counted(&[2, 5, 5, 1 << 12]);
    let mut ab = a;
    ab.merge(&b);
    let mut ba = b;
    ba.merge(&a);
    assert_eq!(ab.data, ba.data);
    assert_eq!(ab.total, ba.total);
}

#[test]
fn merge_is_associative() {
    let a = counted(&[1, 5, u64::MAX - 3]);
    let b = counted(&[2, 5, 5, 1 << 12]);
    let mut c = counted(&[77]);
    c.data[2] = u64::MAX;
    let mut left = a;
    left.merge(&b);
    left.merge(&c);
    let mut bc = b;
    bc.merge(&c);
    let mut right = a;
    right.merge(&bc);
    assert_eq!(left.data, right.data);
    assert_eq!(left.total, right.total);
}

#[test]
fn merge_with_zero_changes_nothing() {
    let a = counted(&[1, 5, 900]);
    let mut merged = a;
    merged.merge(&Histogram::new());
    assert_eq!(merged.data, a.data);
    assert_eq!(merged.total, a.total);
}

#[test]
fn scenario_single_small_allocation() {
    let hist = counted(&[1023]);
    assert_eq!(hist.data[9], 1);
    assert_eq!(hist.total, 1023);
    assert_eq!(hist.total_count(), 1);
}

#[test]
fn scenario_mixed_sizes() {
    let hist = counted(&[1, 512, 1026]);
    assert_eq!(hist.data[0], 1);
    assert_eq!(hist.data[9], 1);
    assert_eq!(hist.data[10], 1);
    assert_eq!(hist.total, 1539);
    assert_eq!(hist.total_count(), 3);
}

#[test]
fn scenario_large_allocations() {
    let hist = counted(&[1 << 20, 1 << 30]);
    assert_eq!(hist.data[20], 1);
    assert_eq!(hist.data[30], 1);
    assert_eq!(hist.total, (1u64 << 20) + (1u64 << 30));
    assert_eq!(hist.total, 1_074_790_400);
    assert_eq!(hist.total_count(), 2);
}
