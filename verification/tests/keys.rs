use jeprof::schema::{
    HistogramKey, ReducedEventKey, UnpackedHistogramKey, COUNT_INDEX, FUNCTION_INFO_INDEX,
    MAX_ALLOC_INDEX, MIN_ALLOC_INDEX, SAMPLE_EVERY_INDEX,
};

#[test]
fn key_round_trips_through_its_parts() {
    for (pid, stack_id, cpu) in [
        (0u32, 0u32, 0u32),
        (1, 2, 3),
        (u32::MAX, 0, 0),
        (0, u32::MAX, 0),
        (0, 0, u32::MAX),
        (u32::MAX, u32::MAX, u32::MAX),
        (4242, 0x8000_0000, 63),
    ] {
        let parts = HistogramKey::new(pid, stack_id, cpu).into_parts();
        assert_eq!(parts, UnpackedHistogramKey { pid, stack_id, cpu });
    }
}

#[test]
fn key_packs_pid_and_stack_into_the_first_word() {
    let key = HistogramKey::new(0x1234_5678, 0x9abc_def0, 7);
    assert_eq!(key.to_words(), (0x1234_5678_9abc_def0, 7));
}

#[test]
fn key_round_trips_through_its_words() {
    let written = HistogramKey::new(99, 0xdead_beef, 11);
    let (first, second) = written.to_words();
    let read = HistogramKey::from_words(first, second);
    assert_eq!(read, written);
    assert_eq!(read.into_parts(), UnpackedHistogramKey { pid: 99, stack_id: 0xdead_beef, cpu: 11 });
}

#[test]
fn upper_half_of_the_cpu_word_is_ignored() {
    let key = HistogramKey::from_words(0x0000_0005_0000_0006, 0xffff_ffff_0000_0002);
    assert_eq!(key.into_parts(), UnpackedHistogramKey { pid: 5, stack_id: 6, cpu: 2 });
}

#[test]
fn reduced_key_drops_the_cpu() {
    let key = UnpackedHistogramKey { pid: 10, stack_id: 20, cpu: 30 };
    assert_eq!(key.as_reduced(), ReducedEventKey { pid: 10, stack_id: 20 });
}

#[test]
fn config_indices_are_fixed() {
    assert_eq!(MIN_ALLOC_INDEX, 0);
    assert_eq!(MAX_ALLOC_INDEX, 1);
    assert_eq!(COUNT_INDEX, 2);
    assert_eq!(SAMPLE_EVERY_INDEX, 3);
    assert_eq!(FUNCTION_INFO_INDEX, 4);
}
