use jeprof::histogram::Histogram;
use jeprof::report::{print_histogram, print_section, push_row, push_summary, size_bytes};

#[test]
fn size_bytes_is_a_power_of_two() {
    assert_eq!(size_bytes(0), 1);
    assert_eq!(size_bytes(9), 512);
    assert_eq!(size_bytes(34), 1 << 34);
    assert_eq!(size_bytes(63), 1 << 63);
}

#[test]
fn print_section_writes_eighty_characters() {
    let mut text = String::from("x");
    print_section(&mut text, '*');
    print_section(&mut text, '-');
    assert_eq!(text, format!("x{}\n{}\n", "*".repeat(80), "-".repeat(80)));
}

#[test]
fn row_pads_its_columns() {
    let mut text = String::new();
    push_row(&mut text, "512 B", 3, 4, 6);
    assert_eq!(text, format!("512 B      |         3 |     75.00% | {}\n", "#".repeat(25)));
}

#[test]
fn row_keeps_texts_longer_than_their_column() {
    let mut text = String::new();
    push_row(&mut text, "a size that is long", 1234567890123, 1234567890123, 1234567890123);
    assert_eq!(
        text,
        format!("a size that is long | 1234567890123 |    100.00% | {}\n", "#".repeat(50))
    );
}

#[test]
fn percentage_rounds_to_the_nearest_hundredth_and_ties_to_even() {
    let cases: [(u64, u64, &str); 7] = [
        (1, 3, "33.33"),
        (2, 3, "66.67"),
        (1, 1001, "0.10"),
        (1, 32, "3.12"),
        (3, 32, "9.38"),
        (1, 100_000, "0.00"),
        (0, 5, "0.00"),
    ];
    for (count, total, percent) in cases {
        let mut text = String::new();
        push_row(&mut text, "", count, total, total);
        assert!(
            text.starts_with(&format!("{:10} | {:>9} | {:>9}% | ", "", count, percent)),
            "{}",
            text
        );
    }
}

#[test]
fn bar_rounds_to_the_nearest_length_and_ties_upwards() {
    let cases: [(u64, u64, usize); 6] =
        [(1, 100, 1), (1, 101, 0), (1, 1000, 0), (99, 100, 50), (1, 2, 25), (3, 100, 2)];
    for (count, max, bar) in cases {
        let mut text = String::new();
        push_row(&mut text, "", count, max, max);
        assert!(text.ends_with(&format!("% | {}\n", "#".repeat(bar))), "{}", text);
    }
}

#[test]
fn summary_names_total_and_count() {
    let mut text = String::new();
    push_summary(&mut text, "1023 B", 1);
    assert_eq!(text, "Total allocations: 1023 B in 1 allocations\n");
}

#[test]
fn table_is_appended_to_what_the_pager_holds() {
    let mut text = String::from("before\n");
    print_histogram(&Histogram::new(), &mut text);
    assert!(text.starts_with("before\nSize      | Count     | Percentage | Distribution\n"));
    assert!(text.ends_with("Total allocations: 0 B in 0 allocations\n"));
}

#[test]
fn sizes_below_one_unit_read_in_bytes_and_larger_ones_in_binary_units() {
    let mut hist = Histogram::new();
    hist.increment(1000);
    hist.increment(3 << 20);
    let mut text = String::new();
    print_histogram(&hist, &mut text);
    assert!(text.contains("\n512 B      |         1 |     50.00% | "));
    assert!(text.contains("\n2.0 MiB    |         1 |     50.00% | "));
    assert!(text.ends_with("Total allocations: 3.0 MiB in 2 allocations\n"));
}

#[test]
fn pairs_are_sorted_by_weight_and_ties_keep_their_order() {
    let pairs = vec![(5u64, 0usize), (1, 1), (5, 2), (0, 3), (u64::MAX, 4), (1, 5), (3, 6)];
    let sorted = jeprof::sorting::sort_by_weight(&pairs);
    assert_eq!(sorted, vec![(0, 3), (1, 1), (1, 5), (3, 6), (5, 0), (5, 2), (u64::MAX, 4)]);
    assert!(jeprof::sorting::sort_by_weight(&Vec::new()).is_empty());
    assert_eq!(jeprof::sorting::sort_by_weight(&vec![(9, 9)]), vec![(9, 9)]);
    let many: Vec<(u64, usize)> = (0..1000usize).map(|i| (((i * 7919) % 101) as u64, i)).collect();
    let sorted = jeprof::sorting::sort_by_weight(&many);
    let mut expected = many.clone();
    expected.sort_by_key(|pair| pair.0);
    assert_eq!(sorted, expected);
}
