use jeprof::histogram::Histogram;
use jeprof::report::print_histogram;

fn header() -> String {
    let mut text = String::from("Size      | Count     | Percentage | Distribution\n");
    text.push_str("----------+-----------+------------+");
    text.push_str(&"-".repeat(50));
    text.push('\n');
    text
}

fn row(size: &str, count: &str, percent: &str, bar: usize) -> String {
    format!("{:10} | {:>9} | {:>9}% | {}\n", size, count, percent, "#".repeat(bar))
}

#[test]
fn print_histogram_empty() {
    let histogram = Histogram::new();
    let mut buf = String::new();
    print_histogram(&histogram, &mut buf);
    let expected = format!("{}Total allocations: 0 B in 0 allocations\n", header());
    assert_eq!(buf, expected);
}

#[test]
fn print_histogram_single_allocation() {
    let mut histogram = Histogram::new();
    histogram.increment(1023);
    let mut buf = String::new();
    print_histogram(&histogram, &mut buf);
    let expected = format!(
        "{}{}Total allocations: 1023 B in 1 allocations\n",
        header(),
        row("512 B", "1", "100.00", 50)
    );
    assert_eq!(buf, expected);
    assert!(buf.contains("512 B      |         1 |    100.00% | ##########"));
}

#[test]
fn print_histogram_multiple_sizes() {
    let mut histogram = Histogram::new();
    histogram.increment(1); // 1 B
    histogram.increment(512); // 512 B
    histogram.increment(1026); // 2 KB
    let mut buf = String::new();
    print_histogram(&histogram, &mut buf);
    let expected = format!(
        "{}{}{}{}Total allocations: 1.5 kiB in 3 allocations\n",
        header(),
        row("1 B", "1", "33.33", 50),
        row("512 B", "1", "33.33", 50),
        row("1.0 kiB", "1", "33.33", 50)
    );
    assert_eq!(buf, expected);
}

#[test]
fn print_histogram_large_allocations() {
    let mut histogram = Histogram::new();
    histogram.increment(1 << 20); // 1 MB
    histogram.increment(1u64 << 30); // 1 GB
    let mut buf = String::new();
    print_histogram(&histogram, &mut buf);
    let expected = format!(
        "{}{}{}Total allocations: 1.0 GiB in 2 allocations\n",
        header(),
        row("1.0 MiB", "1", "50.00", 50),
        row("1.0 GiB", "1", "50.00", 50)
    );
    assert_eq!(buf, expected);
}

#[test]
fn print_histogram_many_small_allocations() {
    let mut histogram = Histogram::new();
    for _ in 0..1000 {
        histogram.increment(1); // 1 B
    }
    histogram.increment(1023); // 1 KB
    let mut buf = String::new();
    print_histogram(&histogram, &mut buf);
    let expected = format!(
        "{}{}{}Total allocations: 2.0 kiB in 1001 allocations\n",
        header(),
        row("1 B", "1000", "99.90", 50),
        row("512 B", "1", "0.10", 0)
    );
    assert_eq!(buf, expected);
    assert!(buf.contains("512 B      |         1 |      0.10% | \n"));
}
