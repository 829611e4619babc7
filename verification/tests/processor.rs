use jeprof::csv_out::{stack_column, CsvWriter};
use jeprof::histogram::Histogram;
use jeprof::options::OrderBy;
use jeprof::processor::EventProcessor;
use jeprof::report::print_histogram;
use jeprof::reporter::order_entries;
use jeprof::resolver::{OwnedSymbol, ResolvedStackTrace};
use jeprof::schema::{ReducedEventKey, UnpackedHistogramKey};

fn counted(values: &[u64]) -> Histogram {
    let mut hist = Histogram::new();
    for v in values {
        hist.increment(*v);
    }
    hist
}

fn key(pid: u32, stack_id: u32, cpu: u32) -> UnpackedHistogramKey {
    UnpackedHistogramKey { pid, stack_id, cpu }
}

fn trace(frames: &[(u64, &str)]) -> ResolvedStackTrace {
    ResolvedStackTrace {
        symbols: frames
            .iter()
            .map(|(address, name)| OwnedSymbol { address: *address, symbol: name.to_string() })
            .collect(),
    }
}

fn table(hist: &Histogram) -> String {
    let mut text = String::new();
    print_histogram(hist, &mut text);
    text
}

fn sorted(mut entries: Vec<(ReducedEventKey, Histogram)>) -> Vec<(u32, u32, [u64; 35], u64)> {
    entries.sort_by_key(|(k, _)| (k.pid, k.stack_id));
    entries.iter().map(|(k, h)| (k.pid, k.stack_id, h.data, h.total)).collect()
}

#[test]
fn new_processor_is_empty() {
    let processor = EventProcessor::new();
    assert!(processor.shards().is_empty());
    assert!(processor.merge().is_empty());
    assert!(processor.trace(0).is_none());
    assert!(processor.shard(key(1, 2, 3)).is_none());
}

#[test]
fn process_stores_the_latest_snapshot() {
    let mut processor = EventProcessor::new();
    assert!(processor.process(key(1, 2, 0), &counted(&[8])));
    assert!(processor.process(key(1, 2, 0), &counted(&[8, 16, 16])));
    let stored = processor.shard(key(1, 2, 0)).unwrap();
    assert_eq!(stored.total, 40);
    assert_eq!(stored.data[3], 1);
    assert_eq!(stored.data[4], 2);
    assert_eq!(processor.shards().len(), 1);
}

#[test]
fn process_keeps_keys_apart_that_differ_in_one_field() {
    let mut processor = EventProcessor::new();
    let keys = [
        key(1, 2, 3),
        key(2, 2, 3),
        key(1, 3, 3),
        key(1, 2, 4),
        key(u32::MAX, u32::MAX, u32::MAX),
        key(0, 0, 0),
        key(0, 1, 0),
        key(1, 0, 0),
        key(0, 0, 1),
    ];
    for (i, k) in keys.iter().enumerate() {
        processor.process(*k, &counted(&[i as u64 + 1]));
    }
    for (i, k) in keys.iter().enumerate() {
        assert_eq!(processor.shard(*k).unwrap().total, i as u64 + 1);
    }
    let mut listed: Vec<(u32, u32, u32, u64)> =
        processor.shards().iter().map(|(k, h)| (k.pid, k.stack_id, k.cpu, h.total)).collect();
    listed.sort();
    let mut expected: Vec<(u32, u32, u32, u64)> = keys
        .iter()
        .enumerate()
        .map(|(i, k)| (k.pid, k.stack_id, k.cpu, i as u64 + 1))
        .collect();
    expected.sort();
    assert_eq!(listed, expected);
}

#[test]
fn process_says_whether_the_stack_is_resolved() {
    let mut processor = EventProcessor::new();
    assert!(processor.process(key(1, 7, 0), &counted(&[8])));
    assert!(processor.cache_trace(7, trace(&[(1, "main")])));
    assert!(!processor.process(key(1, 7, 1), &counted(&[8])));
    assert!(!processor.process(key(2, 7, 0), &counted(&[8])));
    assert!(processor.process(key(1, 8, 0), &counted(&[8])));
}

#[test]
fn stack_is_resolved_at_most_once() {
    let mut processor = EventProcessor::new();
    assert!(processor.cache_trace(7, trace(&[(1, "first")])));
    assert!(!processor.cache_trace(7, trace(&[(2, "second")])));
    let cached = processor.trace(7).unwrap();
    assert_eq!(cached.symbols.len(), 1);
    assert_eq!(cached.symbols[0].symbol, "first");
}

#[test]
fn merge_adds_the_shards_of_a_stack_across_cpus() {
    let mut processor = EventProcessor::new();
    processor.process(key(1, 2, 0), &counted(&[8, 8]));
    processor.process(key(1, 2, 5), &counted(&[8, 1024]));
    processor.process(key(1, 2, 9), &counted(&[1]));
    processor.process(key(1, 3, 0), &counted(&[64]));
    processor.process(key(4, 2, 1), &counted(&[2, 2, 2]));
    let merged = sorted(processor.merge());
    let both = counted(&[8, 8, 8, 1024, 1]);
    assert_eq!(
        merged,
        vec![
            (1, 2, both.data, both.total),
            (1, 3, counted(&[64]).data, 64),
            (4, 2, counted(&[2, 2, 2]).data, 6),
        ]
    );
}

#[test]
fn merge_of_a_single_cpu_population_is_the_identity() {
    let mut processor = EventProcessor::new();
    let shards = [
        (key(1, 2, 3), counted(&[8, 8])),
        (key(1, 4, 3), counted(&[1 << 20])),
        (key(9, 2, 3), counted(&[u64::MAX, 5])),
    ];
    for (k, h) in &shards {
        processor.process(*k, h);
    }
    let merged = sorted(processor.merge());
    let expected: Vec<(u32, u32, [u64; 35], u64)> =
        shards.iter().map(|(k, h)| (k.pid, k.stack_id, h.data, h.total)).collect();
    assert_eq!(merged, expected);
}

#[test]
fn merge_across_cpus_saturates() {
    let mut processor = EventProcessor::new();
    processor.process(key(1, 2, 0), &counted(&[u64::MAX - 1]));
    processor.process(key(1, 2, 1), &counted(&[10]));
    let merged = processor.merge();
    assert_eq!(merged.len(), 1);
    assert_eq!(merged[0].1.total, u64::MAX);
    assert_eq!(merged[0].1.data[3], 1);
}

#[test]
fn order_entries_sorts_ascending_by_count() {
    let listing = vec![
        (ReducedEventKey { pid: 1, stack_id: 1 }, counted(&[1, 1, 1])),
        (ReducedEventKey { pid: 1, stack_id: 2 }, counted(&[1 << 20])),
        (ReducedEventKey { pid: 1, stack_id: 3 }, counted(&[5, 5])),
        (ReducedEventKey { pid: 1, stack_id: 4 }, Histogram::new()),
    ];
    let shown: Vec<u32> =
        order_entries(&listing, OrderBy::Count).iter().map(|(k, _)| k.stack_id).collect();
    assert_eq!(shown, vec![2, 3, 1]);
}

#[test]
fn order_entries_sorts_ascending_by_traffic() {
    let listing = vec![
        (ReducedEventKey { pid: 1, stack_id: 1 }, counted(&[1, 1, 1])),
        (ReducedEventKey { pid: 1, stack_id: 2 }, counted(&[1 << 20])),
        (ReducedEventKey { pid: 1, stack_id: 3 }, counted(&[5, 5])),
        (ReducedEventKey { pid: 1, stack_id: 4 }, Histogram::new()),
    ];
    let shown: Vec<u32> =
        order_entries(&listing, OrderBy::Traffic).iter().map(|(k, _)| k.stack_id).collect();
    assert_eq!(shown, vec![1, 3, 2]);
}

#[test]
fn order_entries_shows_entries_without_a_counted_bucket_if_they_have_traffic() {
    let listing = vec![(ReducedEventKey { pid: 1, stack_id: 1 }, counted(&[1 << 40]))];
    assert_eq!(order_entries(&listing, OrderBy::Count).len(), 1);
    assert!(order_entries(&Vec::new(), OrderBy::Count).is_empty());
}

#[test]
fn report_of_an_empty_store() {
    let processor = EventProcessor::new();
    let mut pager = String::new();
    let entries = processor.print_histogram(OrderBy::Count, &mut pager);
    assert!(entries.is_empty());
    assert_eq!(pager, "total stack traces: 0\n\n");
}

#[test]
fn report_shows_entries_in_ascending_order_with_their_stacks() {
    let mut processor = EventProcessor::new();
    processor.process(key(1, 7, 0), &counted(&[1023]));
    processor.process(key(1, 7, 1), &counted(&[1023, 1023]));
    processor.process(key(1, 8, 0), &counted(&[1 << 20]));
    processor.process(key(1, 9, 0), &Histogram::new());
    processor.cache_trace(7, trace(&[(4096, "je_malloc"), (8192, "main")]));
    let mut pager = String::new();
    let entries = processor.print_histogram(OrderBy::Count, &mut pager);
    let shown: Vec<u32> = entries.iter().map(|(k, _)| k.stack_id).collect();
    assert_eq!(shown, vec![8, 7]);
    let stars = "*".repeat(80);
    let dashes = "-".repeat(80);
    let expected = format!(
        "total stack traces: 3\n\n{stars}\nNo resolved stacktrace\n{dashes}\n{}\n\n{stars}\n4096 - je_malloc\n8192 - main\n{dashes}\n{}\n\n",
        table(&counted(&[1 << 20])),
        table(&counted(&[1023, 1023, 1023])),
    );
    assert_eq!(pager, expected);
    assert!(pager.contains("Total allocations: 3.0 kiB in 3 allocations\n"));

    let mut by_traffic = String::new();
    let entries = processor.print_histogram(OrderBy::Traffic, &mut by_traffic);
    let shown: Vec<u32> = entries.iter().map(|(k, _)| k.stack_id).collect();
    assert_eq!(shown, vec![7, 8]);
}

#[test]
fn scenario_single_small_allocation_report() {
    let mut processor = EventProcessor::new();
    processor.process(key(1, 7, 0), &counted(&[1023]));
    let mut pager = String::new();
    let entries = processor.print_histogram(OrderBy::Count, &mut pager);
    assert_eq!(entries.len(), 1);
    assert_eq!(entries[0].1.data[9], 1);
    assert_eq!(entries[0].1.total, 1023);
    assert_eq!(entries[0].1.total_count(), 1);
    assert!(pager.contains("\nTotal allocations: 1023 B in 1 allocations\n"));
}

#[test]
fn flame_graph_lines_weigh_unmerged_shards() {
    let mut processor = EventProcessor::new();
    processor.process(key(1, 7, 0), &counted(&[1023]));
    processor.process(key(1, 7, 1), &counted(&[1023, 1]));
    processor.process(key(1, 8, 0), &counted(&[5]));
    processor.cache_trace(7, trace(&[(4096, "je_malloc"), (8192, "main")]));
    let mut by_count = processor.write_flame_graph(OrderBy::Count);
    by_count.sort();
    assert_eq!(by_count, vec!["je_malloc;main 1", "je_malloc;main 2"]);
    let mut by_traffic = processor.write_flame_graph(OrderBy::Traffic);
    by_traffic.sort();
    assert_eq!(by_traffic, vec!["je_malloc;main 1023", "je_malloc;main 1024"]);
}

#[test]
fn fold_shards_keeps_the_order_of_the_listing() {
    let mut processor = EventProcessor::new();
    processor.cache_trace(1, trace(&[(1, "a")]));
    processor.cache_trace(3, trace(&[(1, "c"), (2, "d")]));
    let listing = vec![
        (key(1, 3, 0), counted(&[4])),
        (key(1, 2, 0), counted(&[4])),
        (key(1, 1, 0), counted(&[4, 4])),
    ];
    assert_eq!(processor.fold_shards(&listing, OrderBy::Traffic), vec!["c;d 4", "a 8"]);
}

#[test]
fn csv_stack_column_shows_addresses_in_hexadecimal() {
    let mut processor = EventProcessor::new();
    processor.cache_trace(7, trace(&[(4096, "je_malloc"), (0xdead_beef, "main"), (0, "?")]));
    processor.cache_trace(8, trace(&[]));
    assert_eq!(stack_column(&processor, 7), "1000 - je_malloc\ndeadbeef - main\n0 - ?");
    assert_eq!(stack_column(&processor, 8), "");
    assert_eq!(stack_column(&processor, 9), "No resolved stacktrace");
}

#[test]
fn csv_has_a_header_and_one_row_for_each_entry() {
    let mut processor = EventProcessor::new();
    processor.process(key(11, 7, 0), &counted(&[1023]));
    processor.process(key(11, 8, 0), &counted(&[5, 5]));
    processor.cache_trace(7, trace(&[(4096, "je_malloc"), (8192, "say \"hi\", then go")]));
    let mut pager = String::new();
    let entries = processor.print_histogram(OrderBy::Count, &mut pager);
    let mut writer = CsvWriter::new(true).unwrap();
    for (k, hist) in &entries {
        writer.write(k, hist, &processor).unwrap();
    }
    let csv = writer.finish().unwrap();
    let expected = format!(
        "pid,stack_id,total,count,histogram,stacktrace\n11,7,1023,1,\"{}\",\"1000 - je_malloc\n2000 - say \"\"hi\"\", then go\"\n11,8,10,2,\"{}\",No resolved stacktrace\n",
        table(&counted(&[1023])),
        table(&counted(&[5, 5])),
    );
    assert_eq!(csv, expected);
}

#[test]
fn csv_writer_that_is_off_collects_nothing() {
    let processor = EventProcessor::new();
    let mut writer = CsvWriter::new(false).unwrap();
    writer.write(&ReducedEventKey { pid: 1, stack_id: 2 }, &counted(&[5]), &processor).unwrap();
    assert!(writer.finish().is_none());
    assert_eq!(
        CsvWriter::new(true).unwrap().finish().unwrap(),
        "pid,stack_id,total,count,histogram,stacktrace\n"
    );
}
