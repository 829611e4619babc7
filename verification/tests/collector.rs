use jeprof::collector::{cleanup_due, Collector, Observation};
use jeprof::histogram::Histogram;
use jeprof::options::OrderBy;
use jeprof::resolver::{OwnedSymbol, ResolvedStackTrace};
use jeprof::schema::HistogramKey;

fn counted(values: &[u64]) -> Histogram {
    let mut hist = Histogram::new();
    for v in values {
        hist.increment(*v);
    }
    hist
}

fn sweep(collector: &mut Collector, table: &[(HistogramKey, Vec<Histogram>)]) {
    for (key, shards) in table {
        collector.begin_key();
        for shard in shards {
            collector.observe(key.into_parts(), shard, false);
        }
        collector.end_key(*key);
    }
}

#[test]
fn shard_is_retained_by_size_or_by_count() {
    let collector = Collector::new(100, 3);
    assert!(collector.retains(&counted(&[100])));
    assert!(collector.retains(&counted(&[1, 1, 1])));
    assert!(collector.retains(&counted(&[200, 1, 1, 1])));
    assert!(!collector.retains(&counted(&[99])));
    assert!(!collector.retains(&counted(&[1, 1])));
    assert!(!collector.retains(&Histogram::new()));
    assert!(Collector::new(0, u64::MAX).retains(&Histogram::new()));
}

#[test]
fn observe_skips_stores_or_stops() {
    let mut collector = Collector::new(100, 3);
    let key = HistogramKey::new(1, 7, 0).into_parts();
    assert_eq!(collector.observe(key, &counted(&[5]), false), Observation::Skipped);
    assert!(collector.stored().shard(key).is_none());
    assert_eq!(collector.observe(key, &counted(&[500]), true), Observation::Canceled);
    assert!(collector.stored().shard(key).is_none());
    assert_eq!(collector.observe(key, &counted(&[500]), false), Observation::Unresolved);
    assert_eq!(collector.stored().shard(key).unwrap().total, 500);
    let trace =
        ResolvedStackTrace { symbols: vec![OwnedSymbol { address: 1, symbol: "main".into() }] };
    assert!(collector.resolved(7, trace.clone()));
    assert!(!collector.resolved(7, trace));
    assert_eq!(collector.observe(key, &counted(&[500, 500]), false), Observation::Stored);
    assert_eq!(collector.stored().shard(key).unwrap().total, 1000);
}

#[test]
fn key_below_the_thresholds_on_every_cpu_is_queued() {
    let mut collector = Collector::new(100, 3);
    let quiet = HistogramKey::new(1, 7, 0);
    let busy = HistogramKey::new(1, 8, 0);
    let late = HistogramKey::new(1, 9, 0);
    sweep(
        &mut collector,
        &[
            (busy, vec![counted(&[1]), counted(&[500]), Histogram::new()]),
            (quiet, vec![counted(&[1]), counted(&[2, 2]), Histogram::new()]),
            (late, vec![Histogram::new()]),
        ],
    );
    sweep(&mut collector, &[(late, vec![Histogram::new(), counted(&[1, 1, 1])])]);
    let mut queued: Vec<(u64, u64)> =
        collector.drain_queued().iter().map(|k| k.to_words()).collect();
    queued.sort();
    assert_eq!(queued, vec![quiet.to_words()]);
    assert!(collector.drain_queued().is_empty());
}

#[test]
fn key_that_falls_silent_is_queued_again() {
    let mut collector = Collector::new(100, 3);
    let key = HistogramKey::new(1, 7, 2);
    sweep(&mut collector, &[(key, vec![counted(&[500])])]);
    assert!(collector.drain_queued().is_empty());
    sweep(&mut collector, &[(key, vec![counted(&[5])])]);
    sweep(&mut collector, &[(key, vec![counted(&[5])])]);
    let queued = collector.drain_queued();
    assert_eq!(queued.len(), 1);
    assert_eq!(queued[0], key);
}

#[test]
fn cleanup_is_due_after_more_than_sixty_seconds() {
    assert!(!cleanup_due(0, 0));
    assert!(!cleanup_due(59, 999_999_999));
    assert!(!cleanup_due(60, 0));
    assert!(cleanup_due(60, 1));
    assert!(cleanup_due(61, 0));
    assert!(cleanup_due(u64::MAX, 0));
}

#[test]
fn scenario_retention() {
    let mut collector = Collector::new(1000, 5);
    let few = HistogramKey::new(1, 7, 0);
    let many = HistogramKey::new(1, 8, 0);
    sweep(&mut collector, &[(few, vec![counted(&[1; 3])]), (many, vec![counted(&[1; 50])])]);
    let processor = collector.finish();
    let mut pager = String::new();
    let entries = processor.print_histogram(OrderBy::Count, &mut pager);
    assert_eq!(entries.len(), 1);
    assert_eq!(entries[0].0.stack_id, 8);
    assert_eq!(entries[0].1.total_count(), 50);
    assert!(pager.starts_with("total stack traces: 1\n\n"));
}
