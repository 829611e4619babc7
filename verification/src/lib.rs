//! Aggregation core of a sampling heap-allocation profiler: the records shared
//! between the in-kernel probe and the user-space collector, the probe's
//! filtering and sampling decisions, the collector's retention bookkeeping and
//! the reporter's merging, ordering and rendering.

mod fx;
pub mod collector;
pub mod csv_out;
pub mod histogram;
pub mod merge;
pub mod options;
pub mod probe;
pub mod processor;
pub mod report;
pub mod reporter;
pub mod resolver;
pub mod schema;
pub mod sorting;
pub mod text;

pub use collector::Collector;
pub use csv_out::CsvWriter;
pub use histogram::Histogram;
pub use options::{JemallocAllocFunctions, OrderBy};
pub use processor::EventProcessor;
pub use resolver::{OwnedSymbol, ResolvedStackTrace};
pub use schema::{HistogramKey, ReducedEventKey, UnpackedHistogramKey};
