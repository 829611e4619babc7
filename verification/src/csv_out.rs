//! The report as CSV: a header row and one row for each entry.

use crate::histogram::Histogram;
use crate::processor::EventProcessor;
use crate::report::{histogram_text, print_histogram};
use crate::resolver::{joined, ResolvedStackTrace};
use crate::schema::ReducedEventKey;
use crate::text::{hexadecimal, push_char, push_hexadecimal};
use vstd::prelude::*;
use vstd::string::StringExecFns;

verus! {

/// The error of the `csv` crate.
#[verifier::external_type_specification]
#[verifier::external_body]
pub struct ExCsvError(csv::Error);

/// Why a report could not be written.
#[derive(Debug)]
pub enum ReportError {
    /// The CSV encoder refused a record.
    Csv(csv::Error),
}

/// The line that the `csv` crate writes for a record of text fields, if it
/// writes one.
pub uninterp spec fn csv_record(fields: Seq<Seq<char>>) -> Option<Seq<char>>;

/// The line that the `csv` crate writes for a row of the report, if it
/// writes one.
pub uninterp spec fn csv_row(
    pid: u32,
    stack_id: u32,
    total: u64,
    count: u64,
    histogram: Seq<char>,
    stacktrace: Seq<char>,
) -> Option<Seq<char>>;

/// One record of text fields as a CSV line. This is `csv::Writer::write_record`
/// on a writer that collects its output in memory; the contract names the
/// line and says that a refusal, too, depends on the fields alone.
#[verifier::external_body]
fn encode_record(fields: &Vec<String>) -> (line: Result<String, csv::Error>)
    ensures
        match line {
            Ok(text) => csv_record(fields.deep_view()) == Some(text@),
            Err(_) => csv_record(fields.deep_view()) is None,
        },
{
    let mut writer = csv::Writer::from_writer(Vec::new());
    writer.write_record(fields)?;
    let bytes = writer.into_inner().map_err(|e| csv::Error::from(e.into_error()))?;
    Ok(String::from_utf8_lossy(&bytes).into_owned())
}

/// One row of the report as a CSV line. This is `csv::Writer::serialize` of
/// the six fields as a tuple, on a writer that collects its output in memory;
/// the contract names the line and says that a refusal, too, depends on the
/// fields alone.
#[verifier::external_body]
fn encode_row(
    pid: u32,
    stack_id: u32,
    total: u64,
    count: u64,
    histogram: &str,
    stacktrace: &str,
) -> (line: Result<String, csv::Error>)
    ensures
        match line {
            Ok(text) => csv_row(pid, stack_id, total, count, histogram@, stacktrace@) == Some(
                text@,
            ),
            Err(_) => csv_row(pid, stack_id, total, count, histogram@, stacktrace@) is None,
        },
{
    let mut writer = csv::Writer::from_writer(Vec::new());
    writer.serialize((pid, stack_id, total, count, histogram, stacktrace))?;
    let bytes = writer.into_inner().map_err(|e| csv::Error::from(e.into_error()))?;
    Ok(String::from_utf8_lossy(&bytes).into_owned())
}

/// The names of the six columns.
pub open spec fn csv_headers() -> Seq<Seq<char>> {
    seq!["pid"@, "stack_id"@, "total"@, "count"@, "histogram"@, "stacktrace"@]
}

/// The frames of a stack as the CSV shows them: one line for each frame, the
/// address in hexadecimal, a dash and the symbol.
pub open spec fn csv_frames(trace: ResolvedStackTrace) -> Seq<Seq<char>> {
    Seq::new(
        trace.symbols@.len(),
        |i: int|
            hexadecimal(trace.symbols@[i].address as nat) + seq![' ', '-', ' ']
                + trace.symbols@[i].symbol@,
    )
}

/// The stack column of an entry: the frames joined by line breaks if the
/// stack id was resolved, a text that says so if not.
pub open spec fn csv_stack_text(traces: Map<u32, ResolvedStackTrace>, stack_id: u32) -> Seq<char> {
    if traces.contains_key(stack_id) {
        joined(csv_frames(traces[stack_id]), seq!['\n'])
    } else {
        "No resolved stacktrace"@
    }
}

/// The CSV line of an entry, if the encoder writes one.
pub open spec fn entry_row(
    key: ReducedEventKey,
    hist: Histogram,
    traces: Map<u32, ResolvedStackTrace>,
) -> Option<Seq<char>> {
    csv_row(
        key.pid,
        key.stack_id,
        hist.total,
        hist@.total_count(),
        histogram_text(hist@),
        csv_stack_text(traces, key.stack_id),
    )
}

/// The stack column of an entry.
pub fn stack_column(processor: &EventProcessor, stack_id: u32) -> (text: String)
    ensures
        text@ == csv_stack_text(processor.traces(), stack_id),
{
    match processor.trace(stack_id) {
        Some(trace) => {
            let mut text = String::new();
            let ghost frames = csv_frames(*trace);
            let mut i: usize = 0;
            assert(text@ =~= joined(frames.take(0), seq!['\n']));
            while i < trace.symbols.len()
                invariant
                    i <= trace.symbols@.len(),
                    frames == csv_frames(*trace),
                    text@ == joined(frames.take(i as int), seq!['\n']),
                decreases trace.symbols@.len() - i,
            {
                let fun = &trace.symbols[i];
                proof {
                    reveal_strlit(" - ");
                }
                assert(" - "@ =~= seq![' ', '-', ' ']);
                if i > 0 {
                    push_char(&mut text, '\n');
                }
                push_hexadecimal(&mut text, fun.address);
                text.append(" - ");
                text.append(fun.symbol.as_str());
                proof {
                    let next = frames.take(i + 1);
                    assert(next.drop_last() =~= frames.take(i as int));
                    assert(next.last() == frames[i as int]);
                    assert(text@ =~= joined(next, seq!['\n']));
                }
                i = i + 1;
            }
            assert(frames.take(trace.symbols@.len() as int) =~= frames);
            text
        },
        None => String::from_str("No resolved stacktrace"),
    }
}

/// Collects the CSV report, or nothing if no CSV was asked for.
pub struct CsvWriter {
    writer: Option<String>,
}

impl CsvWriter {
    /// The CSV written so far; `None` if none was asked for.
    pub closed spec fn text(self) -> Option<Seq<char>> {
        match self.writer {
            Some(text) => Some(text@),
            None => None,
        }
    }

    /// Starts a report with the header row if `enabled` is set, else a
    /// writer that ignores what it is given.
    pub fn new(enabled: bool) -> (writer: Result<Self, ReportError>)
        ensures
            !enabled ==> writer is Ok && writer->Ok_0.text() is None,
            enabled ==> match writer {
                Ok(w) => w.text() == csv_record(csv_headers()) && w.text() is Some,
                Err(_) => csv_record(csv_headers()) is None,
            },
    {
        if !enabled {
            return Ok(CsvWriter { writer: None });
        }
        let mut headers: Vec<String> = Vec::new();
        headers.push(String::from_str("pid"));
        headers.push(String::from_str("stack_id"));
        headers.push(String::from_str("total"));
        headers.push(String::from_str("count"));
        headers.push(String::from_str("histogram"));
        headers.push(String::from_str("stacktrace"));
        assert(headers.deep_view() =~= csv_headers());
        match encode_record(&headers) {
            Ok(line) => Ok(CsvWriter { writer: Some(line) }),
            Err(e) => Err(ReportError::Csv(e)),
        }
    }

    /// Appends the row of one entry: the process, the stack id, the sum of
    /// sizes, the number of allocations, the histogram's table and the stack.
    /// A writer that collects nothing stays as it is.
    pub fn write(
        &mut self,
        key: &ReducedEventKey,
        hist: &Histogram,
        processor: &EventProcessor,
    ) -> (written: Result<(), ReportError>)
        ensures
            old(self).text() is None ==> written is Ok && final(self).text() is None,
            old(self).text() is Some ==> match entry_row(*key, *hist, processor.traces()) {
                Some(row) => written is Ok && final(self).text() == Some(
                    old(self).text()->0 + row,
                ),
                None => written is Err && final(self).text() == old(self).text(),
            },
    {
        if self.writer.is_none() {
            return Ok(());
        }
        let stacktrace = stack_column(processor, key.stack_id);
        let mut histogram = String::new();
        print_histogram(hist, &mut histogram);
        assert(histogram@ =~= histogram_text(hist@));
        let line = encode_row(
            key.pid,
            key.stack_id,
            hist.total,
            hist.total_count(),
            histogram.as_str(),
            stacktrace.as_str(),
        );
        match line {
            Ok(row) => {
                let mut text = match self.writer.take() {
                    Some(text) => text,
                    None => String::new(),
                };
                text.append(row.as_str());
                self.writer = Some(text);
                Ok(())
            },
            Err(e) => Err(ReportError::Csv(e)),
        }
    }

    /// The CSV that was collected; `None` if none was asked for.
    pub fn finish(self) -> (text: Option<String>)
        ensures
            match text {
                Some(t) => self.text() == Some(t@),
                None => self.text() is None,
            },
    {
        self.writer
    }
}

} // verus!
