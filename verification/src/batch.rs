//! Summing up a batch of exports.

use vstd::prelude::*;
use vstd::string::*;
use crate::export::ExportResult;
use crate::text::{decimal, decimal_digits, join, join_strings, texts};

verus! {

/// The report of a batch of exports: how many there were, how many succeeded
/// and failed, and a summary in words. The reports of the single exports are
/// not kept: `results` is always empty.
#[derive(Debug)]
pub struct BatchExportResult {
    pub total_images: usize,
    pub successful_exports: usize,
    pub failed_exports: usize,
    pub results: Vec<ExportResult>,
    pub summary: String,
}

/// How many of the exports succeeded.
pub open spec fn successes(results: Seq<ExportResult>) -> nat
    decreases results.len(),
{
    if results.len() == 0 {
        0
    } else {
        successes(results.drop_last()) + if results.last().success {
            1nat
        } else {
            0nat
        }
    }
}

/// The messages of the exports that failed, in order.
pub open spec fn failure_messages(results: Seq<ExportResult>) -> Seq<Seq<char>>
    decreases results.len(),
{
    if results.len() == 0 {
        Seq::empty()
    } else if results.last().success {
        failure_messages(results.drop_last())
    } else {
        failure_messages(results.drop_last()).push(results.last().message@)
    }
}

/// The summary of a batch with `succeeded` successful and `failed` failed
/// exports, whose failures gave `messages`.
///
/// Where nothing succeeded, an empty batch included, the summary lists the
/// failures' messages, separated by a comma and a space.
pub open spec fn summary_text(succeeded: nat, failed: nat, messages: Seq<Seq<char>>) -> Seq<char> {
    if succeeded > 0 && failed > 0 {
        "Exported "@ + decimal_digits(succeeded) + " YOLO annotation files ("@ + decimal_digits(
            failed,
        ) + " failed)"@
    } else if succeeded > 0 {
        "Successfully exported "@ + decimal_digits(succeeded) + " YOLO annotation files"@
    } else {
        "Failed to export any YOLO annotations. Errors: "@ + join(messages, ", "@)
    }
}

/// No more exports succeed than there are.
pub proof fn successes_bounded(results: Seq<ExportResult>)
    ensures
        successes(results) <= results.len(),
        failure_messages(results).len() == results.len() - successes(results),
    decreases results.len(),
{
    if results.len() > 0 {
        successes_bounded(results.drop_last());
    }
}

/// Sums up the reports of a batch of exports, given in the order in which
/// the exports ran.
pub fn summarize_exports(results: &Vec<ExportResult>) -> (batch: BatchExportResult)
    ensures
        batch.total_images == results.len(),
        batch.successful_exports == successes(results@),
        batch.failed_exports == results.len() - successes(results@),
        batch.results@.len() == 0,
        batch.summary@ == summary_text(
            successes(results@),
            (results.len() - successes(results@)) as nat,
            failure_messages(results@),
        ),
{
    let mut succeeded: usize = 0;
    let mut failed: usize = 0;
    let mut messages: Vec<String> = Vec::new();
    let mut i: usize = 0;
    while i < results.len()
        invariant
            i <= results.len(),
            succeeded == successes(results@.take(i as int)),
            succeeded + failed == i,
            texts(messages@) == failure_messages(results@.take(i as int)),
        decreases results.len() - i,
    {
        assert(results@.take(i + 1).drop_last() =~= results@.take(i as int));
        if results[i].success {
            succeeded = succeeded + 1;
        } else {
            failed = failed + 1;
            messages.push(results[i].message.clone());
            assert(texts(messages@) =~= failure_messages(results@.take(i + 1)));
        }
        i = i + 1;
    }
    assert(results@.take(i as int) =~= results@);
    let summary = if succeeded > 0 && failed > 0 {
        let mut s = String::from_str("Exported ");
        s.append(decimal(succeeded).as_str());
        s.append(" YOLO annotation files (");
        s.append(decimal(failed).as_str());
        s.append(" failed)");
        s
    } else if succeeded > 0 {
        let mut s = String::from_str("Successfully exported ");
        s.append(decimal(succeeded).as_str());
        s.append(" YOLO annotation files");
        s
    } else {
        let mut s = String::from_str("Failed to export any YOLO annotations. Errors: ");
        s.append(join_strings(&messages, ", ").as_str());
        s
    };
    BatchExportResult {
        total_images: results.len(),
        successful_exports: succeeded,
        failed_exports: failed,
        results: Vec::new(),
        summary,
    }
}

} // verus!
