//! Batch transcription bookkeeping: the request, the result of each file,
//! the number of files worked on at once, and the batch's summary.
use vstd::prelude::*;

use crate::engine::TranscribeOptions;

verus! {

/// One file of a batch.
pub struct BatchItem {
    pub path: String,
    /// The folder whose `voice2text/` sub-folder receives the results.
    pub output_base: String,
}

/// A batch: the files and the options for all of them.
pub struct BatchRequest {
    pub items: Vec<BatchItem>,
    pub options: TranscribeOptions,
}

/// What became of one file.
pub struct FileResult {
    pub path: String,
    pub ok: bool,
    pub error: Option<String>,
    pub output_dir: Option<String>,
    pub segments_count: usize,
}

/// What became of the batch.
pub struct BatchResult {
    pub results: Vec<FileResult>,
    /// The results folder of the first file, if it succeeded.
    pub output_dir: Option<String>,
}

/// The result of a file that failed with `e`.
pub fn file_error(path: &str, e: String) -> (r: FileResult)
    ensures
        r.path@ == path@,
        !r.ok,
        r.error == Some(e),
        r.output_dir is None,
        r.segments_count == 0,
{
    FileResult { path: path.to_string(), ok: false, error: Some(e), output_dir: None, segments_count: 0 }
}

/// The result of a file: transcribed with `segments_count` segments and its
/// outputs written to `output_dir`, or failed with an error at either step.
pub fn file_outcome(path: &str, outcome: Result<(String, usize), String>) -> (r: FileResult)
    ensures
        r.path@ == path@,
        match outcome {
            Ok((dir, n)) => r.ok && r.error is None && r.output_dir == Some(dir) && r.segments_count
                == n,
            Err(e) => !r.ok && r.error == Some(e) && r.output_dir is None && r.segments_count == 0,
        },
{
    match outcome {
        Ok((dir, n)) => FileResult {
            path: path.to_string(),
            ok: true,
            error: None,
            output_dir: Some(dir),
            segments_count: n,
        },
        Err(e) => file_error(path, e),
    }
}

/// The result recorded for a worker that stopped without reporting (its
/// file is unknown).
pub fn lost_worker(e: String) -> (r: FileResult)
    ensures
        r.path@ == Seq::<char>::empty(),
        !r.ok,
        r.error == Some(e),
        r.output_dir is None,
        r.segments_count == 0,
{
    FileResult { path: String::new(), ok: false, error: Some(e), output_dir: None, segments_count: 0 }
}

/// How many files are transcribed at once: the requested number, at least
/// one.
pub fn worker_count(parallel: u32) -> (r: usize)
    ensures
        r as nat == if parallel >= 1 {
            parallel as nat
        } else {
            1
        },
{
    if parallel >= 1 {
        parallel as usize
    } else {
        1
    }
}

/// The progress status of a finished file.
pub open spec fn progress_status_seq(ok: bool) -> Seq<char> {
    if ok {
        "done"@
    } else {
        "error"@
    }
}

/// The progress status of a finished file: `done` or `error`.
pub fn progress_status(ok: bool) -> (r: String)
    ensures
        r@ == progress_status_seq(ok),
{
    if ok {
        "done".to_string()
    } else {
        "error".to_string()
    }
}

/// The batch's summary: all file results, in request order, and the results
/// folder of the first one.
pub fn batch_result(results: Vec<FileResult>) -> (r: BatchResult)
    ensures
        r.results == results,
        r.output_dir == if results@.len() > 0 {
            results@[0].output_dir
        } else {
            None
        },
{
    let output_dir = if results.len() > 0 {
        results[0].output_dir.clone()
    } else {
        None
    };
    BatchResult { results, output_dir }
}

} // verus!
