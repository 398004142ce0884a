//! The start of a job that downloads with several workers.

use crate::error::DownloadError;
use crate::progress::{ChunkProgressBar, ChunkState, ProgressView};
use crate::range::{plan_outcome, plan_ranges, plan_view, plannable, ByteRange};
use vstd::prelude::*;

verus! {

/// What the length that a server reported means for a job: several workers
/// need the length before the first byte.
pub open spec fn required_length(reported: Option<u64>) -> Result<u64, DownloadError> {
    match reported {
        Some(length) => Ok(length),
        None => Err(DownloadError::LengthUnknown),
    }
}

/// Takes the length of the resource from what the server reported.
pub fn get_content_length(reported: Option<u64>) -> (length: Result<u64, DownloadError>)
    ensures
        length == required_length(reported),
{
    match reported {
        Some(length) => Ok(length),
        None => Err(DownloadError::LengthUnknown),
    }
}

/// The same progress with the first `count` ranges pending.
pub open spec fn all_pending(progress: ProgressView, count: nat) -> ProgressView {
    ProgressView {
        states: Seq::new(
            progress.states.len(),
            |i: int|
                if i < count {
                    ChunkState::Pending
                } else {
                    progress.states[i]
                },
        ),
        ..progress
    }
}

/// What a job starts with: the plan for the reported length, or the reason
/// why the job cannot start.
pub open spec fn job_plan(reported: Option<u64>, workers: u8) -> Result<
    Seq<ByteRange>,
    DownloadError,
> {
    match reported {
        Some(length) => plan_outcome(length as int, workers as int),
        None => Err(DownloadError::LengthUnknown),
    }
}

/// Starts a job: takes the length that the server reported, plans one range
/// for each worker, and shows every planned range as pending.
///
/// Without a length the job fails with `LengthUnknown`, and without a plan
/// with `InvalidInput`; the progress is then left as it was.
pub fn plan_download(reported: Option<u64>, workers: u8, progress: &mut ChunkProgressBar) -> (plan:
    Result<Vec<ByteRange>, DownloadError>)
    ensures
        plan_view(plan) == job_plan(reported, workers),
        plan is Ok ==> final(progress)@ == all_pending(old(progress)@, workers as nat),
        plan is Err ==> final(progress)@ == old(progress)@,
{
    let length = match get_content_length(reported) {
        Ok(length) => length,
        Err(e) => {
            return Err(e);
        },
    };
    let ranges = match plan_ranges(length, workers) {
        Ok(ranges) => ranges,
        Err(e) => {
            return Err(e);
        },
    };
    let mut i: usize = 0;
    assert(progress@.states =~= all_pending(progress@, 0).states);
    while i < ranges.len()
        invariant
            ranges@.len() == workers,
            i <= ranges@.len(),
            progress@ == all_pending(old(progress)@, i as nat),
        decreases ranges@.len() - i,
    {
        progress.set_chunk_state(i, ChunkState::Pending);
        assert(progress@.states =~= all_pending(old(progress)@, (i + 1) as nat).states);
        i = i + 1;
    }
    Ok(ranges)
}

} // verus!
