//! Fetching one range: the decisions between the request and the last byte.
//!
//! The fetcher does no I/O. Whoever drives it opens the part file, sends the
//! request, reads the body and polls the cancellation flag, and tells the
//! fetcher what happened, one event at a time. The fetcher keeps the byte
//! count and the phase, reports both to the job's progress, and answers
//! with what to do next.

use crate::error::DownloadError;
use crate::progress::{ChunkProgressBar, ChunkState, ProgressView};
use crate::range::ByteRange;
use crate::text::{decimal, decimal_digits};
use vstd::prelude::*;
use vstd::string::StringExecFns;

verus! {

/// How far the fetch of a range has come.
#[derive(Clone, Copy, Debug, PartialEq, Eq, Structural)]
pub enum FetchPhase {
    /// Nothing has been done yet.
    Ready,
    /// The part file is open and the request is on its way.
    AwaitingResponse,
    /// The server sends the body.
    Streaming,
    /// The body was read to its end.
    Done,
    /// The fetch was given up.
    Failed { error: DownloadError },
}

/// What the driver tells the fetcher.
#[derive(Clone, Copy, Debug, PartialEq, Eq, Structural)]
pub enum FetchEvent {
    /// The part file was created, or emptied if it was there.
    FileOpened,
    /// The part file, the connection or the body stream failed.
    IoFailed,
    /// The server answered with this status.
    Response { status: u16 },
    /// A segment of `len` bytes arrived and was written to the part file.
    Segment { len: usize },
    /// The body has no more segments.
    EndOfStream,
    /// The polling interval ran out; `cancelled` is the cancellation flag.
    Tick { cancelled: bool },
}

/// What the fetcher asks of the driver.
#[derive(Clone, Copy, Debug, PartialEq, Eq, Structural)]
pub enum FetchAction {
    /// Send the request for the range.
    SendRequest,
    /// Wait for the next event.
    Continue,
    /// Hand the part file over: the range is complete.
    Finish,
    /// Stop and fail the job with this error.
    Abort { error: DownloadError },
}

/// What a status means for a ranged request: 206 carries the range, 200 the
/// whole resource from a server that knows no ranges, and nothing else is
/// expected.
pub open spec fn range_status_error(status: u16) -> Option<DownloadError> {
    if status == 206 {
        None
    } else if status == 200 {
        Some(DownloadError::RangeUnsupported)
    } else {
        Some(DownloadError::UnexpectedStatus { code: status })
    }
}

/// Judges the status of the answer to a ranged request.
pub fn check_range_status(status: u16) -> (verdict: Result<(), DownloadError>)
    ensures
        verdict is Ok <==> status == 206,
        verdict matches Err(e) ==> range_status_error(status) == Some(e),
{
    if status == 206 {
        Ok(())
    } else if status == 200 {
        Err(DownloadError::RangeUnsupported)
    } else {
        Err(DownloadError::UnexpectedStatus { code: status })
    }
}

/// The value of the `Range` header that asks for a range.
pub open spec fn range_header_text(range: ByteRange) -> Seq<char> {
    "bytes="@ + decimal_digits(range.start as nat) + "-"@ + decimal_digits(range.end as nat)
}

/// Writes the value of the `Range` header that asks for `range`.
pub fn range_header(range: &ByteRange) -> (value: String)
    ensures
        value@ == range_header_text(*range),
{
    let mut value = String::from_str("bytes=");
    value.append(decimal(range.start).as_str());
    value.append("-");
    value.append(decimal(range.end).as_str());
    value
}

/// The fetch of one range.
#[derive(Clone, Copy, Debug, PartialEq, Eq, Structural)]
pub struct RangeFetcher {
    /// The range to fetch.
    pub range: ByteRange,
    /// How far the fetch has come.
    pub phase: FetchPhase,
    /// Bytes of the range written to the part file so far.
    pub downloaded: usize,
}

impl RangeFetcher {
    /// Whether the fetch is over. A fetch that is over stays as it is.
    pub open spec fn is_terminal(self) -> bool {
        self.phase is Done || self.phase is Failed
    }

    /// The state under which the job's progress shows the range.
    pub open spec fn chunk_state(self) -> ChunkState {
        match self.phase {
            FetchPhase::Ready => ChunkState::Pending,
            FetchPhase::AwaitingResponse => ChunkState::Downloading { worker_id: self.range.id },
            FetchPhase::Streaming => ChunkState::Downloading { worker_id: self.range.id },
            FetchPhase::Done => ChunkState::Completed,
            FetchPhase::Failed { .. } => ChunkState::Failed,
        }
    }

    /// The one limit on events: the byte count must stay within `usize`.
    pub open spec fn accepts(self, event: FetchEvent) -> bool {
        self.phase is Streaming ==> (event matches FetchEvent::Segment { len } ==> self.downloaded
            + len <= usize::MAX)
    }

    /// The error with which an event ends the fetch, if it does.
    pub open spec fn failure(self, event: FetchEvent) -> Option<DownloadError> {
        match (self.phase, event) {
            (FetchPhase::Ready, FetchEvent::IoFailed) => Some(DownloadError::Io),
            (FetchPhase::AwaitingResponse, FetchEvent::IoFailed) => Some(DownloadError::Io),
            (FetchPhase::AwaitingResponse, FetchEvent::Response { status }) => range_status_error(
                status,
            ),
            (FetchPhase::Streaming, FetchEvent::IoFailed) => Some(DownloadError::Io),
            (FetchPhase::Streaming, FetchEvent::Tick { cancelled }) => if cancelled {
                Some(DownloadError::Interrupted)
            } else {
                None
            },
            _ => None,
        }
    }

    /// The fetcher after an event. An event that the phase does not wait
    /// for changes nothing.
    pub open spec fn after(self, event: FetchEvent) -> RangeFetcher {
        match self.failure(event) {
            Some(error) => RangeFetcher { phase: FetchPhase::Failed { error }, ..self },
            None => match (self.phase, event) {
                (FetchPhase::Ready, FetchEvent::FileOpened) => RangeFetcher {
                    phase: FetchPhase::AwaitingResponse,
                    ..self
                },
                (FetchPhase::AwaitingResponse, FetchEvent::Response { .. }) => RangeFetcher {
                    phase: FetchPhase::Streaming,
                    ..self
                },
                (FetchPhase::Streaming, FetchEvent::Segment { len }) => RangeFetcher {
                    downloaded: (self.downloaded + len) as usize,
                    ..self
                },
                (FetchPhase::Streaming, FetchEvent::EndOfStream) => RangeFetcher {
                    phase: FetchPhase::Done,
                    ..self
                },
                _ => self,
            },
        }
    }

    /// What the driver is to do after an event.
    pub open spec fn action(self, event: FetchEvent) -> FetchAction {
        match self.after(event).phase {
            FetchPhase::Failed { error } => FetchAction::Abort { error },
            FetchPhase::Done => FetchAction::Finish,
            FetchPhase::AwaitingResponse => if self.phase is Ready {
                FetchAction::SendRequest
            } else {
                FetchAction::Continue
            },
            _ => FetchAction::Continue,
        }
    }

    /// The byte count that an event makes the fetcher record for its range,
    /// if it records one: the bytes written so far, after every segment.
    pub open spec fn records(self, event: FetchEvent) -> Option<usize> {
        if self.phase is Streaming && event is Segment {
            Some(self.after(event).downloaded)
        } else {
            None
        }
    }

    /// The job's progress after an event: a segment sets the counter of the
    /// range, a change of the range's state sets its state, and nothing
    /// else is touched.
    pub open spec fn reported(self, event: FetchEvent, progress: ProgressView) -> ProgressView {
        match self.records(event) {
            Some(bytes) => progress.with_bytes(self.range.id as int, bytes),
            None => if self.after(event).chunk_state() != self.chunk_state() {
                progress.with_state(self.range.id as int, self.after(event).chunk_state())
            } else {
                progress
            },
        }
    }

    /// A fetch that has not begun.
    pub fn new(range: ByteRange) -> (fetcher: Self)
        ensures
            fetcher == (RangeFetcher { range, phase: FetchPhase::Ready, downloaded: 0 }),
    {
        RangeFetcher { range, phase: FetchPhase::Ready, downloaded: 0 }
    }

    /// Ends the fetch with `error` and shows the range as failed.
    fn fail(&mut self, error: DownloadError, progress: &mut ChunkProgressBar) -> (action:
        FetchAction)
        ensures
            *final(self) == (RangeFetcher { phase: FetchPhase::Failed { error }, ..*old(self) }),
            final(progress)@ == old(progress)@.with_state(
                old(self).range.id as int,
                ChunkState::Failed,
            ),
            action == (FetchAction::Abort { error }),
    {
        self.phase = FetchPhase::Failed { error };
        progress.set_chunk_state(self.range.id, ChunkState::Failed);
        FetchAction::Abort { error }
    }

    /// Takes one event: moves the fetch on, reports to the job's progress,
    /// and says what to do next.
    ///
    /// The range is shown as downloading once its part file is open, as
    /// completed when the body ends, and as failed on the first failure:
    /// an I/O error, a status other than 206, or a tick that finds the
    /// cancellation flag set while the body is read. After every segment the
    /// counter of the range is set to the bytes written so far.
    pub fn step(&mut self, event: FetchEvent, progress: &mut ChunkProgressBar) -> (action:
        FetchAction)
        requires
            old(self).accepts(event),
        ensures
            *final(self) == old(self).after(event),
            action == old(self).action(event),
            final(progress)@ == old(self).reported(event, old(progress)@),
    {
        match self.phase {
            FetchPhase::Ready => match event {
                FetchEvent::FileOpened => {
                    self.phase = FetchPhase::AwaitingResponse;
                    progress.set_chunk_state(
                        self.range.id,
                        ChunkState::Downloading { worker_id: self.range.id },
                    );
                    FetchAction::SendRequest
                },
                FetchEvent::IoFailed => self.fail(DownloadError::Io, progress),
                _ => FetchAction::Continue,
            },
            FetchPhase::AwaitingResponse => match event {
                FetchEvent::Response { status } => match check_range_status(status) {
                    Ok(()) => {
                        self.phase = FetchPhase::Streaming;
                        FetchAction::Continue
                    },
                    Err(error) => self.fail(error, progress),
                },
                FetchEvent::IoFailed => self.fail(DownloadError::Io, progress),
                _ => FetchAction::Continue,
            },
            FetchPhase::Streaming => match event {
                FetchEvent::Segment { len } => {
                    self.downloaded = self.downloaded + len;
                    progress.update_chunk_bytes(self.range.id, self.downloaded);
                    FetchAction::Continue
                },
                FetchEvent::EndOfStream => {
                    self.phase = FetchPhase::Done;
                    progress.set_chunk_state(self.range.id, ChunkState::Completed);
                    FetchAction::Finish
                },
                FetchEvent::Tick { cancelled } => {
                    if cancelled {
                        self.fail(DownloadError::Interrupted, progress)
                    } else {
                        FetchAction::Continue
                    }
                },
                FetchEvent::IoFailed => self.fail(DownloadError::Io, progress),
                _ => FetchAction::Continue,
            },
            FetchPhase::Done => FetchAction::Finish,
            FetchPhase::Failed { error } => FetchAction::Abort { error },
        }
    }

    /// Whether `event` can be taken: false only for a segment that would
    /// take the byte count beyond `usize`.
    pub fn can_take(&self, event: &FetchEvent) -> (b: bool)
        ensures
            b == self.accepts(*event),
    {
        match (self.phase, event) {
            (FetchPhase::Streaming, FetchEvent::Segment { len }) => self.downloaded.checked_add(
                *len,
            ).is_some(),
            _ => true,
        }
    }
}

impl RangeFetcher {
    /// The fetcher after a list of events, taken in order.
    pub open spec fn run(self, events: Seq<FetchEvent>) -> RangeFetcher
        decreases events.len(),
    {
        if events.len() == 0 {
            self
        } else {
            self.run(events.drop_last()).after(events.last())
        }
    }

    /// Whether every event of the list can be taken when its turn comes.
    pub open spec fn accepts_all(self, events: Seq<FetchEvent>) -> bool {
        forall|k: int|
            0 <= k < events.len() ==> (#[trigger] self.run(events.take(k))).accepts(events[k])
    }

    /// The byte counts recorded for the range while the events are taken,
    /// in the order in which they are recorded.
    pub open spec fn recordings(self, events: Seq<FetchEvent>) -> Seq<usize>
        decreases events.len(),
    {
        if events.len() == 0 {
            Seq::empty()
        } else {
            let earlier = self.recordings(events.drop_last());
            match self.run(events.drop_last()).records(events.last()) {
                Some(bytes) => earlier.push(bytes),
                None => earlier,
            }
        }
    }
}

/// A fetch that is over stays as it is: no event changes the fetcher or the
/// job's progress, and the answer repeats how the fetch ended.
pub proof fn lemma_terminal_is_final(fetcher: RangeFetcher, event: FetchEvent, progress: ProgressView)
    requires
        fetcher.is_terminal(),
    ensures
        fetcher.after(event) == fetcher,
        fetcher.reported(event, progress) == progress,
        fetcher.phase is Done ==> fetcher.action(event) == FetchAction::Finish,
        fetcher.phase matches FetchPhase::Failed { error } ==> fetcher.action(event) == (
        FetchAction::Abort { error }),
{
}

/// The state of a range moves forward only: from pending to downloading,
/// from there to completed or failed, from pending to failed, and never out
/// of completed or failed.
pub proof fn lemma_lifecycle(fetcher: RangeFetcher, event: FetchEvent)
    ensures
        ({
            let before = fetcher.chunk_state();
            let after = fetcher.after(event).chunk_state();
            after != before ==> !before.is_terminal() && (before is Pending ==> after
                is Downloading || after is Failed) && (before is Downloading ==> after.is_terminal())
        }),
        fetcher.after(event).range == fetcher.range,
{
}

/// No event takes bytes back: the byte count after an event is at least what
/// it was before.
pub proof fn lemma_step_monotonic(fetcher: RangeFetcher, event: FetchEvent)
    requires
        fetcher.accepts(event),
    ensures
        fetcher.downloaded <= fetcher.after(event).downloaded,
        fetcher.records(event) matches Some(bytes) ==> bytes == fetcher.after(event).downloaded,
{
}

/// Progress is monotonic: the byte counts that a fetcher records for its
/// range never decrease, whatever events arrive. Each lies between the count
/// at the start and the count at the end.
pub proof fn lemma_recordings_monotonic(fetcher: RangeFetcher, events: Seq<FetchEvent>)
    requires
        fetcher.accepts_all(events),
    ensures
        fetcher.downloaded <= fetcher.run(events).downloaded,
        forall|i: int|
            0 <= i < fetcher.recordings(events).len() ==> fetcher.downloaded
                <= #[trigger] fetcher.recordings(events)[i] <= fetcher.run(events).downloaded,
        forall|i: int, j: int|
            0 <= i <= j < fetcher.recordings(events).len() ==> fetcher.recordings(events)[i]
                <= fetcher.recordings(events)[j],
    decreases events.len(),
{
    if events.len() > 0 {
        let earlier = events.drop_last();
        let last = events.last();
        assert forall|k: int| 0 <= k < earlier.len() implies (#[trigger] fetcher.run(
            earlier.take(k),
        )).accepts(earlier[k]) by {
            assert(earlier.take(k) =~= events.take(k));
        }
        lemma_recordings_monotonic(fetcher, earlier);
        let before = fetcher.run(earlier);
        assert(events.take(events.len() - 1) =~= earlier);
        assert(before.accepts(last));
        lemma_step_monotonic(before, last);
        let old_records = fetcher.recordings(earlier);
        let records = fetcher.recordings(events);
        assert forall|i: int| 0 <= i < records.len() implies fetcher.downloaded
            <= #[trigger] records[i] <= fetcher.run(events).downloaded by {
            if i < old_records.len() {
                assert(records[i] == old_records[i]);
            }
        }
        assert forall|i: int, j: int| 0 <= i <= j < records.len() implies records[i]
            <= records[j] by {
            if j < old_records.len() {
                assert(records[i] == old_records[i]);
                assert(records[j] == old_records[j]);
            } else if i < old_records.len() {
                assert(records[i] == old_records[i]);
            }
        }
    }
}

impl RangeFetcher {
    /// The job's progress after a list of events, taken in order.
    pub open spec fn reported_all(
        self,
        events: Seq<FetchEvent>,
        progress: ProgressView,
    ) -> ProgressView
        decreases events.len(),
    {
        if events.len() == 0 {
            progress
        } else {
            self.run(events.drop_last()).reported(
                events.last(),
                self.reported_all(events.drop_last(), progress),
            )
        }
    }
}

/// While a fetcher takes events, the counter of its range keeps its place
/// and stays at or below the fetcher's own byte count.
proof fn lemma_counter_bounded(
    fetcher: RangeFetcher,
    events: Seq<FetchEvent>,
    progress: ProgressView,
)
    requires
        fetcher.accepts_all(events),
        fetcher.range.id < progress.counters.len(),
        progress.counters[fetcher.range.id as int] <= fetcher.downloaded,
    ensures
        fetcher.run(events).range == fetcher.range,
        fetcher.reported_all(events, progress).counters.len() == progress.counters.len(),
        fetcher.reported_all(events, progress).counters[fetcher.range.id as int] <= fetcher.run(
            events,
        ).downloaded,
        events.len() > 0 ==> fetcher.reported_all(events.drop_last(), progress).counters[fetcher.range.id as int]
            <= fetcher.reported_all(events, progress).counters[fetcher.range.id as int],
    decreases events.len(),
{
    if events.len() > 0 {
        let earlier = events.drop_last();
        assert forall|k: int| 0 <= k < earlier.len() implies (#[trigger] fetcher.run(
            earlier.take(k),
        )).accepts(earlier[k]) by {
            assert(earlier.take(k) =~= events.take(k));
        }
        lemma_counter_bounded(fetcher, earlier, progress);
        assert(events.take(events.len() - 1) =~= earlier);
        assert(fetcher.run(earlier).accepts(events.last()));
        lemma_step_monotonic(fetcher.run(earlier), events.last());
    }
}

/// Progress is monotonic in the job's progress too: while a fetcher takes
/// events, the counter of its range, as anyone reading the progress sees
/// it, never decreases. The counter must not start above the fetcher's own
/// byte count; in a job that was just planned both are zero.
pub proof fn lemma_counter_monotonic(
    fetcher: RangeFetcher,
    events: Seq<FetchEvent>,
    progress: ProgressView,
    i: int,
    j: int,
)
    requires
        fetcher.accepts_all(events),
        fetcher.range.id < progress.counters.len(),
        progress.counters[fetcher.range.id as int] <= fetcher.downloaded,
        0 <= i <= j <= events.len(),
    ensures
        fetcher.reported_all(events.take(i), progress).counters[fetcher.range.id as int]
            <= fetcher.reported_all(events.take(j), progress).counters[fetcher.range.id as int],
    decreases j - i,
{
    if i < j {
        let upto = events.take(j);
        assert forall|k: int| 0 <= k < upto.len() implies (#[trigger] fetcher.run(
            upto.take(k),
        )).accepts(upto[k]) by {
            assert(upto.take(k) =~= events.take(k));
        }
        lemma_counter_bounded(fetcher, upto, progress);
        assert(upto.drop_last() =~= events.take(j - 1));
        lemma_counter_monotonic(fetcher, events, progress, i, j - 1);
    }
}

} // verus!
