use download_manager::coordinator::Coordinator;
use download_manager::error::DownloadError;
use download_manager::fetch::{
    check_range_status, range_header, FetchAction, FetchEvent, FetchPhase, RangeFetcher,
};
use download_manager::merge::plan_merge;
use download_manager::progress::{ChunkProgressBar, ChunkState};
use download_manager::range::{plan_ranges, ByteRange};

fn range(id: usize, start: u64, end: u64) -> ByteRange {
    ByteRange { id, start, end }
}

fn streaming(id: usize, bar: &mut ChunkProgressBar) -> RangeFetcher {
    let mut fetcher = RangeFetcher::new(range(id, 0, 99));
    assert_eq!(fetcher.step(FetchEvent::FileOpened, bar), FetchAction::SendRequest);
    assert_eq!(fetcher.step(FetchEvent::Response { status: 206 }, bar), FetchAction::Continue);
    assert_eq!(fetcher.phase, FetchPhase::Streaming);
    fetcher
}

#[test]
fn header_of_a_ranged_request() {
    assert_eq!(range_header(&range(1, 250, 499)), "bytes=250-499");
    assert_eq!(range_header(&range(0, 0, 0)), "bytes=0-0");
    assert_eq!(
        range_header(&range(9, 0, u64::MAX)),
        "bytes=0-18446744073709551615"
    );
}

#[test]
fn statuses_of_a_ranged_request() {
    assert_eq!(check_range_status(206), Ok(()));
    assert_eq!(check_range_status(200), Err(DownloadError::RangeUnsupported));
    assert_eq!(check_range_status(404), Err(DownloadError::UnexpectedStatus { code: 404 }));
    assert_eq!(check_range_status(416), Err(DownloadError::UnexpectedStatus { code: 416 }));
    assert_eq!(check_range_status(0), Err(DownloadError::UnexpectedStatus { code: 0 }));
}

#[test]
fn a_new_fetcher_has_done_nothing() {
    let fetcher = RangeFetcher::new(range(3, 750, 999));
    assert_eq!(fetcher.range, range(3, 750, 999));
    assert_eq!(fetcher.phase, FetchPhase::Ready);
    assert_eq!(fetcher.downloaded, 0);
}

#[test]
fn a_range_is_fetched_to_its_end() {
    let mut bar = ChunkProgressBar::new(4, 1000, false);
    let mut fetcher = RangeFetcher::new(range(1, 250, 499));
    assert_eq!(bar.chunk_state(1), Some(ChunkState::Pending));

    assert_eq!(fetcher.step(FetchEvent::FileOpened, &mut bar), FetchAction::SendRequest);
    assert_eq!(fetcher.phase, FetchPhase::AwaitingResponse);
    assert_eq!(bar.chunk_state(1), Some(ChunkState::Downloading { worker_id: 1 }));

    assert_eq!(fetcher.step(FetchEvent::Response { status: 206 }, &mut bar), FetchAction::Continue);
    assert_eq!(fetcher.phase, FetchPhase::Streaming);
    assert_eq!(bar.chunk_state(1), Some(ChunkState::Downloading { worker_id: 1 }));

    assert_eq!(fetcher.step(FetchEvent::Segment { len: 100 }, &mut bar), FetchAction::Continue);
    assert_eq!(fetcher.downloaded, 100);
    assert_eq!(bar.chunk_bytes(1), Some(100));
    assert_eq!(fetcher.step(FetchEvent::Tick { cancelled: false }, &mut bar), FetchAction::Continue);
    assert_eq!(fetcher.step(FetchEvent::Segment { len: 150 }, &mut bar), FetchAction::Continue);
    assert_eq!(fetcher.downloaded, 250);
    assert_eq!(bar.chunk_bytes(1), Some(250));

    assert_eq!(fetcher.step(FetchEvent::EndOfStream, &mut bar), FetchAction::Finish);
    assert_eq!(fetcher.phase, FetchPhase::Done);
    assert_eq!(bar.chunk_state(1), Some(ChunkState::Completed));
    assert_eq!(bar.chunk_bytes(1), Some(250));
    for other in [0, 2, 3] {
        assert_eq!(bar.chunk_state(other), Some(ChunkState::Pending));
        assert_eq!(bar.chunk_bytes(other), Some(0));
    }
}

#[test]
fn a_server_without_ranges_fails_the_job() {
    let mut bar = ChunkProgressBar::new(2, 1000, false);
    let plan = plan_ranges(1000, 2).unwrap();
    let mut coordinator: Coordinator<String> = Coordinator::new(plan.len());
    for range in &plan {
        let mut fetcher = RangeFetcher::new(*range);
        assert_eq!(fetcher.step(FetchEvent::FileOpened, &mut bar), FetchAction::SendRequest);
        let action = fetcher.step(FetchEvent::Response { status: 200 }, &mut bar);
        assert_eq!(action, FetchAction::Abort { error: DownloadError::RangeUnsupported });
        assert_eq!(fetcher.phase, FetchPhase::Failed { error: DownloadError::RangeUnsupported });
        assert_eq!(bar.chunk_state(range.id), Some(ChunkState::Failed));
        coordinator.record(range.id, Err(DownloadError::RangeUnsupported));
    }
    assert_eq!(plan_merge(coordinator, false).unwrap_err(), DownloadError::RangeUnsupported);
}

#[test]
fn an_unexpected_status_fails_the_range() {
    let mut bar = ChunkProgressBar::new(1, 10, false);
    let mut fetcher = RangeFetcher::new(range(0, 0, 9));
    fetcher.step(FetchEvent::FileOpened, &mut bar);
    let action = fetcher.step(FetchEvent::Response { status: 503 }, &mut bar);
    assert_eq!(action, FetchAction::Abort { error: DownloadError::UnexpectedStatus { code: 503 } });
    assert_eq!(bar.chunk_state(0), Some(ChunkState::Failed));
}

#[test]
fn cancellation_in_the_middle_of_a_range() {
    let plan = plan_ranges(1000, 4).unwrap();
    let mut bar = ChunkProgressBar::new(4, 1000, false);
    let mut coordinator: Coordinator<String> = Coordinator::new(4);
    for range in &plan {
        let mut fetcher = RangeFetcher::new(*range);
        fetcher.step(FetchEvent::FileOpened, &mut bar);
        fetcher.step(FetchEvent::Response { status: 206 }, &mut bar);
        fetcher.step(FetchEvent::Segment { len: 100 }, &mut bar);
        if range.id == 2 {
            let action = fetcher.step(FetchEvent::Tick { cancelled: true }, &mut bar);
            assert_eq!(action, FetchAction::Abort { error: DownloadError::Interrupted });
            assert_eq!(fetcher.phase, FetchPhase::Failed { error: DownloadError::Interrupted });
            coordinator.record(2, Err(DownloadError::Interrupted));
        } else {
            fetcher.step(FetchEvent::Segment { len: 150 }, &mut bar);
            assert_eq!(fetcher.step(FetchEvent::EndOfStream, &mut bar), FetchAction::Finish);
            coordinator.record(range.id, Ok(format!("part{}", range.id)));
        }
    }
    assert_eq!(bar.chunk_state(2), Some(ChunkState::Failed));
    assert_eq!(bar.chunk_bytes(2), Some(100));
    for done in [0, 1, 3] {
        assert_eq!(bar.chunk_state(done), Some(ChunkState::Completed));
        assert_eq!(bar.chunk_bytes(done), Some(250));
    }
    assert!(coordinator.is_complete());
    assert_eq!(plan_merge(coordinator, false).unwrap_err(), DownloadError::Interrupted);
}

#[test]
fn cancellation_is_seen_only_while_the_body_is_read() {
    let mut bar = ChunkProgressBar::new(1, 10, false);
    let mut fetcher = RangeFetcher::new(range(0, 0, 9));
    assert_eq!(fetcher.step(FetchEvent::Tick { cancelled: true }, &mut bar), FetchAction::Continue);
    assert_eq!(fetcher.phase, FetchPhase::Ready);
    fetcher.step(FetchEvent::FileOpened, &mut bar);
    assert_eq!(fetcher.step(FetchEvent::Tick { cancelled: true }, &mut bar), FetchAction::Continue);
    assert_eq!(fetcher.phase, FetchPhase::AwaitingResponse);
    assert_eq!(bar.chunk_state(0), Some(ChunkState::Downloading { worker_id: 0 }));
}

#[test]
fn io_failures_fail_the_range_in_every_phase() {
    let mut bar = ChunkProgressBar::new(3, 30, false);
    let abort = FetchAction::Abort { error: DownloadError::Io };

    let mut fetcher = RangeFetcher::new(range(0, 0, 9));
    assert_eq!(fetcher.step(FetchEvent::IoFailed, &mut bar), abort);
    assert_eq!(bar.chunk_state(0), Some(ChunkState::Failed));

    let mut fetcher = RangeFetcher::new(range(1, 10, 19));
    fetcher.step(FetchEvent::FileOpened, &mut bar);
    assert_eq!(fetcher.step(FetchEvent::IoFailed, &mut bar), abort);
    assert_eq!(bar.chunk_state(1), Some(ChunkState::Failed));

    let mut fetcher = RangeFetcher::new(range(2, 20, 29));
    fetcher.step(FetchEvent::FileOpened, &mut bar);
    fetcher.step(FetchEvent::Response { status: 206 }, &mut bar);
    fetcher.step(FetchEvent::Segment { len: 4 }, &mut bar);
    assert_eq!(fetcher.step(FetchEvent::IoFailed, &mut bar), abort);
    assert_eq!(fetcher.downloaded, 4);
    assert_eq!(bar.chunk_state(2), Some(ChunkState::Failed));
    assert_eq!(bar.chunk_bytes(2), Some(4));
}

#[test]
fn a_fetch_that_is_over_stays_as_it_is() {
    let events = [
        FetchEvent::FileOpened,
        FetchEvent::IoFailed,
        FetchEvent::Response { status: 206 },
        FetchEvent::Response { status: 200 },
        FetchEvent::Segment { len: 5 },
        FetchEvent::EndOfStream,
        FetchEvent::Tick { cancelled: true },
        FetchEvent::Tick { cancelled: false },
    ];
    let mut bar = ChunkProgressBar::new(2, 200, false);

    let mut done = streaming(0, &mut bar);
    done.step(FetchEvent::Segment { len: 100 }, &mut bar);
    done.step(FetchEvent::EndOfStream, &mut bar);
    let mut failed = streaming(1, &mut bar);
    failed.step(FetchEvent::Tick { cancelled: true }, &mut bar);

    let done_before = done;
    let failed_before = failed;
    for event in events {
        assert_eq!(done.step(event, &mut bar), FetchAction::Finish);
        assert_eq!(
            failed.step(event, &mut bar),
            FetchAction::Abort { error: DownloadError::Interrupted }
        );
        assert_eq!(done, done_before);
        assert_eq!(failed, failed_before);
        assert_eq!(bar.chunk_state(0), Some(ChunkState::Completed));
        assert_eq!(bar.chunk_state(1), Some(ChunkState::Failed));
        assert_eq!(bar.chunk_bytes(0), Some(100));
        assert_eq!(bar.chunk_bytes(1), Some(0));
    }
}

#[test]
fn events_out_of_turn_change_nothing() {
    let mut bar = ChunkProgressBar::new(1, 100, false);
    let mut fetcher = RangeFetcher::new(range(0, 0, 99));
    for event in [
        FetchEvent::Response { status: 200 },
        FetchEvent::Segment { len: 5 },
        FetchEvent::EndOfStream,
    ] {
        assert_eq!(fetcher.step(event, &mut bar), FetchAction::Continue);
        assert_eq!(fetcher, RangeFetcher::new(range(0, 0, 99)));
        assert_eq!(bar.chunk_state(0), Some(ChunkState::Pending));
        assert_eq!(bar.chunk_bytes(0), Some(0));
    }
    let mut fetcher = streaming(0, &mut bar);
    assert_eq!(fetcher.step(FetchEvent::FileOpened, &mut bar), FetchAction::Continue);
    assert_eq!(fetcher.step(FetchEvent::Response { status: 200 }, &mut bar), FetchAction::Continue);
    assert_eq!(fetcher.phase, FetchPhase::Streaming);
}

#[test]
fn recorded_bytes_never_decrease() {
    let mut bar = ChunkProgressBar::new(1, 1000, false);
    let mut fetcher = streaming(0, &mut bar);
    let mut last = 0;
    for (i, len) in [10usize, 0, 300, 1, 0, 0, 689].into_iter().enumerate() {
        if i % 2 == 1 {
            fetcher.step(FetchEvent::Tick { cancelled: false }, &mut bar);
        }
        fetcher.step(FetchEvent::Segment { len }, &mut bar);
        let seen = bar.chunk_bytes(0).unwrap();
        assert!(seen >= last);
        assert_eq!(seen, last + len);
        assert_eq!(seen, fetcher.downloaded);
        last = seen;
    }
    assert_eq!(last, 1000);
}

#[test]
fn a_segment_beyond_the_machine_word_cannot_be_taken() {
    let mut bar = ChunkProgressBar::new(1, 0, false);
    let mut fetcher = streaming(0, &mut bar);
    assert!(fetcher.can_take(&FetchEvent::Segment { len: usize::MAX }));
    fetcher.step(FetchEvent::Segment { len: usize::MAX }, &mut bar);
    assert!(fetcher.can_take(&FetchEvent::Segment { len: 0 }));
    assert!(!fetcher.can_take(&FetchEvent::Segment { len: 1 }));
    assert!(fetcher.can_take(&FetchEvent::EndOfStream));
    let ready = RangeFetcher::new(range(0, 0, 9));
    assert!(ready.can_take(&FetchEvent::Segment { len: usize::MAX }));
}

#[test]
fn a_fetcher_for_a_range_unknown_to_the_bar() {
    let mut bar = ChunkProgressBar::new(2, 100, false);
    let mut fetcher = streaming(5, &mut bar);
    fetcher.step(FetchEvent::Segment { len: 10 }, &mut bar);
    assert_eq!(fetcher.step(FetchEvent::EndOfStream, &mut bar), FetchAction::Finish);
    assert_eq!(bar.get_total_downloaded(), 0);
    assert_eq!(bar.chunk_state(0), Some(ChunkState::Pending));
    assert_eq!(bar.chunk_state(1), Some(ChunkState::Pending));
}
