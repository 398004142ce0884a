use download_manager::progress::{
    assemble_chunks, render_line, transfer_message, ChunkProgressBar, ChunkState, DownloadProgress,
    ProgressTracker, Tint,
};

const FULL: &str = "\u{2588}";
const LIGHT: &str = "\u{2591}";

fn tinted(code: &str, text: &str) -> String {
    format!("\u{1b}[{code}m{text}\u{1b}[0m")
}

#[test]
fn a_new_bar_is_pending_and_empty() {
    let bar = ChunkProgressBar::new(4, 1000, false);
    assert_eq!(bar.num_chunks(), 4);
    assert_eq!(bar.total_bytes(), 1000);
    assert!(!bar.interrupted());
    for id in 0..4 {
        assert_eq!(bar.chunk_state(id), Some(ChunkState::Pending));
        assert_eq!(bar.chunk_bytes(id), Some(0));
    }
    assert_eq!(bar.chunk_state(4), None);
    assert_eq!(bar.chunk_bytes(4), None);
    assert_eq!(bar.get_total_downloaded(), 0);
}

#[test]
fn a_bar_without_ranges() {
    let bar = ChunkProgressBar::new(0, 0, true);
    assert_eq!(bar.num_chunks(), 0);
    assert!(bar.interrupted());
    assert_eq!(bar.chunk_state(0), None);
    assert_eq!(bar.checked_total_downloaded(), Some(0));
}

#[test]
fn counters_are_set_not_added() {
    let mut bar = ChunkProgressBar::new(3, 900, false);
    bar.update_chunk_bytes(1, 100);
    bar.update_chunk_bytes(1, 100);
    assert_eq!(bar.chunk_bytes(1), Some(100));
    bar.update_chunk_bytes(1, 250);
    assert_eq!(bar.chunk_bytes(1), Some(250));
    assert_eq!(bar.chunk_bytes(0), Some(0));
    assert_eq!(bar.chunk_bytes(2), Some(0));
    assert_eq!(bar.chunk_state(1), Some(ChunkState::Pending));
}

#[test]
fn a_counter_of_no_range_is_ignored() {
    let mut bar = ChunkProgressBar::new(3, 900, false);
    bar.update_chunk_bytes(3, 100);
    bar.update_chunk_bytes(usize::MAX, 100);
    assert_eq!(bar.get_total_downloaded(), 0);
    assert_eq!(bar.num_chunks(), 3);
}

#[test]
fn the_last_state_written_stays() {
    let mut bar = ChunkProgressBar::new(3, 900, false);
    bar.set_chunk_state(2, ChunkState::Downloading { worker_id: 2 });
    assert_eq!(bar.chunk_state(2), Some(ChunkState::Downloading { worker_id: 2 }));
    bar.set_chunk_state(2, ChunkState::Completed);
    bar.set_chunk_state(2, ChunkState::Failed);
    assert_eq!(bar.chunk_state(2), Some(ChunkState::Failed));
    assert_eq!(bar.chunk_state(0), Some(ChunkState::Pending));
    assert_eq!(bar.chunk_bytes(2), Some(0));
    bar.set_chunk_state(3, ChunkState::Completed);
    assert_eq!(bar.num_chunks(), 3);
}

#[test]
fn the_total_is_the_sum_of_the_counters() {
    let mut bar = ChunkProgressBar::new(4, 1000, false);
    bar.update_chunk_bytes(0, 250);
    bar.update_chunk_bytes(1, 100);
    bar.update_chunk_bytes(3, 7);
    assert_eq!(bar.checked_total_downloaded(), Some(357));
    assert_eq!(bar.get_total_downloaded(), 357);
    bar.update_chunk_bytes(1, 50);
    assert_eq!(bar.get_total_downloaded(), 307);
}

#[test]
fn a_total_beyond_the_machine_word_is_none() {
    let mut bar = ChunkProgressBar::new(2, 0, false);
    bar.update_chunk_bytes(0, usize::MAX);
    assert_eq!(bar.checked_total_downloaded(), Some(usize::MAX));
    bar.update_chunk_bytes(1, 1);
    assert_eq!(bar.checked_total_downloaded(), None);
}

#[test]
fn cancellation_is_never_cleared() {
    let mut bar = ChunkProgressBar::new(2, 10, false);
    assert!(!bar.interrupted());
    bar.interrupt();
    assert!(bar.interrupted());
    bar.interrupt();
    bar.set_chunk_state(0, ChunkState::Completed);
    bar.update_chunk_bytes(1, 3);
    assert!(bar.interrupted());
}

#[test]
fn indicators_by_state() {
    assert_eq!(ChunkState::Pending.indicator(), (LIGHT, Tint::BrightBlack));
    assert_eq!(ChunkState::Completed.indicator(), (FULL, Tint::Green));
    assert_eq!(ChunkState::Failed.indicator(), (FULL, Tint::Red));
    assert_eq!(ChunkState::Downloading { worker_id: 0 }.indicator(), (FULL, Tint::Yellow));
    assert_eq!(ChunkState::Downloading { worker_id: 1 }.indicator(), (FULL, Tint::Cyan));
    assert_eq!(ChunkState::Downloading { worker_id: 2 }.indicator(), (FULL, Tint::Magenta));
    assert_eq!(ChunkState::Downloading { worker_id: 3 }.indicator(), (FULL, Tint::Yellow));
    assert_eq!(ChunkState::Downloading { worker_id: 254 }.indicator(), (FULL, Tint::Magenta));
}

#[test]
fn indicators_between_brackets() {
    assert_eq!(assemble_chunks(&vec![]), "[]");
    assert_eq!(assemble_chunks(&vec!["a".to_string()]), "[a]");
    assert_eq!(
        assemble_chunks(&vec!["ab".to_string(), String::new(), "c".to_string()]),
        "[abc]"
    );
}

#[test]
fn the_progress_line_from_its_parts() {
    assert_eq!(
        render_line("[##]", "150 B", "1000 B", "75 B"),
        "[##] Downloaded: 150 B / 1000 B @ 75 B/s"
    );
    assert_eq!(render_line("", "", "", ""), " Downloaded:  /  @ /s");
}

#[test]
fn rendering_with_and_without_colours() {
    let mut bar = ChunkProgressBar::new(6, 3000, false);
    bar.set_chunk_state(0, ChunkState::Completed);
    bar.set_chunk_state(1, ChunkState::Downloading { worker_id: 1 });
    bar.set_chunk_state(2, ChunkState::Failed);
    bar.set_chunk_state(3, ChunkState::Downloading { worker_id: 3 });
    bar.set_chunk_state(4, ChunkState::Downloading { worker_id: 5 });
    bar.update_chunk_bytes(0, 500);
    bar.update_chunk_bytes(1, 1000);

    colored::control::set_override(false);
    assert_eq!(bar.render_chunks(), format!("[{FULL}{FULL}{FULL}{FULL}{FULL}{LIGHT}]"));
    assert_eq!(
        bar.render(2),
        format!("[{FULL}{FULL}{FULL}{FULL}{FULL}{LIGHT}] Downloaded: 1.46 KiB / 2.93 KiB @ 750 B/s")
    );
    assert_eq!(ChunkProgressBar::new(0, 0, false).render_chunks(), "[]");

    colored::control::set_override(true);
    let expected = format!(
        "[{}{}{}{}{}{}]",
        tinted("32", FULL),
        tinted("36", FULL),
        tinted("31", FULL),
        tinted("33", FULL),
        tinted("35", FULL),
        tinted("90", LIGHT),
    );
    assert_eq!(bar.render_chunks(), expected);
    assert_eq!(
        bar.render(0),
        format!("{expected} Downloaded: 1.46 KiB / 2.93 KiB @ 1.46 KiB/s")
    );
    colored::control::unset_override();
}

#[test]
fn the_least_time_counted_is_a_second() {
    let mut progress = DownloadProgress::new(false);
    progress.update_progress(4096);
    assert_eq!(progress.render(0), progress.render(1));
    assert_eq!(progress.render(1), "Downloaded: 4.00 KiB @ 4.00 KiB/s");
    assert_eq!(progress.render(4), "Downloaded: 4.00 KiB @ 1.00 KiB/s");
    assert_eq!(progress.render(8192), "Downloaded: 4.00 KiB @ 0 B/s");
}

#[test]
fn a_new_single_stream_progress() {
    let progress = DownloadProgress::new(false);
    assert_eq!(
        progress,
        DownloadProgress { bytes_downloaded: 0, total_bytes: 0, interrupted: false }
    );
    assert!(!progress.interrupted());
    let progress = DownloadProgress::new(true);
    assert_eq!(progress.bytes_downloaded, 0);
    assert_eq!(progress.total_bytes, 0);
    assert!(progress.interrupted());
}

#[test]
fn single_stream_progress_shows_the_size_once_known() {
    let mut progress = DownloadProgress::new(false);
    progress.update_progress(1500);
    assert_eq!(progress.bytes_downloaded, 1500);
    assert_eq!(progress.render(2), "Downloaded: 1.46 KiB @ 750 B/s");
    progress.total_bytes = 3000;
    assert_eq!(progress.render(2), "Downloaded: 1.46 KiB/2.93 KiB @ 750 B/s");
    progress.update_progress(15);
    assert_eq!(progress.render(1), "Downloaded: 15 B/2.93 KiB @ 15 B/s");
}

#[test]
fn the_single_stream_message_from_its_parts() {
    assert_eq!(transfer_message("1 B", Some("2 B"), "3 B"), "Downloaded: 1 B/2 B @ 3 B/s");
    assert_eq!(transfer_message("1 B", None, "3 B"), "Downloaded: 1 B @ 3 B/s");
}

#[test]
fn the_size_is_set_once_known() {
    let mut bar = ChunkProgressBar::new(2, 0, false);
    bar.update_chunk_bytes(1, 5);
    bar.set_chunk_state(0, ChunkState::Completed);
    assert_eq!(bar.total_bytes(), 0);
    bar.set_total_bytes(4096);
    assert_eq!(bar.total_bytes(), 4096);
    assert_eq!(bar.chunk_bytes(1), Some(5));
    assert_eq!(bar.chunk_state(0), Some(ChunkState::Completed));
    assert!(!bar.interrupted());
}

#[test]
fn what_can_be_rendered() {
    let mut bar = ChunkProgressBar::new(2, 0, false);
    assert!(bar.can_render());
    bar.update_chunk_bytes(0, usize::MAX);
    assert!(bar.can_render());
    bar.update_chunk_bytes(1, 1);
    assert!(!bar.can_render());
    assert!(DownloadProgress::new(false).can_render());
    let mut progress = DownloadProgress::new(true);
    progress.update_progress(usize::MAX);
    assert!(progress.can_render());
}
