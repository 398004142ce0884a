use download_manager::cli::{Commands, DownloadMode};

#[test]
fn blocking_subcommand_downloads_blocking() {
    assert_eq!(Commands::DownloadBlocking.mode(), DownloadMode::Blocking);
}

#[test]
fn one_worker_bypasses_planning_and_merging() {
    assert_eq!(Commands::DownloadAsync { workers: 1 }.mode(), DownloadMode::SingleStream);
    assert_eq!(Commands::DownloadAsync { workers: 0 }.mode(), DownloadMode::SingleStream);
}

#[test]
fn several_workers_download_ranges() {
    assert_eq!(Commands::DownloadAsync { workers: 2 }.mode(), DownloadMode::Ranged { workers: 2 });
    assert_eq!(
        Commands::DownloadAsync { workers: 255 }.mode(),
        DownloadMode::Ranged { workers: 255 }
    );
}
