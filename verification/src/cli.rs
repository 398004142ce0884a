//! What the command line selects.

use vstd::prelude::*;

verus! {

/// The subcommands.
#[derive(Clone, Copy, Debug, PartialEq, Eq, Structural)]
pub enum Commands {
    /// Download in one stream, with blocking calls.
    DownloadBlocking,
    /// Download without blocking, with `workers` workers. One worker, the
    /// default, means a single stream.
    DownloadAsync { workers: u8 },
}

/// The three ways to fetch a resource.
#[derive(Clone, Copy, Debug, PartialEq, Eq, Structural)]
pub enum DownloadMode {
    /// One stream, read with blocking calls.
    Blocking,
    /// One stream, read without blocking.
    SingleStream,
    /// One range per worker, fetched side by side and merged.
    Ranged { workers: u8 },
}

impl Commands {
    /// The way of fetching that a subcommand stands for. Ranges are used
    /// from two workers on; with fewer there is nothing to plan or merge.
    pub open spec fn mode_of(self) -> DownloadMode {
        match self {
            Commands::DownloadBlocking => DownloadMode::Blocking,
            Commands::DownloadAsync { workers } => if workers <= 1 {
                DownloadMode::SingleStream
            } else {
                DownloadMode::Ranged { workers }
            },
        }
    }

    /// Selects the way of fetching.
    pub fn mode(&self) -> (mode: DownloadMode)
        ensures
            mode == self.mode_of(),
    {
        match self {
            Commands::DownloadBlocking => DownloadMode::Blocking,
            Commands::DownloadAsync { workers } => {
                if *workers <= 1 {
                    DownloadMode::SingleStream
                } else {
                    DownloadMode::Ranged { workers: *workers }
                }
            },
        }
    }
}

} // verus!
