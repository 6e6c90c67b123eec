//! The arguments of the command line as plain values.

use vstd::prelude::*;
use crate::dedup_plan::Strategy;
use crate::platform::Platform;

verus! {

/// The arguments of the command line.
#[derive(Debug)]
pub struct Args {
    /// The directories with the ROMs.
    pub roms_dirs: Vec<String>,
    /// The platform the program runs on.
    pub source_platform: Option<Platform>,
    /// The platform the playlists are for.
    pub target_platform: Option<Platform>,
    /// The directory the playlists go to.
    pub output_dir: String,
    /// The directory with the catalogs.
    pub dat_dir: Option<String>,
    /// Whether catalogs are fetched automatically.
    pub auto_download_dats: bool,
    /// The system that every ROM is taken to belong to.
    pub system: Option<String>,
    /// The number of workers.
    pub threads: Option<usize>,
    /// Whether subdirectories are left out.
    pub no_recursive: bool,
    /// The extensions to accept.
    pub extensions: Option<Vec<String>>,
    /// Whether the master playlist is left out.
    pub skip_master: bool,
    /// The configuration file.
    pub config: Option<String>,
    /// Whether nothing is written.
    pub dry_run: bool,
    /// Whether existing playlists are overwritten.
    pub force: bool,
    /// Whether only errors are shown.
    pub quiet: bool,
    /// How talkative the program is.
    pub verbose: u8,
    /// The file for the report of unidentified ROMs.
    pub report: Option<String>,
    /// Whether checksums are left out.
    pub no_crc: bool,
    /// The command, where one is given.
    pub command: Option<Commands>,
}

/// The commands of the command line.
#[derive(Debug)]
#[allow(inconsistent_fields)]
pub enum Commands {
    /// Convert one playlist between platforms.
    Convert {
        input: String,
        source: Option<Platform>,
        target: Platform,
        output_dir: Option<String>,
        validate_paths: bool,
    },
    /// Convert all playlists of a directory.
    ConvertAll {
        input_dir: String,
        source: Platform,
        target: Platform,
        output_dir: Option<String>,
        validate_paths: bool,
    },
    /// Watch the ROM directories and keep the playlists up to date.
    Watch { debounce: u64, batch_size: usize, include_archives: bool },
    /// Fetch catalogs.
    DownloadDats { output_dir: String, systems: Option<Vec<String>>, force: bool, timeout: u64 },
    /// Validate ROMs against catalogs.
    Validate { dat_dir: String, report: Option<String>, systems: Option<Vec<String>> },
    /// Remove duplicate ROMs.
    Deduplicate {
        strategy: DeduplicationStrategy,
        priority_dirs: Option<Vec<String>>,
        dry_run: bool,
        backup: bool,
        backup_dir: Option<String>,
        report: Option<String>,
    },
    /// Manage the hash cache.
    Cache { action: CacheAction },
}

/// The deduplication strategies of the command line.
#[derive(Debug, Clone, Copy, PartialEq, Eq, Structural)]
pub enum DeduplicationStrategy {
    RegionPriority,
    FileSize,
    ModificationDate,
    DirectoryPriority,
    FilenameQuality,
}

impl DeduplicationStrategy {
    /// The strategy of the deduplicator that this one stands for.
    pub fn to_strategy(&self) -> (s: Strategy)
        ensures
            s == match *self {
                DeduplicationStrategy::RegionPriority => Strategy::RegionPriority,
                DeduplicationStrategy::FileSize => Strategy::FileSize,
                DeduplicationStrategy::ModificationDate => Strategy::ModificationDate,
                DeduplicationStrategy::DirectoryPriority => Strategy::DirectoryPriority,
                DeduplicationStrategy::FilenameQuality => Strategy::FilenameQuality,
            },
    {
        match self {
            DeduplicationStrategy::RegionPriority => Strategy::RegionPriority,
            DeduplicationStrategy::FileSize => Strategy::FileSize,
            DeduplicationStrategy::ModificationDate => Strategy::ModificationDate,
            DeduplicationStrategy::DirectoryPriority => Strategy::DirectoryPriority,
            DeduplicationStrategy::FilenameQuality => Strategy::FilenameQuality,
        }
    }
}

/// What to do with the hash cache.
#[derive(Debug, Clone, Copy, PartialEq, Eq, Structural)]
pub enum CacheAction {
    /// Forget every entry.
    Clear,
    /// Show the figures.
    Stats,
    /// Forget the entries that are older than `max_age` days.
    Clean { max_age: u64 },
}

} // verus!
