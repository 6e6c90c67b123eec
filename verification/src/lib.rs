//! Identification pipeline for collections of game ROM files: content hashing,
//! hash caching, system classification, catalog lookup and duplicate resolution.

pub mod error;
pub mod text;
pub mod split;
pub mod numbers;
pub mod str_map;
pub mod paths;
pub mod crc32;
pub mod cache;
pub mod archive;
pub mod classifier;
pub mod scanner;
pub mod seven_zip;
pub mod ranking;
pub mod dedup_plan;
pub mod dedup_group;
pub mod deduplicator;
pub mod dedup_laws;
pub mod dat_lines;
pub mod dat_parser;
pub mod dat_block;
pub mod i18n;
pub mod mame_xml;
pub mod platform;
pub mod core_mapper;
pub mod playlist;
pub mod playlist_builder;
pub mod converter;
pub mod validator;
pub mod thread_monitor;
pub mod validation_report;
pub mod validation_text;
pub mod cli;
pub mod config;
pub mod dat_downloader;
pub mod watch;

pub use cache::CrcCache;
pub use config::Config;
pub use deduplicator::RomDeduplicator;
pub use error::{ConfigError, ConverterError, DatError, PlaylistError, ScannerError};
pub use platform::Platform;
pub use playlist::{Playlist, PlaylistBuilder, PlaylistItem};
pub use scanner::Scanner;
pub use validator::RomValidator;
