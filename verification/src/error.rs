//! The errors of the library.

use vstd::prelude::*;
pub use crate::dat_parser::DatError;

verus! {

/// What can go wrong during a scan.
#[derive(Debug)]
pub enum ScannerError {
    /// The directory to scan does not exist.
    DirectoryNotFound(String),
    /// The file is no ROM.
    InvalidRomFile(String),
    /// The content of a file could not be hashed.
    CrcCalculationFailed { file: String, message: String },
    /// No system could be told for the file.
    SystemNotDetected(String),
    /// The metadata of a file could not be read.
    MetadataUnreadable(String),
}

/// What can go wrong with a playlist.
#[derive(Debug)]
pub enum PlaylistError {
    /// The playlist could not be written as text.
    SerializationFailed(String),
    /// The playlist file could not be written.
    SaveFailed { path: String, message: String },
    /// The playlist file could not be read.
    LoadFailed { path: String, message: String },
    /// The playlist text is not in the playlist format.
    InvalidFormat(String),
}

/// What can go wrong when a playlist is converted between platforms.
#[derive(Debug)]
pub enum ConverterError {
    /// The platform is not supported.
    UnsupportedPlatform(String),
    /// A path could not be converted.
    PathConversionFailed { original: String, target: String },
    /// No core is known for the system.
    CoreNotFound(String),
    /// The platform that a playlist was written for could not be told.
    SourcePlatformNotDetected,
}

/// What can go wrong with the configuration.
#[derive(Debug)]
pub enum ConfigError {
    /// The configuration file could not be read.
    LoadFailed { path: String, message: String },
    /// The configuration file could not be written.
    SaveFailed { path: String, message: String },
    /// The configuration text is not in the configuration format.
    InvalidFormat(String),
    /// The configuration could not be written as text.
    SerializationFailed(String),
    /// No ROM directory is configured.
    NoRomDirectories,
}

} // verus!
