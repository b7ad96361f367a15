//! Errors of the library.

use vstd::prelude::*;
use crate::text::{chars_of, concat, string_of};

verus! {

/// The kind of an input/output failure.
#[derive(Debug, Clone, Copy, PartialEq, Eq, Structural)]
pub enum IoErrorKind {
    /// The file or directory does not exist.
    NotFound,
    /// The path is not of the kind asked for (such as a file where a
    /// directory is expected).
    InvalidInput,
    /// Any other input/output failure.
    Other,
}

/// What can go wrong while generating STAC metadata; each variant carries
/// its message.
#[derive(Debug, Clone, PartialEq, Eq)]
pub enum CityJsonStacError {
    /// An input/output failure (a missing file, an unreadable directory).
    IoError(IoErrorKind, String),
    /// The input is not usable CityJSON (or not a supported file at all).
    InvalidCityJson(String),
    /// The input's format is not supported.
    UnsupportedFormat(String),
    /// Metadata could not be extracted.
    MetadataError(String),
    /// A STAC document could not be produced.
    StacError(String),
    /// Remote storage could not be reached.
    StorageError(String),
    /// Any other failure.
    Other(String),
    /// No input files were found.
    NoFilesFound,
}

/// The text that introduces each kind of error in its description.
pub open spec fn error_label(e: CityJsonStacError) -> Seq<char> {
    match e {
        CityJsonStacError::IoError(_, _) => "IO error: "@,
        CityJsonStacError::InvalidCityJson(_) => "Invalid CityJSON: "@,
        CityJsonStacError::UnsupportedFormat(_) => "Unsupported format: "@,
        CityJsonStacError::MetadataError(_) => "Metadata error: "@,
        CityJsonStacError::StacError(_) => "STAC error: "@,
        CityJsonStacError::StorageError(_) => "Storage error: "@,
        CityJsonStacError::Other(_) => ""@,
        CityJsonStacError::NoFilesFound => "No supported files found"@,
    }
}

/// The message an error carries (empty for `NoFilesFound`).
pub open spec fn error_message(e: CityJsonStacError) -> Seq<char> {
    match e {
        CityJsonStacError::IoError(_, m) => m@,
        CityJsonStacError::InvalidCityJson(m) => m@,
        CityJsonStacError::UnsupportedFormat(m) => m@,
        CityJsonStacError::MetadataError(m) => m@,
        CityJsonStacError::StacError(m) => m@,
        CityJsonStacError::StorageError(m) => m@,
        CityJsonStacError::Other(m) => m@,
        CityJsonStacError::NoFilesFound => ""@,
    }
}

impl CityJsonStacError {
    /// The human-readable description: the kind's label followed by the
    /// message.
    pub fn to_string(&self) -> (r: String)
        ensures
            r@ == error_label(*self) + error_message(*self),
    {
        let (label, msg): (&str, &str) = match self {
            CityJsonStacError::IoError(_, m) => ("IO error: ", m.as_str()),
            CityJsonStacError::InvalidCityJson(m) => ("Invalid CityJSON: ", m.as_str()),
            CityJsonStacError::UnsupportedFormat(m) => ("Unsupported format: ", m.as_str()),
            CityJsonStacError::MetadataError(m) => ("Metadata error: ", m.as_str()),
            CityJsonStacError::StacError(m) => ("STAC error: ", m.as_str()),
            CityJsonStacError::StorageError(m) => ("Storage error: ", m.as_str()),
            CityJsonStacError::Other(m) => ("", m.as_str()),
            CityJsonStacError::NoFilesFound => ("No supported files found", ""),
        };
        let a = chars_of(label);
        let b = chars_of(msg);
        let all = concat(a.as_slice(), b.as_slice());
        string_of(all.as_slice())
    }
}

} // verus!
