//! CityJSON Text Sequences (CityJSONSeq): files whose first line is a
//! CityJSON header and whose other lines are CityJSONFeature objects.

use vstd::prelude::*;
use crate::error::{CityJsonStacError, IoErrorKind};
use crate::text::{chars_of, concat, string_of};

verus! {

/// Metadata gathered over the features of a sequence (none yet).
#[derive(Debug, Clone, PartialEq, Eq)]
pub struct AggregatedMetadata {}

impl AggregatedMetadata {
    /// Empty metadata.
    pub fn new() -> (r: Self)
        ensures
            r == (AggregatedMetadata {}),
    {
        AggregatedMetadata {}
    }
}

impl Default for AggregatedMetadata {
    /// Empty metadata.
    fn default() -> (r: Self)
        ensures
            r == (AggregatedMetadata {}),
    {
        AggregatedMetadata::new()
    }
}

/// Reader for CityJSON Text Sequence files (`.city.jsonl`, `.jsonl`,
/// `.cjseq`).
pub struct CityJSONSeqReader {
    file_path: String,
    data: AggregatedMetadata,
}

impl CityJSONSeqReader {
    /// The path of the file read.
    pub closed spec fn path(&self) -> Seq<char> {
        self.file_path@
    }

    /// The metadata gathered over the sequence's features.
    pub closed spec fn data(&self) -> AggregatedMetadata {
        self.data
    }

    /// A reader of the file at `file_path`, which `exists` says whether it
    /// is there: an `IoError` of kind `NotFound` ("File not found: <path>")
    /// when it is not.
    pub fn new(file_path: &str, exists: bool) -> (r: Result<Self, CityJsonStacError>)
        ensures
            exists ==> (r matches Ok(reader) && reader.path() == file_path@ && reader.data() == (AggregatedMetadata {})),
            !exists ==> (r matches Err(CityJsonStacError::IoError(kind, m)) && kind == IoErrorKind::NotFound
                && m@ == "File not found: "@ + file_path@),
    {
        if !exists {
            let msg = concat(chars_of("File not found: ").as_slice(), chars_of(file_path).as_slice());
            return Err(CityJsonStacError::IoError(IoErrorKind::NotFound, string_of(msg.as_slice())));
        }
        Ok(CityJSONSeqReader { file_path: file_path.to_string(), data: AggregatedMetadata::new() })
    }

    /// The path of the file read.
    pub fn file_path(&self) -> (r: &str)
        ensures
            r@ == self.path(),
    {
        self.file_path.as_str()
    }

    /// The name of the encoding: `CityJSONSeq`.
    pub fn encoding(&self) -> (r: &'static str)
        ensures
            r@ == "CityJSONSeq"@,
    {
        "CityJSONSeq"
    }
}

} // verus!
