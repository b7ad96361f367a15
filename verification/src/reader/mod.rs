//! Readers of city-model files: what the library extracts from a parsed
//! document, and which reader a file or URL calls for.

pub mod cityjson;
pub mod cjseq;
pub mod zip;

use vstd::prelude::*;
use crate::error::CityJsonStacError;
use crate::metadata::attributes::AttributeDefinition;
use crate::metadata::crs::CRS;
use crate::path::{extension, extension_exec};
use crate::remote::{extract_extension_from_url, spec_is_remote_url, url_extension};
use crate::text::{chars_of, concat, same_chars, string_of};

verus! {

/// Input source for CityJSON data: a local file path or a remote URL.
#[derive(Debug, Clone, PartialEq, Eq)]
pub enum InputSource {
    /// Local file path.
    Local(String),
    /// Remote URL (`http://`, `https://`, `s3://`, `az://`, `gs://`, ...).
    Remote(String),
}

impl InputSource {
    /// The input as a source: remote when it is a remote URL, local
    /// otherwise. It never fails.
    pub fn from_str_input(input: &str) -> (r: Result<Self, CityJsonStacError>)
        ensures
            r matches Ok(src) && if spec_is_remote_url(input@) {
                src matches InputSource::Remote(u) && u@ == input@
            } else {
                src matches InputSource::Local(p) && p@ == input@
            },
    {
        if crate::remote::is_remote_url(input) {
            Ok(InputSource::Remote(input.to_string()))
        } else {
            Ok(InputSource::Local(input.to_string()))
        }
    }
}

/// The reader a file calls for.
#[derive(Debug, Clone, Copy, PartialEq, Eq, Structural)]
pub enum ReaderKind {
    /// A ZIP archive of city-model files.
    Zip,
    /// A CityJSON file.
    CityJson,
    /// A CityJSON Text Sequence.
    CityJsonSeq,
    /// A FlatCityBuf file.
    FlatCityBuf,
    /// A CityGML file (once its content is checked to be CityGML).
    CityGml,
}

impl ReaderKind {
    /// Whether files of this kind can be read as a stream, one record after
    /// another: only CityJSON Text Sequences can.
    pub fn streamable(&self) -> (r: bool)
        ensures
            r == (*self == ReaderKind::CityJsonSeq),
    {
        match self {
            ReaderKind::CityJsonSeq => true,
            _ => false,
        }
    }
}

/// The reader for a local file's extension (compared exactly): `zip`,
/// `json`, `jsonl`, `fcb`, and `gml` or `xml`.
pub open spec fn local_kind(e: Seq<char>) -> Option<ReaderKind> {
    if e == "zip"@ {
        Some(ReaderKind::Zip)
    } else if e == "json"@ {
        Some(ReaderKind::CityJson)
    } else if e == "jsonl"@ {
        Some(ReaderKind::CityJsonSeq)
    } else if e == "fcb"@ {
        Some(ReaderKind::FlatCityBuf)
    } else if e == "gml"@ || e == "xml"@ {
        Some(ReaderKind::CityGml)
    } else {
        None
    }
}

/// The reader for a remote file's (lower-case) extension: `json`, `jsonl`
/// or `cjseq`, `gml` or `xml`, and `zip`.
pub open spec fn remote_kind(e: Seq<char>) -> Option<ReaderKind> {
    if e == "json"@ {
        Some(ReaderKind::CityJson)
    } else if e == "jsonl"@ || e == "cjseq"@ {
        Some(ReaderKind::CityJsonSeq)
    } else if e == "gml"@ || e == "xml"@ {
        Some(ReaderKind::CityGml)
    } else if e == "zip"@ {
        Some(ReaderKind::Zip)
    } else {
        None
    }
}

/// Which extensions have which reader. A local file is read as a ZIP
/// archive by `zip`, as CityJSON by `json`, as a CityJSON Text Sequence by
/// `jsonl`, as FlatCityBuf by `fcb` and as CityGML by `gml` or `xml`; no
/// other extension has a reader. A remote file is read the same way, but
/// for `cjseq` also being a sequence and `fcb` having no reader.
pub proof fn lemma_reader_extensions(e: Seq<char>)
    ensures
        (local_kind(e) == Some(ReaderKind::Zip)) <==> e == "zip"@,
        (local_kind(e) == Some(ReaderKind::CityJson)) <==> e == "json"@,
        (local_kind(e) == Some(ReaderKind::CityJsonSeq)) <==> e == "jsonl"@,
        (local_kind(e) == Some(ReaderKind::FlatCityBuf)) <==> e == "fcb"@,
        (local_kind(e) == Some(ReaderKind::CityGml)) <==> (e == "gml"@ || e == "xml"@),
        (remote_kind(e) == Some(ReaderKind::Zip)) <==> e == "zip"@,
        (remote_kind(e) == Some(ReaderKind::CityJson)) <==> e == "json"@,
        (remote_kind(e) == Some(ReaderKind::CityJsonSeq)) <==> (e == "jsonl"@ || e == "cjseq"@),
        (remote_kind(e) == Some(ReaderKind::CityGml)) <==> (e == "gml"@ || e == "xml"@),
        remote_kind(e) != Some(ReaderKind::FlatCityBuf),
{
    reveal_strlit("zip");
    reveal_strlit("json");
    reveal_strlit("jsonl");
    reveal_strlit("cjseq");
    reveal_strlit("fcb");
    reveal_strlit("gml");
    reveal_strlit("xml");
    assert("zip"@[0] != "fcb"@[0] && "zip"@[0] != "gml"@[0] && "zip"@[0] != "xml"@[0]);
    assert("fcb"@[0] != "gml"@[0] && "fcb"@[0] != "xml"@[0] && "gml"@[0] != "xml"@[0]);
    assert("json"@.len() != "jsonl"@.len() && "jsonl"@[0] != "cjseq"@[0]);
}

/// A local file and a remote file with the same extension are read the
/// same way, where the remote file has a reader at all: every local reader
/// but FlatCityBuf is also the remote reader of that extension.
pub proof fn lemma_local_readers_are_remote(e: Seq<char>)
    ensures
        forall|k: ReaderKind| local_kind(e) == Some(k) && k != ReaderKind::FlatCityBuf ==> remote_kind(e) == Some(k),
{
    lemma_reader_extensions(e);
}

/// Whether `v` is the text `lit`.
fn is_text(v: &[char], lit: &str) -> (r: bool)
    ensures
        r == (v@ == lit@),
{
    let l = chars_of(lit);
    same_chars(v, l.as_slice())
}

/// The reader for a local file's extension.
fn local_kind_exec(e: &[char]) -> (r: Option<ReaderKind>)
    ensures
        r == local_kind(e@),
{
    if is_text(e, "zip") {
        Some(ReaderKind::Zip)
    } else if is_text(e, "json") {
        Some(ReaderKind::CityJson)
    } else if is_text(e, "jsonl") {
        Some(ReaderKind::CityJsonSeq)
    } else if is_text(e, "fcb") {
        Some(ReaderKind::FlatCityBuf)
    } else if is_text(e, "gml") || is_text(e, "xml") {
        Some(ReaderKind::CityGml)
    } else {
        None
    }
}

/// The reader for a remote file's extension.
fn remote_kind_exec(e: &[char]) -> (r: Option<ReaderKind>)
    ensures
        r == remote_kind(e@),
{
    if is_text(e, "json") {
        Some(ReaderKind::CityJson)
    } else if is_text(e, "jsonl") || is_text(e, "cjseq") {
        Some(ReaderKind::CityJsonSeq)
    } else if is_text(e, "gml") || is_text(e, "xml") {
        Some(ReaderKind::CityGml)
    } else if is_text(e, "zip") {
        Some(ReaderKind::Zip)
    } else {
        None
    }
}

/// The reader a local file calls for, by the extension of its path: an
/// `InvalidCityJson` error when the path has no extension or an extension no
/// reader handles.
pub fn reader_kind(path: &str) -> (r: Result<ReaderKind, CityJsonStacError>)
    ensures
        match extension(path@) {
            None => r matches Err(CityJsonStacError::InvalidCityJson(m)) && m@ == "No file extension"@,
            Some(e) => match local_kind(e) {
                Some(k) => r == Ok::<ReaderKind, CityJsonStacError>(k),
                None => r matches Err(CityJsonStacError::InvalidCityJson(m)) && m@ == "Unsupported file extension: "@ + e,
            },
        },
{
    let v = chars_of(path);
    match extension_exec(v.as_slice()) {
        None => Err(CityJsonStacError::InvalidCityJson("No file extension".to_string())),
        Some(e) => match local_kind_exec(e.as_slice()) {
            Some(k) => Ok(k),
            None => {
                let msg = concat(chars_of("Unsupported file extension: ").as_slice(), e.as_slice());
                Err(CityJsonStacError::InvalidCityJson(string_of(msg.as_slice())))
            },
        },
    }
}

/// The reader a remote file calls for, by the extension of its URL (see
/// `url_extension`), checked before anything is downloaded: an error when
/// the URL has no extension, and an `InvalidCityJson` error when no reader
/// handles it.
pub fn remote_reader_kind(url: &str) -> (r: Result<ReaderKind, CityJsonStacError>)
    ensures
        match url_extension(url@) {
            None => r matches Err(CityJsonStacError::Other(m)) && m@ == "No file extension found in URL: "@ + url@,
            Some(e) => match remote_kind(e) {
                Some(k) => r == Ok::<ReaderKind, CityJsonStacError>(k),
                None => r matches Err(CityJsonStacError::InvalidCityJson(m))
                    && m@ == "Unsupported remote file extension: "@ + e + ". Supported: .json, .jsonl, .cjseq, .gml, .xml, .zip"@,
            },
        },
{
    let ext = match extract_extension_from_url(url) {
        Ok(e) => e,
        Err(err) => {
            return Err(err);
        },
    };
    let e = chars_of(ext.as_str());
    match remote_kind_exec(e.as_slice()) {
        Some(k) => Ok(k),
        None => {
            let a = concat(chars_of("Unsupported remote file extension: ").as_slice(), e.as_slice());
            let b = concat(a.as_slice(), chars_of(". Supported: .json, .jsonl, .cjseq, .gml, .xml, .zip").as_slice());
            Err(CityJsonStacError::InvalidCityJson(string_of(b.as_slice())))
        },
    }
}

/// The name of the encoding a reader reports.
pub open spec fn kind_encoding(k: ReaderKind) -> Seq<char> {
    match k {
        ReaderKind::Zip => "CityJSON"@,
        ReaderKind::CityJson => "CityJSON"@,
        ReaderKind::CityJsonSeq => "CityJSONSeq"@,
        ReaderKind::FlatCityBuf => "FlatCityBuf"@,
        ReaderKind::CityGml => "CityGML"@,
    }
}

impl ReaderKind {
    /// The name of the encoding the reader reports (a ZIP archive reports
    /// the CityJSON encoding).
    pub fn encoding(&self) -> (r: &'static str)
        ensures
            r@ == kind_encoding(*self),
    {
        match self {
            ReaderKind::Zip => "CityJSON",
            ReaderKind::CityJson => "CityJSON",
            ReaderKind::CityJsonSeq => "CityJSONSeq",
            ReaderKind::FlatCityBuf => "FlatCityBuf",
            ReaderKind::CityGml => "CityGML",
        }
    }
}


/// What a reader reports about its city model: each fact, or none where
/// the reader could not tell.
#[derive(Debug, Clone)]
pub struct ModelFacts {
    pub version: Option<String>,
    pub city_object_count: Option<u64>,
    pub lods: Option<Vec<String>>,
    pub city_object_types: Option<Vec<String>>,
    pub attributes: Option<Vec<AttributeDefinition>>,
    pub semantic_surfaces: Option<bool>,
    pub textures: Option<bool>,
    pub materials: Option<bool>,
    pub crs: Option<CRS>,
}

} // verus!
