//! Errors of the archiver. The messages belong to the application, which
//! formats them; here each variant carries what its message needs.
use vstd::prelude::*;

verus! {

/// The error of a failed HTTP request (reqwest). Carried through unread.
#[verifier::external_type_specification]
#[verifier::external_body]
pub struct ExReqwestError(reqwest::Error);

/// An HTTP status code (reqwest, from the `http` crate). Carried through unread.
#[verifier::external_type_specification]
#[verifier::external_body]
pub struct ExStatusCode(reqwest::StatusCode);

/// A database error (sqlx). Carried through unread.
#[verifier::external_type_specification]
#[verifier::external_body]
pub struct ExSqlxError(sqlx::Error);

/// A JSON error (serde_json). Carried through unread.
#[verifier::external_type_specification]
#[verifier::external_body]
pub struct ExSerdeJsonError(serde_json::Error);

/// An XML serialisation error (serde-xml-rs). Carried through unread.
#[verifier::external_type_specification]
#[verifier::external_body]
pub struct ExSerdeXmlError(serde_xml_rs::Error);

/// A zip archive error (zip). Carried through unread.
#[verifier::external_type_specification]
#[verifier::external_body]
pub struct ExZipError(zip::result::ZipError);

/// An I/O error (std). Carried through unread.
#[verifier::external_type_specification]
#[verifier::external_body]
pub struct ExIoError(std::io::Error);

/// Errors of building a gallery from its metadata.
#[derive(Debug)]
pub enum HentaiNewError {
    HentaiLengthInconsistency { page_types: u16, num_pages: u16 },
    SearchById(SearchByIdError),
    Sqlx(sqlx::Error),
}

/// Errors of downloading a gallery into a CBZ file.
#[derive(Debug)]
pub enum HentaiDownloadError {
    BlockedByDirectory { directory_path: String },
    Download(),
    SerdeXml(serde_xml_rs::Error),
    StdIo(std::io::Error),
    Zip(zip::result::ZipError),
}

/// Errors of downloading one image of a gallery.
#[derive(Debug)]
pub enum HentaiDownloadImageError {
    BlockedByDirectory { directory_path: String },
    Reqwest(reqwest::Error),
    ReqwestStatus { url: String, status: reqwest::StatusCode },
    StdIo { filepath: String, source: std::io::Error },
}

/// Errors of removing a directory that is empty.
#[derive(Debug)]
pub enum RemoveOnlyEmptyDirError {
    StdIo { path: String, source: std::io::Error },
}

/// Errors of loading gallery metadata from the API.
#[derive(Debug)]
pub enum SearchByIdError {
    Reqwest(reqwest::Error),
    ReqwestStatus { url: String, status: reqwest::StatusCode },
    SerdeJson(serde_json::Error),
}

/// Errors of loading one page of a tag search.
#[derive(Debug)]
pub enum SearchByTagOnPageError {
    Reqwest { page_no: u32, num_pages: Option<u32>, source: reqwest::Error },
    ReqwestStatus { page_no: u32, num_pages: Option<u32>, url: String, status: reqwest::StatusCode },
    SerdeJson { page_no: u32, num_pages: Option<u32>, source: serde_json::Error },
}

} // verus!
