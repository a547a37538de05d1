//! Text extraction from documents.
use vstd::prelude::*;

pub mod plaintext;
pub mod rtf;

use crate::extractors::plaintext::{can_handle, extract, extracted_text, file_extension, handles_lowercase, lowercase_extension};
use crate::text::{lowercase, owned, push_str};

verus! {

/// Result of extracting text from a file: the text, and key/value metadata
/// in which no key occurs twice.
pub struct ExtractionResult {
    pub text: String,
    pub metadata: Vec<(String, String)>,
}

/// The metadata pairs as texts.
pub open spec fn metadata_view(m: Seq<(String, String)>) -> Seq<(Seq<char>, Seq<char>)> {
    m.map_values(|p: (String, String)| (p.0@, p.1@))
}

} // verus!

verus! {

/// Why no text could be extracted.
pub enum ExtractError {
    /// No extractor handles the file's extension.
    Unsupported { extension: String, path: String },
    /// The file could not be read.
    Io { path: String, reason: String },
}

impl ExtractError {
    /// The error as a message; for a read error, the I/O error's own text.
    pub fn message(&self) -> (r: String)
        ensures
            r@ == match self {
                ExtractError::Unsupported { extension, path } =>
                    "No extractor available for extension '"@ + extension@ + "': "@ + path@,
                ExtractError::Io { reason, .. } => reason@,
            },
    {
        let mut r = String::new();
        match self {
            ExtractError::Unsupported { extension, path } => {
                push_str(&mut r, "No extractor available for extension '");
                push_str(&mut r, extension.as_str());
                push_str(&mut r, "': ");
                push_str(&mut r, path.as_str());
            },
            ExtractError::Io { reason, .. } => {
                push_str(&mut r, reason.as_str());
            },
        }
        r
    }
}

/// Trait that all text extractors implement: text from a file's path and bytes.
pub trait TextExtractor {
    fn extract(&self, path: &str, contents: &[u8]) -> Result<ExtractionResult, ExtractError>;
}

/// Whether the extractor dispatch accepts the file at `path`.
pub open spec fn extractable(path: Seq<char>) -> bool {
    handles_lowercase(lowercase(lowercase_extension(path)))
}

/// Dispatches to the appropriate extractor based on file extension; `contents`
/// are the bytes of the file at `path`.
pub fn extract_file(path: &str, contents: &[u8]) -> (r: Result<ExtractionResult, ExtractError>)
    ensures
        match r {
            Ok(res) => {
                &&& extractable(path@)
                &&& res.text@ == extracted_text(lowercase_extension(path@), contents@)
                &&& metadata_view(res.metadata@) == seq![
                    ("extractor"@, "plaintext"@),
                    ("extension"@, lowercase_extension(path@)),
                ]
            },
            Err(ExtractError::Unsupported { extension, path: p }) => {
                &&& !extractable(path@)
                &&& extension@ == lowercase_extension(path@)
                &&& p@ == path@
            },
            Err(ExtractError::Io { .. }) => false,
        },
{
    let extension = file_extension(path);
    if can_handle(extension.as_str()) {
        return Ok(extract(path, contents));
    }
    Err(ExtractError::Unsupported { extension, path: owned(path) })
}

} // verus!
