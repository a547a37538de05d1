//! The plain-text extractor, which also strips RTF.
use vstd::prelude::*;
use crate::extractors::rtf::{rtf_text, strip_rtf};
use crate::extractors::{ExtractionResult, metadata_view};
use crate::paths::{extension, extension_of};
use crate::text::{decode_utf8_lossy, lowercase, owned, same_text, to_lowercase, utf8_lossy};

verus! {

/// The extensions treated as plain text.
pub open spec fn plaintext_extension_list() -> Seq<Seq<char>> {
    seq![
        "txt"@, "md"@, "csv"@, "json"@, "xml"@, "yaml"@, "yml"@, "toml"@,
        "py"@, "js"@, "ts"@, "html"@, "css"@, "rs"@, "go"@, "java"@,
        "c"@, "cpp"@, "h"@, "sh"@, "bat"@, "ps1"@, "cfg"@, "ini"@, "log"@,
    ]
}

/// An extension (already lower-cased) is handled by this extractor.
pub open spec fn handles_lowercase(ext: Seq<char>) -> bool {
    plaintext_extension_list().contains(ext) || ext == "rtf"@
}

/// The extensions treated as plain text, in order.
pub fn plaintext_extensions() -> (r: Vec<&'static str>)
    ensures
        r@.map_values(|e: &str| e@) == plaintext_extension_list(),
{
    let r = vec![
        "txt", "md", "csv", "json", "xml", "yaml", "yml", "toml",
        "py", "js", "ts", "html", "css", "rs", "go", "java",
        "c", "cpp", "h", "sh", "bat", "ps1", "cfg", "ini", "log",
    ];
    assert(r@.map_values(|e: &str| e@) =~= plaintext_extension_list());
    r
}

/// Whether `ext` is one of the texts in `list`.
pub fn list_contains(list: &Vec<&'static str>, ext: &str) -> (r: bool)
    ensures
        r == list@.map_values(|e: &str| e@).contains(ext@),
{
    let ghost views = list@.map_values(|e: &str| e@);
    let mut i: usize = 0;
    while i < list.len()
        invariant
            i <= list@.len(),
            views == list@.map_values(|e: &str| e@),
            forall|j: int| 0 <= j < i ==> views[j] != ext@,
        decreases list@.len() - i,
    {
        if same_text(list[i], ext) {
            assert(views[i as int] == ext@);
            return true;
        }
        i = i + 1;
    }
    false
}

/// Returns true if this extractor can handle the given extension.
pub fn can_handle(extension: &str) -> (r: bool)
    ensures
        r == handles_lowercase(lowercase(extension@)),
{
    let ext = to_lowercase(extension);
    let list = plaintext_extensions();
    list_contains(&list, ext.as_str()) || same_text(ext.as_str(), "rtf")
}

/// The lower-cased extension of `path`, or the empty text when it has none.
pub open spec fn lowercase_extension(path: Seq<char>) -> Seq<char> {
    match extension_of(path) {
        Some(e) => lowercase(e),
        None => lowercase(Seq::empty()),
    }
}

/// The lower-cased extension of `path`, or the empty text when it has none.
pub fn file_extension(path: &str) -> (r: String)
    ensures
        r@ == lowercase_extension(path@),
{
    match extension(path) {
        Some(e) => to_lowercase(e.as_str()),
        None => {
            proof {
                reveal_strlit("");
                assert(""@ =~= Seq::<char>::empty());
            }
            to_lowercase("")
        },
    }
}

/// The text extracted from `contents` for a file whose lower-cased extension is `ext`.
pub open spec fn extracted_text(ext: Seq<char>, contents: Seq<u8>) -> Seq<char> {
    if ext == "rtf"@ {
        rtf_text(utf8_lossy(contents))
    } else {
        utf8_lossy(contents)
    }
}

/// Extracts text from a plaintext (or RTF) file whose bytes are `contents`.
pub fn extract(path: &str, contents: &[u8]) -> (r: ExtractionResult)
    ensures
        r.text@ == extracted_text(lowercase_extension(path@), contents@),
        metadata_view(r.metadata@) == seq![
            ("extractor"@, "plaintext"@),
            ("extension"@, lowercase_extension(path@)),
        ],
{
    let ext = file_extension(path);
    let raw_text = decode_utf8_lossy(contents);
    let text = if same_text(ext.as_str(), "rtf") { strip_rtf(raw_text.as_str()) } else { raw_text };
    let mut metadata: Vec<(String, String)> = Vec::new();
    metadata.push((owned("extractor"), owned("plaintext")));
    metadata.push((owned("extension"), ext));
    assert(metadata_view(metadata@) =~= seq![
        ("extractor"@, "plaintext"@),
        ("extension"@, lowercase_extension(path@)),
    ]);
    ExtractionResult { text, metadata }
}

} // verus!
