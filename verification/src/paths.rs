//! File-system paths, held as strings, and the parts of them the library reads.
use vstd::prelude::*;

verus! {

/// What std's `Path::file_name` returns for the path `p`.
pub uninterp spec fn file_name_of(p: Seq<char>) -> Option<Seq<char>>;

/// What std's `Path::components` yields first for the path `p`.
pub uninterp spec fn first_component_of(p: Seq<char>) -> Option<Seq<char>>;

/// Index of the last `.` in `name`, if any.
pub open spec fn last_dot(name: Seq<char>) -> Option<int>
    decreases name.len(),
{
    if name.len() == 0 {
        None
    } else if name.last() == '.' {
        Some(name.len() - 1)
    } else {
        last_dot(name.drop_last())
    }
}

/// The extension of a file name, as std's `Path::extension` documents it:
/// none without an embedded `.`, none for a name that begins with its only
/// `.`, otherwise the part after the final `.`.
pub open spec fn extension_of_name(name: Seq<char>) -> Option<Seq<char>> {
    match last_dot(name) {
        None => None,
        Some(k) => if k == 0 { None } else { Some(name.subrange(k + 1, name.len() as int)) },
    }
}

/// The extension of the path `p`.
pub open spec fn extension_of(p: Seq<char>) -> Option<Seq<char>> {
    match file_name_of(p) {
        None => None,
        Some(name) => extension_of_name(name),
    }
}

/// std's `Path::file_name` on a path given as a string; the result is named.
#[verifier::external_body]
pub fn file_name(path: &str) -> (r: Option<String>)
    ensures
        match r {
            Some(n) => file_name_of(path@) == Some(n@),
            None => file_name_of(path@) is None,
        },
{
    std::path::Path::new(path).file_name().map(|n| n.to_string_lossy().into_owned())
}

/// std's `Path::extension` on a path given as a string. Its documentation
/// defines the extension from the file name; the contract states that
/// definition.
#[verifier::external_body]
pub fn extension(path: &str) -> (r: Option<String>)
    ensures
        match r {
            Some(e) => extension_of(path@) == Some(e@),
            None => extension_of(path@) is None,
        },
{
    std::path::Path::new(path).extension().map(|e| e.to_string_lossy().into_owned())
}

/// The first of std's `Path::components` of a path given as a string, as
/// text; the result is named.
#[verifier::external_body]
pub fn first_component(path: &str) -> (r: Option<String>)
    ensures
        match r {
            Some(c) => first_component_of(path@) == Some(c@),
            None => first_component_of(path@) is None,
        },
{
    std::path::Path::new(path).components().next().map(|c| c.as_os_str().to_string_lossy().into_owned())
}

} // verus!
