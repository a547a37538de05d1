//! Which entries a directory scan descends into and which files it keeps.
use vstd::prelude::*;
use crate::paths::{extension, extension_of};
use crate::extractors::extractable;
use crate::extractors::plaintext::{lowercase_extension, plaintext_extension_list};
use crate::text::{all_ascii, ascii_lower, chars_of, lowercase, same_text, to_lowercase};
use crate::utils::supported_extension_list;

verus! {

/// Directories that are always skipped during scanning.
pub open spec fn skip_dir_list() -> Seq<Seq<char>> {
    seq![
        "$Recycle.Bin"@, "$RECYCLE.BIN"@, "node_modules"@, ".git"@, ".hg"@, ".svn"@,
        "Windows"@, "System32"@, "SysWOW64"@, "__pycache__"@, ".tox"@, ".venv"@, "venv"@,
        "target"@, "dist"@, "build"@, ".cache"@, ".npm"@, ".cargo"@,
    ]
}

/// Directories that are always skipped during scanning.
pub fn skip_dirs() -> (r: Vec<&'static str>)
    ensures
        r@.map_values(|d: &str| d@) == skip_dir_list(),
{
    let r = vec![
        "$Recycle.Bin", "$RECYCLE.BIN", "node_modules", ".git", ".hg", ".svn",
        "Windows", "System32", "SysWOW64", "__pycache__", ".tox", ".venv", "venv",
        "target", "dist", "build", ".cache", ".npm", ".cargo",
    ];
    assert(r@.map_values(|d: &str| d@) =~= skip_dir_list());
    r
}

/// The scan enters an entry: hidden entries below the root and well-known
/// junk directories are skipped.
pub open spec fn enters(name: Seq<char>, depth: nat, is_dir: bool) -> bool {
    !(depth > 0 && name.len() > 0 && name[0] == '.') && !(is_dir && skip_dir_list().contains(name))
}

/// Whether the scan enters the entry named `name` at `depth` (0 for the root).
pub fn should_enter(name: &str, depth: usize, is_dir: bool) -> (r: bool)
    ensures
        r == enters(name@, depth as nat, is_dir),
{
    let v = chars_of(name);
    if depth > 0 && v.len() > 0 && v[0] == '.' {
        return false;
    }
    if is_dir {
        let skips = skip_dirs();
        let ghost views = skips@.map_values(|d: &str| d@);
        let mut i: usize = 0;
        while i < skips.len()
            invariant
                i <= skips@.len(),
                views == skips@.map_values(|d: &str| d@),
                views == skip_dir_list(),
                is_dir,
                forall|j: int| 0 <= j < i ==> views[j] != name@,
            decreases skips@.len() - i,
        {
            if same_text(skips[i], name) {
                assert(views[i as int] == name@);
                assert(skip_dir_list().contains(name@));
                return false;
            }
            i = i + 1;
        }
    }
    true
}

/// The lower-cased extension the scan reads off a path, or the empty text.
pub open spec fn scan_extension(path: Seq<char>) -> Seq<char> {
    match extension_of(path) {
        Some(e) => lowercase(e),
        None => Seq::empty(),
    }
}

/// The scan keeps a regular file whose lower-cased extension is wanted.
pub open spec fn keeps(path: Seq<char>, is_file: bool, extensions: Seq<Seq<char>>) -> bool {
    is_file && extensions.contains(scan_extension(path))
}

/// Whether the scan keeps the entry at `path`.
pub fn wants_file(path: &str, is_file: bool, extensions: &Vec<String>) -> (r: bool)
    ensures
        r == keeps(path@, is_file, extensions@.map_values(|e: String| e@)),
{
    if !is_file {
        return false;
    }
    let ext = match extension(path) {
        Some(e) => to_lowercase(e.as_str()),
        None => String::new(),
    };
    let ghost views = extensions@.map_values(|e: String| e@);
    let mut i: usize = 0;
    while i < extensions.len()
        invariant
            i <= extensions@.len(),
            views == extensions@.map_values(|e: String| e@),
            is_file,
            ext@ == scan_extension(path@),
            forall|j: int| 0 <= j < i ==> views[j] != ext@,
        decreases extensions@.len() - i,
    {
        if same_text(extensions[i].as_str(), ext.as_str()) {
            assert(views[i as int] == ext@);
            assert(views.contains(ext@));
            return true;
        }
        i = i + 1;
    }
    false
}

} // verus!

verus! {

proof fn lemma_lower_ascii_fixed(x: Seq<char>)
    requires
        forall|i: int| 0 <= i < x.len() ==> (('a' <= #[trigger] x[i] && x[i] <= 'z') || ('0' <= x[i] && x[i] <= '9')),
    ensures
        lowercase(x) == x,
{
    assert(all_ascii(x));
    assert(ascii_lower(x) =~= x);
}

/// Law: every file a scan with the supported extensions keeps has an
/// extractor, so the indexer can extract text from it.
pub proof fn law_scanned_files_are_extractable(path: Seq<char>)
    requires
        keeps(path, true, supported_extension_list()),
    ensures
        extractable(path),
{
    let x = scan_extension(path);
    let list = supported_extension_list();
    let i = choose|i: int| 0 <= i < list.len() && list[i] == x;
    reveal_strlit("txt"); reveal_strlit("md"); reveal_strlit("csv"); reveal_strlit("json");
    reveal_strlit("xml"); reveal_strlit("yaml"); reveal_strlit("yml"); reveal_strlit("toml");
    reveal_strlit("py"); reveal_strlit("js"); reveal_strlit("ts"); reveal_strlit("html");
    reveal_strlit("css"); reveal_strlit("rs"); reveal_strlit("go"); reveal_strlit("java");
    reveal_strlit("c"); reveal_strlit("cpp"); reveal_strlit("h"); reveal_strlit("sh");
    reveal_strlit("bat"); reveal_strlit("ps1"); reveal_strlit("cfg"); reveal_strlit("ini");
    reveal_strlit("log"); reveal_strlit("rtf");
    assert(x.len() > 0);
    lemma_lower_ascii_fixed(x);
    match extension_of(path) {
        Some(e) => {
            assert(lowercase_extension(path) == x);
        },
        None => {
            assert(x == Seq::<char>::empty());
        },
    }
    if i < 25 {
        assert(plaintext_extension_list()[i] == x);
    }
}

} // verus!

verus! {

/// Law: below the root nothing hidden is entered, directory or file; the
/// well-known junk directories are never entered, at any depth; and every
/// other entry is entered, as is the root whatever its name.
pub proof fn law_scan_skips_hidden_and_junk(name: Seq<char>, depth: nat, is_dir: bool)
    ensures
        depth > 0 && name.len() > 0 && name[0] == '.' ==> !enters(name, depth, is_dir),
        is_dir && skip_dir_list().contains(name) ==> !enters(name, depth, is_dir),
        !(name.len() > 0 && name[0] == '.') && !(is_dir && skip_dir_list().contains(name)) ==> enters(name, depth, is_dir),
        depth == 0 && !(is_dir && skip_dir_list().contains(name)) ==> enters(name, depth, is_dir),
        !is_dir && !(depth > 0 && name.len() > 0 && name[0] == '.') ==> enters(name, depth, is_dir),
{
}

} // verus!

verus! {

/// Law: the recycle bins, version-control, dependency, build, cache and
/// system directories are never entered, at any depth.
pub proof fn law_junk_directories_are_skipped(name: Seq<char>, depth: nat)
    requires
        name == "$Recycle.Bin"@ || name == "$RECYCLE.BIN"@ || name == "node_modules"@ || name == ".git"@
            || name == ".hg"@ || name == ".svn"@ || name == "Windows"@ || name == "System32"@
            || name == "SysWOW64"@ || name == "__pycache__"@ || name == ".tox"@ || name == ".venv"@
            || name == "venv"@ || name == "target"@ || name == "dist"@ || name == "build"@
            || name == ".cache"@ || name == ".npm"@ || name == ".cargo"@,
    ensures
        !enters(name, depth, true),
{
    let l = skip_dir_list();
    if name == "$Recycle.Bin"@ { assert(l[0] == name); }
    else if name == "$RECYCLE.BIN"@ { assert(l[1] == name); }
    else if name == "node_modules"@ { assert(l[2] == name); }
    else if name == ".git"@ { assert(l[3] == name); }
    else if name == ".hg"@ { assert(l[4] == name); }
    else if name == ".svn"@ { assert(l[5] == name); }
    else if name == "Windows"@ { assert(l[6] == name); }
    else if name == "System32"@ { assert(l[7] == name); }
    else if name == "SysWOW64"@ { assert(l[8] == name); }
    else if name == "__pycache__"@ { assert(l[9] == name); }
    else if name == ".tox"@ { assert(l[10] == name); }
    else if name == ".venv"@ { assert(l[11] == name); }
    else if name == "venv"@ { assert(l[12] == name); }
    else if name == "target"@ { assert(l[13] == name); }
    else if name == "dist"@ { assert(l[14] == name); }
    else if name == "build"@ { assert(l[15] == name); }
    else if name == ".cache"@ { assert(l[16] == name); }
    else if name == ".npm"@ { assert(l[17] == name); }
    else { assert(l[18] == name); }
}

} // verus!
