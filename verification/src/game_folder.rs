use vstd::prelude::*;

verus! {

/// True when some entry of `names` equals `name`.
pub open spec fn seq_contains_str(names: Seq<String>, name: Seq<char>) -> bool {
    exists|i: int| 0 <= i < names.len() && names[i]@ == name
}

/// Linear scan for `name` among `names`.
pub fn contains_name(names: &Vec<String>, name: &str) -> (r: bool)
    ensures
        r == seq_contains_str(names@, name@),
{
    let target: String = name.to_owned();
    let mut i: usize = 0;
    while i < names.len()
        invariant
            i <= names.len(),
            target@ == name@,
            forall|j: int| 0 <= j < i ==> names@[j]@ != name@,
        decreases names.len() - i,
    {
        if names[i] == target {
            return true;
        }
        i = i + 1;
    }
    false
}

/// What a candidate installation folder must hold before it is accepted:
/// four well-known files and two well-known subdirectories.
pub open spec fn spec_folder_contains_game(files: Seq<String>, subfolders: Seq<String>) -> bool {
    &&& seq_contains_str(files, "launcher.exe"@)
    &&& seq_contains_str(files, "char.vromfs.bin"@)
    &&& seq_contains_str(files, "gaijin_downloader.exe"@)
    &&& seq_contains_str(files, "config.blk"@)
    &&& seq_contains_str(subfolders, "content"@)
    &&& seq_contains_str(subfolders, "win32"@)
}

/// Decides whether a folder looks like a game installation.
/// `files` holds the names of the entries that exist in the folder and
/// `subfolders` the names of those entries that are directories.
pub fn check_folder_contains_game(files: &Vec<String>, subfolders: &Vec<String>) -> (r: bool)
    ensures
        r == spec_folder_contains_game(files@, subfolders@),
{
    if !contains_name(files, "launcher.exe") {
        return false;
    }
    if !contains_name(files, "char.vromfs.bin") {
        return false;
    }
    if !contains_name(files, "gaijin_downloader.exe") {
        return false;
    }
    if !contains_name(files, "config.blk") {
        return false;
    }
    if !contains_name(subfolders, "content") {
        return false;
    }
    if !contains_name(subfolders, "win32") {
        return false;
    }
    true
}

} // verus!
