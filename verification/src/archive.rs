//! Names used for update archives and their entries.
use vstd::prelude::*;
use vstd::string::StrSliceExecFns;
use crate::models::{decimal, UpdateVersion};

verus! {

/// `dir/<version>.zip`: where the archive of an update version is kept.
pub open spec fn archive_path_text(dir: Seq<char>, version: u32) -> Seq<char> {
    dir + seq!['/'] + decimal(version as nat) + seq!['.', 'z', 'i', 'p']
}

/// The path of the archive for `version` inside `dir`.
pub fn archive_path(dir: &str, version: UpdateVersion) -> (path: String)
    ensures
        path@ == archive_path_text(dir@, version.0),
{
    proof {
        reveal_strlit("/");
        reveal_strlit(".zip");
    }
    let path = String::from_str(dir);
    let path = path.concat("/");
    let number = version.to_string();
    let path = path.concat(number.as_str());
    let path = path.concat(".zip");
    assert(path@ =~= archive_path_text(dir@, version.0));
    path
}

/// An archive entry names a directory when its name ends with `/` or `\`.
pub open spec fn names_directory(name: Seq<char>) -> bool {
    name.len() > 0 && (name.last() == '/' || name.last() == '\\')
}

/// Whether an archive entry of this name is a directory.
pub fn is_directory_entry(name: &str) -> (b: bool)
    ensures
        b == names_directory(name@),
{
    let n = name.unicode_len();
    if n == 0 {
        false
    } else {
        let last = name.get_char(n - 1);
        last == '/' || last == '\\'
    }
}

} // verus!
