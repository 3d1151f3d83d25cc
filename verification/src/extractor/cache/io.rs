//! Where a cache file is staged before it is renamed into place.
use vstd::prelude::*;

verus! {

/// The file name of `path`, as `std::path::Path::file_name` finds it: its last
/// component, unless that is `..` or there is none.
pub uninterp spec fn std_file_name(path: Seq<char>) -> Option<Seq<char>>;

/// `path` with its file name replaced by `name`, as `std::path::Path::with_file_name`
/// computes it.
pub uninterp spec fn std_with_file_name(path: Seq<char>, name: Seq<char>) -> Seq<char>;

/// std's `Path::file_name`, the result as text.
#[verifier::external_body]
fn file_name(path: &str) -> (r: Option<String>)
    ensures
        match std_file_name(path@) {
            Some(n) => r matches Some(s) && s@ == n,
            None => r is None,
        },
{
    match std::path::Path::new(path).file_name() {
        Some(n) => Some(n.to_string_lossy().into_owned()),
        None => None,
    }
}

/// std's `Path::with_file_name`, the result as text.
#[verifier::external_body]
fn with_file_name(path: &str, name: &str) -> (r: String)
    ensures
        r@ == std_with_file_name(path@, name@),
{
    std::path::Path::new(path).with_file_name(name).to_string_lossy().into_owned()
}

/// Where a JSON file is written before it is renamed over `path`: in the same
/// directory, under its file name with `.tmp` appended. A path without a file
/// name has none; the writer refuses it as an invalid path.
pub fn temp_path_for(path: &str) -> (r: Option<String>)
    ensures
        match std_file_name(path@) {
            Some(n) => r matches Some(t) && t@ == std_with_file_name(path@, n + ".tmp"@),
            None => r is None,
        },
{
    match file_name(path) {
        Some(name) => {
            let mut tmp_name = name;
            tmp_name.append(".tmp");
            Some(with_file_name(path, &tmp_name))
        },
        None => None,
    }
}

} // verus!
