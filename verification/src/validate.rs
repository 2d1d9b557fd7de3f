//! Root-directory validation: the decision that gates a search. A valid
//! root is an existing, readable directory that directly contains at least
//! one marker file (extension `.wproj`).
use vstd::prelude::*;
use vstd::string::*;
use crate::text::{ends_with_seq, ends_with_str};

verus! {

/// Why a root directory was rejected.
#[derive(Clone, Debug, PartialEq, Eq, Structural)]
pub enum ValidationError {
    NotADirectory,
    UnreadableDirectory,
    MissingMarkerFile,
}

/// A file name carrying the marker extension: it ends with `".wproj"` and
/// has at least one character in front of that suffix.
pub open spec fn is_marker_name(s: Seq<char>) -> bool {
    s.len() > ".wproj"@.len() && ends_with_seq(s, ".wproj"@)
}

/// Marker-extension check, the executable side of `is_marker_name`.
pub fn marker_name(name: &str) -> (r: bool)
    ensures
        r == is_marker_name(name@),
{
    proof {
        reveal_strlit(".wproj");
    }
    let len = name.unicode_len();
    len > 6 && ends_with_str(name, ".wproj")
}

/// Some name in the listing carries the marker extension.
pub open spec fn has_marker(names: Seq<Seq<char>>) -> bool {
    exists|i: int| 0 <= i < names.len() && is_marker_name(names[i])
}

/// Scan a directory listing for a marker file, the executable side of
/// `has_marker`.
pub fn has_marker_file(names: &Vec<String>) -> (r: bool)
    ensures
        r == has_marker(names.deep_view()),
{
    let n = names.len();
    let mut i: usize = 0;
    while i < n
        invariant
            n == names@.len(),
            i <= n,
            forall|k: int| 0 <= k < i ==> !is_marker_name(#[trigger] names.deep_view()[k]),
        decreases n - i,
    {
        proof {
            assert(names.deep_view()[i as int] == names@[i as int]@);
        }
        if marker_name(names[i].as_str()) {
            return true;
        }
        i += 1;
    }
    false
}

/// The validation verdict for a root directory, from what the file system
/// reports: whether the path is a directory, and the names of the plain
/// files directly inside it (`None` when the directory cannot be listed).
pub open spec fn validation_of(is_dir: bool, listing: Option<Seq<Seq<char>>>) -> Result<
    (),
    ValidationError,
> {
    if !is_dir {
        Result::Err(ValidationError::NotADirectory)
    } else {
        match listing {
            Option::None => Result::Err(ValidationError::UnreadableDirectory),
            Option::Some(names) => if has_marker(names) {
                Result::Ok(())
            } else {
                Result::Err(ValidationError::MissingMarkerFile)
            },
        }
    }
}

/// The value of an optional directory listing.
pub open spec fn listing_view(listing: &Option<Vec<String>>) -> Option<Seq<Seq<char>>> {
    match *listing {
        Option::Some(v) => Option::Some(v.deep_view()),
        Option::None => Option::None,
    }
}

/// Decide whether a root directory is valid. `is_dir` says whether the path
/// names an existing directory; `file_names` lists the plain files directly
/// inside it, or is `None` when the directory could not be read. Succeeds
/// exactly when the path is a readable directory holding a marker file.
pub fn is_path_valid(is_dir: bool, file_names: &Option<Vec<String>>) -> (r: Result<
    (),
    ValidationError,
>)
    ensures
        r == validation_of(is_dir, listing_view(file_names)),
{
    if !is_dir {
        return Result::Err(ValidationError::NotADirectory);
    }
    match file_names {
        Option::None => Result::Err(ValidationError::UnreadableDirectory),
        Option::Some(names) => {
            if has_marker_file(names) {
                Result::Ok(())
            } else {
                Result::Err(ValidationError::MissingMarkerFile)
            }
        },
    }
}

} // verus!
