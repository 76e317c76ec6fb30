//! Asset identity: a key derived from a path string, and the path pieces
//! that loading needs.

use vstd::prelude::*;

verus! {

/// The identity of the asset at a path: what `DefaultHasher` gives for the
/// path string.
pub uninterp spec fn path_hash_of(path: Seq<char>) -> u64;

/// The directory part of a path, as `Path::parent` gives it.
pub uninterp spec fn parent_of(path: Seq<char>) -> Seq<char>;

/// The final component of a path, as `Path::file_name` gives it.
pub uninterp spec fn file_name_of(path: Seq<char>) -> Option<Seq<char>>;

/// Relies on `BuildHasher::hash_one` with the default hasher of std: the
/// result depends on the path string alone.
#[verifier::external_body]
pub(crate) fn hash_path(path: &str) -> (r: u64)
    ensures
        r == path_hash_of(path@),
{
    std::hash::BuildHasher::hash_one(
        &std::hash::BuildHasherDefault::<std::collections::hash_map::DefaultHasher>::default(),
        path,
    )
}

/// Relies on `Path::parent`: the directory that holds the path, or the empty
/// string where the path has none.
#[verifier::external_body]
pub(crate) fn parent_dir(path: &str) -> (r: String)
    ensures
        r@ == parent_of(path@),
{
    match std::path::Path::new(path).parent() {
        Some(p) => p.to_string_lossy().into_owned(),
        None => String::new(),
    }
}

/// Relies on `Path::file_name`: the last component of the path, if it has one.
#[verifier::external_body]
pub(crate) fn file_name(path: &str) -> (r: Option<String>)
    ensures
        r is Some <==> file_name_of(path@) is Some,
        r is Some ==> r->Some_0@ == file_name_of(path@)->Some_0,
{
    std::path::Path::new(path).file_name().map(|n| n.to_string_lossy().into_owned())
}

} // verus!
