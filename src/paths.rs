//! Names and paths: the few std operations the planner relies on, each behind
//! one trusted wrapper whose result is named by a spec function.

use vstd::prelude::*;

verus! {

/// What `str::to_lowercase` returns for a text.
pub uninterp spec fn lower_of(s: Seq<char>) -> Seq<char>;

/// What `str::trim` returns for a text.
pub uninterp spec fn trimmed(s: Seq<char>) -> Seq<char>;

/// What `Path::file_stem` returns for a path.
pub uninterp spec fn stem_of(p: Seq<char>) -> Option<Seq<char>>;

/// What `Path::extension` returns for a path.
pub uninterp spec fn extension_of(p: Seq<char>) -> Option<Seq<char>>;

/// What `Path::parent` returns for a path.
pub uninterp spec fn parent_of(p: Seq<char>) -> Option<Seq<char>>;

/// Whether `Path` equality (component by component) holds of two paths.
pub uninterp spec fn path_eq(a: Seq<char>, b: Seq<char>) -> bool;

/// What `Path::file_name` returns for a path.
pub uninterp spec fn file_name_of(p: Seq<char>) -> Option<Seq<char>>;

/// What `Path::join` returns for a base and a name.
pub uninterp spec fn joined(base: Seq<char>, name: Seq<char>) -> Seq<char>;

/// The number of components that `Path::components` yields for a path.
pub uninterp spec fn depth_of(p: Seq<char>) -> nat;

/// Relies on `str::to_lowercase`: the result depends on the characters alone.
#[verifier::external_body]
pub(crate) fn lowercase(s: &str) -> (r: String)
    ensures
        r@ == lower_of(s@),
{
    s.to_lowercase()
}

/// Relies on `str::trim`: leading and trailing whitespace removed.
#[verifier::external_body]
fn trim(s: &str) -> (r: &str)
    ensures
        r@ == trimmed(s@),
{
    s.trim()
}

/// Relies on `Path::file_stem`: the file name without its final extension.
#[verifier::external_body]
fn file_stem(p: &str) -> (r: Option<String>)
    ensures
        r matches Some(t) ==> stem_of(p@) == Some(t@),
        r is None ==> stem_of(p@) is None,
{
    std::path::Path::new(p).file_stem().and_then(|s| s.to_str()).map(|s| s.to_string())
}

/// Relies on `Path::extension`: the text after the final dot of the file name.
#[verifier::external_body]
pub(crate) fn file_extension(p: &str) -> (r: Option<String>)
    ensures
        r matches Some(t) ==> extension_of(p@) == Some(t@),
        r is None ==> extension_of(p@) is None,
{
    std::path::Path::new(p).extension().and_then(|s| s.to_str()).map(|s| s.to_string())
}

/// Relies on `Path::file_name`: the final component, unless it is `..`.
#[verifier::external_body]
pub(crate) fn file_name(p: &str) -> (r: Option<String>)
    ensures
        r matches Some(t) ==> file_name_of(p@) == Some(t@),
        r is None ==> file_name_of(p@) is None,
{
    std::path::Path::new(p).file_name().and_then(|s| s.to_str()).map(|s| s.to_string())
}

/// Relies on `Path::parent`: the path without its final component.
#[verifier::external_body]
pub(crate) fn parent_path(p: &str) -> (r: Option<String>)
    ensures
        r matches Some(t) ==> parent_of(p@) == Some(t@),
        r is None ==> parent_of(p@) is None,
{
    std::path::Path::new(p).parent().and_then(|s| s.to_str()).map(|s| s.to_string())
}

/// Relies on `PartialEq for Path`, which compares components.
#[verifier::external_body]
pub(crate) fn same_path(a: &str, b: &str) -> (r: bool)
    ensures
        r == path_eq(a@, b@),
{
    std::path::Path::new(a) == std::path::Path::new(b)
}

/// Relies on `Path::join`: `name` appended to `base` with a separator.
#[verifier::external_body]
pub(crate) fn join_path(base: &str, name: &str) -> (r: String)
    ensures
        r@ == joined(base@, name@),
{
    std::path::Path::new(base).join(name).to_string_lossy().into_owned()
}

/// Relies on `Path::components`: how many components the path has.
#[verifier::external_body]
pub(crate) fn path_depth(p: &str) -> (r: usize)
    ensures
        r == depth_of(p@),
{
    std::path::Path::new(p).components().count()
}

/// The stem of a file name, or the name itself where it has none.
pub open spec fn stem_or_name(name: Seq<char>) -> Seq<char> {
    match stem_of(name) {
        Some(s) => s,
        None => name,
    }
}

/// A file name as the planner compares it: extension stripped, lower case, trimmed.
pub open spec fn normalized(name: Seq<char>) -> Seq<char> {
    trimmed(lower_of(stem_or_name(name)))
}

/// Normalizes a file name: strips the extension, lowercases and trims.
pub fn normalize_name(name: &str) -> (r: String)
    ensures
        r@ == normalized(name@),
{
    let lower = match file_stem(name) {
        Some(stem) => lowercase(stem.as_str()),
        None => lowercase(name),
    };
    String::from_str(trim(lower.as_str()))
}

/// The stem and the extension of a file name, each empty where it has none.
pub open spec fn stem_part(name: Seq<char>) -> Seq<char> {
    match stem_of(name) {
        Some(s) => s,
        None => Seq::empty(),
    }
}

pub open spec fn extension_part(name: Seq<char>) -> Seq<char> {
    match extension_of(name) {
        Some(s) => s,
        None => Seq::empty(),
    }
}

/// Stem of a file name, empty where it has none.
pub fn stem_text(name: &str) -> (r: String)
    ensures
        r@ == stem_part(name@),
{
    match file_stem(name) {
        Some(s) => s,
        None => String::new(),
    }
}

/// Extension of a file name, empty where it has none.
pub fn extension_text(name: &str) -> (r: String)
    ensures
        r@ == extension_part(name@),
{
    match file_extension(name) {
        Some(s) => s,
        None => String::new(),
    }
}

} // verus!
