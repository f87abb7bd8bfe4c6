//! Paths as the library handles them: UTF-8 strings, combined and taken apart
//! by std's `Path` operations. What these operations give depends on the
//! platform the library is built for (its separators and prefixes); the names
//! below stand for the operations of that one platform.
use vstd::prelude::*;

use std::path::{Component, Path};

verus! {

/// One component of a path, as `Path::components` yields it.
#[derive(Clone, Debug, PartialEq, Eq)]
pub enum PathComponent {
    Prefix,
    RootDir,
    CurDir,
    ParentDir,
    Normal(String),
}

/// The path that `Path::join` forms from `base` and `segment`.
pub uninterp spec fn path_join(base: Seq<char>, segment: Seq<char>) -> Seq<char>;

/// What `Path::strip_prefix` leaves of `path` after the leading components of
/// `base`, or `None` where `base` is not a component-wise prefix of `path`.
pub uninterp spec fn path_strip_prefix(path: Seq<char>, base: Seq<char>) -> Option<Seq<char>>;

/// The extension that `Path::extension` finds in `path`.
pub uninterp spec fn path_extension(path: Seq<char>) -> Option<Seq<char>>;

/// The final component that `Path::file_name` finds in `path`.
pub uninterp spec fn path_file_name(path: Seq<char>) -> Option<Seq<char>>;

/// The components that `Path::components` yields for `path`.
pub uninterp spec fn path_components(path: Seq<char>) -> Seq<PathComponent>;

/// `Path::new(base).join(segment)`: claimed only to equal `path_join` of the
/// same strings.
#[verifier::external_body]
pub fn join_path(base: &str, segment: &str) -> (res: String)
    ensures
        res@ == path_join(base@, segment@),
{
    Path::new(base).join(segment).to_string_lossy().into_owned()
}

/// `Path::new(path).strip_prefix(base)`: its result equals `path_strip_prefix`,
/// and, as std documents, it is a path that, when joined onto `base`, yields
/// `path` (paths compare component-wise).
#[verifier::external_body]
pub fn strip_path_prefix(path: &str, base: &str) -> (res: Option<String>)
    ensures
        res matches Some(r) ==> path_strip_prefix(path@, base@) == Some(r@),
        res matches Some(r) ==> path_components(path_join(base@, r@)) == path_components(path@),
        res is None ==> path_strip_prefix(path@, base@) is None,
{
    Path::new(path).strip_prefix(base).ok().map(|p| p.to_string_lossy().into_owned())
}

/// `Path::new(path).extension()`: claimed only to equal `path_extension`.
#[verifier::external_body]
pub fn extension_of(path: &str) -> (res: Option<String>)
    ensures
        res matches Some(r) ==> path_extension(path@) == Some(r@),
        res is None ==> path_extension(path@) is None,
{
    Path::new(path).extension().map(|e| e.to_string_lossy().into_owned())
}

/// `Path::new(path).file_name()`: claimed only to equal `path_file_name`.
#[verifier::external_body]
pub fn file_name_of(path: &str) -> (res: Option<String>)
    ensures
        res matches Some(r) ==> path_file_name(path@) == Some(r@),
        res is None ==> path_file_name(path@) is None,
{
    Path::new(path).file_name().map(|n| n.to_string_lossy().into_owned())
}

/// `Path::new(path).components()`, each component converted to `PathComponent`.
#[verifier::external_body]
pub fn components_of(path: &str) -> (res: Vec<PathComponent>)
    ensures
        res@ == path_components(path@),
{
    Path::new(path).components().map(|c| match c {
        Component::Prefix(_) => PathComponent::Prefix,
        Component::RootDir => PathComponent::RootDir,
        Component::CurDir => PathComponent::CurDir,
        Component::ParentDir => PathComponent::ParentDir,
        Component::Normal(v) => PathComponent::Normal(v.to_string_lossy().into_owned()),
    }).collect()
}

} // verus!
