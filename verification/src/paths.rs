//! Host filesystem paths, through `std::path::Path`.

use vstd::prelude::*;

verus! {

/// `Path::new(base).join(name)` as text. How the two are put together
/// depends on the platform's path syntax (this crate targets Unix).
pub uninterp spec fn joined_path(base: Seq<char>, name: Seq<char>) -> Seq<char>;

/// `Path::new(p).components()`, each component by its kind.
pub uninterp spec fn path_components(p: Seq<char>) -> Seq<PathPart>;

/// `Path::new(p).starts_with(base)`: a component-wise prefix test, so it
/// depends on how the platform splits paths into components.
pub uninterp spec fn path_starts_with(p: Seq<char>, base: Seq<char>) -> bool;

/// Kind of one path component.
#[derive(Clone, Copy, Debug, PartialEq, Eq, Structural)]
pub enum PathPart {
    Prefix,
    RootDir,
    CurDir,
    ParentDir,
    Normal,
}

/// `Path::new(base).join(name)`, as a string.
///
/// Claims that the result is a function of the two arguments and, as the
/// documentation of `PathBuf::push` says, that an absolute name (on Unix,
/// one starting with `/`) replaces the base. How a relative name is
/// appended is left unstated: the documentation only says it extends the
/// path.
#[verifier::external_body]
pub(crate) fn join_path(base: &str, name: &str) -> (r: String)
    ensures
        r@ == joined_path(base@, name@),
        name@.len() > 0 && name@[0] == '/' ==> r@ == name@,
{
    std::path::Path::new(base).join(name).to_string_lossy().into_owned()
}

/// The kinds of the components `Path::components` yields.
///
/// Claims only that the result is a function of the argument.
#[verifier::external_body]
pub(crate) fn component_kinds(p: &str) -> (r: Vec<PathPart>)
    ensures
        r@ == path_components(p@),
{
    std::path::Path::new(p).components().map(|c| match c {
        std::path::Component::Prefix(_) => PathPart::Prefix,
        std::path::Component::RootDir => PathPart::RootDir,
        std::path::Component::CurDir => PathPart::CurDir,
        std::path::Component::ParentDir => PathPart::ParentDir,
        std::path::Component::Normal(_) => PathPart::Normal,
    }).collect()
}

/// `Path::new(p).starts_with(base)`: whether `base` is a component-wise
/// prefix of `p`.
///
/// Claims only that the result is a function of the two arguments.
#[verifier::external_body]
pub(crate) fn starts_with_path(p: &str, base: &str) -> (r: bool)
    ensures
        r == path_starts_with(p@, base@),
{
    std::path::Path::new(p).starts_with(base)
}

} // verus!
