//! File-system paths, held as text. How a path is joined, renamed or cut back to its folder is
//! `std::path`'s business; the library names each result and builds on the names.

use vstd::prelude::*;

verus! {

/// `Path::join`: `name` pushed onto `base`.
pub uninterp spec fn joined_path(base: Seq<char>, name: Seq<char>) -> Seq<char>;

/// `Path::with_file_name`: the path with its last component replaced by `name`.
pub uninterp spec fn renamed_path(path: Seq<char>, name: Seq<char>) -> Seq<char>;

/// `Path::parent`: the path without its last component, when it has one.
pub uninterp spec fn parent_path(path: Seq<char>) -> Option<Seq<char>>;

/// For each component `Path::components` reads out of a text, whether it is a plain name
/// (`Component::Normal`) rather than a root, a prefix, `.` or `..`.
pub uninterp spec fn component_is_name(path: Seq<char>) -> Seq<bool>;

/// A text that `Path` reads as one plain name on every platform: not empty, no separator, no
/// drive colon, and neither `.` nor `..`.
pub open spec fn is_plain_name(s: Seq<char>) -> bool {
    &&& s.len() > 0
    &&& !s.contains('/')
    &&& !s.contains('\\')
    &&& !s.contains(':')
    &&& s != "."@
    &&& s != ".."@
}

/// `Path::new(base).join(name)`, as text. Its documentation: `name` adjoined to `base`, so a
/// plain name becomes one more component after the base's.
#[verifier::external_body]
pub(crate) fn join(base: &str, name: &str) -> (p: String)
    ensures
        p@ == joined_path(base@, name@),
        is_plain_name(name@) ==> component_is_name(p@) == component_is_name(base@).push(true),
{
    std::path::Path::new(base).join(name).to_string_lossy().into_owned()
}

/// Whether a path ends in a file name: its last component is a plain name, which is when
/// `Path::file_name` gives one.
pub open spec fn ends_in_name(path: Seq<char>) -> bool {
    let c = component_is_name(path);
    c.len() > 0 && c.last()
}

/// `name` joined to the path's parent, when it has one.
pub open spec fn beside(path: Seq<char>, name: Seq<char>) -> Option<Seq<char>> {
    match parent_path(path) {
        Some(q) => Some(joined_path(q, name)),
        None => None,
    }
}

/// `Path::new(path).with_file_name(name)`, as text. Its documentation (through
/// `PathBuf::set_file_name`): where the path has a file name, this is `pop`, which cuts the path
/// back to its parent, followed by `push(name)`, which is what `join` does to that parent; and a
/// path with a file name has a parent (`Path::parent` has none only for a root, a prefix or the
/// empty path).
#[verifier::external_body]
pub(crate) fn with_file_name(path: &str, name: &str) -> (p: String)
    ensures
        p@ == renamed_path(path@, name@),
        ends_in_name(path@) ==> beside(path@, name@) == Some(p@),
{
    std::path::Path::new(path).with_file_name(name).to_string_lossy().into_owned()
}

/// `Path::new(path).parent()`, as text. Its documentation: there is none only for a path that
/// ends in a root or a prefix, or the empty one, so a path ending in a plain name has one.
#[verifier::external_body]
pub(crate) fn parent(path: &str) -> (p: Option<String>)
    ensures
        match p {
            Some(q) => parent_path(path@) == Some(q@),
            None => parent_path(path@) is None,
        },
        ends_in_name(path@) ==> p is Some,
{
    std::path::Path::new(path).parent().map(|q| q.to_string_lossy().into_owned())
}

/// `Path::new(path).components()`, each told apart as a plain name or not.
#[verifier::external_body]
pub(crate) fn components_are_names(path: &str) -> (v: Vec<bool>)
    ensures
        v@ == component_is_name(path@),
{
    std::path::Path::new(path)
        .components()
        .map(|c| match c {
            std::path::Component::Normal(_) => true,
            _ => false,
        })
        .collect()
}

/// The path with `suffix` appended to its last component's name, letter for letter.
pub fn with_suffix(path: &str, suffix: &str) -> (p: String)
    ensures
        p@ == path@ + suffix@,
{
    crate::text::concat(path, suffix)
}

/// The file next to `path` that carries `tag` as an extra extension: `<path>.<tag>`.
pub fn sibling(path: &str, tag: &str) -> (p: String)
    ensures
        p@ == path@ + seq!['.'] + tag@,
{
    let mut dot = String::new();
    dot.push('.');
    let dotted = crate::text::concat(dot.as_str(), tag);
    assert(dotted@ =~= seq!['.'] + tag@);
    let p = with_suffix(path, dotted.as_str());
    assert(p@ =~= path@ + seq!['.'] + tag@);
    p
}

} // verus!
