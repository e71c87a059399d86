//! Filesystem paths as text. The path arithmetic itself is std's
//! (`std::path::Path`), which follows the platform's conventions (the
//! separator, roots and drive prefixes differ between Unix and Windows):
//! each operation here makes one std call, names its result, and states only
//! what std's documentation says of it on every platform.
use vstd::prelude::*;

verus! {

/// What std's `Path::is_absolute` says of a path.
pub uninterp spec fn is_absolute(p: Seq<char>) -> bool;

/// Whether a path is absolute (std `Path::is_absolute`): independent of the
/// current directory, by the platform's rules.
#[verifier::external_body]
pub(crate) fn path_is_absolute(p: &str) -> (r: bool)
    ensures
        r == is_absolute(p@),
{
    std::path::Path::new(p).is_absolute()
}

/// What std's `Path::join` returns for two paths.
pub uninterp spec fn joined(base: Seq<char>, rest: Seq<char>) -> Seq<char>;

/// Joins two paths with std's `Path::join`. The result is a function of the
/// two paths alone; how they are put together (the separator, and when
/// `rest` replaces `base`) follows the platform and is left to the name.
#[verifier::external_body]
pub(crate) fn path_join(base: &str, rest: &str) -> (r: String)
    ensures
        r@ == joined(base@, rest@),
{
    std::path::Path::new(base).join(rest).to_string_lossy().into_owned()
}

/// What std's `Path::parent` returns for a path.
pub uninterp spec fn parent_of(p: Seq<char>) -> Option<Seq<char>>;

/// The path without its final component, if it has one (std `Path::parent`).
/// As std documents, the empty path and the root have none, and a parent is
/// the path with its last component taken away, so it is shorter.
#[verifier::external_body]
pub(crate) fn path_parent(p: &str) -> (r: Option<String>)
    ensures
        r matches Some(q) ==> parent_of(p@) == Some(q@) && q@.len() < p@.len(),
        r is None ==> parent_of(p@) is None,
        p@.len() == 0 ==> r is None,
        p@ == seq!['/'] ==> r is None,
{
    std::path::Path::new(p).parent().map(|q| q.to_string_lossy().into_owned())
}

/// What std's `Path::extension` returns for a path.
pub uninterp spec fn extension_of(p: Seq<char>) -> Option<Seq<char>>;

/// The extension of the path's file name, without the dot (std
/// `Path::extension`); `None` where the file name has no extension.
#[verifier::external_body]
pub(crate) fn path_extension(p: &str) -> (r: Option<String>)
    ensures
        r matches Some(e) ==> extension_of(p@) == Some(e@),
        r is None ==> extension_of(p@) is None,
{
    std::path::Path::new(p).extension().map(|e| e.to_string_lossy().into_owned())
}

/// What std's `Path::with_extension` returns for a path and an extension.
pub uninterp spec fn with_extension_of(p: Seq<char>, ext: Seq<char>) -> Seq<char>;

/// The path with its file name's extension replaced (std `Path::with_extension`).
/// std panics when the extension holds a path separator, so `ext` holds
/// neither `/` nor `\` (a separator on Windows).
#[verifier::external_body]
pub(crate) fn path_with_extension(p: &str, ext: &str) -> (r: String)
    requires
        !ext@.contains('/'),
        !ext@.contains('\\'),
    ensures
        r@ == with_extension_of(p@, ext@),
{
    std::path::Path::new(p).with_extension(ext).to_string_lossy().into_owned()
}

/// Whether std counts two paths as the same path (`Path` equality, which
/// compares the paths' components: repeated separators, a trailing separator
/// and `.` components other than a leading one make no difference).
pub uninterp spec fn same_path(a: Seq<char>, b: Seq<char>) -> bool;

/// Two texts that name one path: equal texts, or paths std counts as equal.
pub open spec fn names_same_path(a: Seq<char>, b: Seq<char>) -> bool {
    a == b || same_path(a, b)
}

/// Whether two paths are the same path as std compares them (`Path`'s
/// `PartialEq`). `Path` is `Eq`, so a path equals itself and the comparison is
/// symmetric.
#[verifier::external_body]
pub(crate) fn path_eq(a: &str, b: &str) -> (r: bool)
    ensures
        r == same_path(a@, b@),
        r == same_path(b@, a@),
        a@ == b@ ==> r,
{
    std::path::Path::new(a) == std::path::Path::new(b)
}

} // verus!
