use vstd::prelude::*;

use crate::text::lacks_char;

verus! {

/// The extension of the last component of a path, as `Path::extension`
/// followed by `OsStr::to_str` gives it.
pub uninterp spec fn path_extension(p: Seq<char>) -> Option<Seq<char>>;

/// Whether `Path::is_absolute` holds of the path.
pub uninterp spec fn path_is_absolute(p: Seq<char>) -> bool;

/// The path that `Path::join` makes of `base` and `p`.
pub uninterp spec fn path_join(base: Seq<char>, p: Seq<char>) -> Seq<char>;

/// The path that `Path::parent` returns, if any.
pub uninterp spec fn path_parent(p: Seq<char>) -> Option<Seq<char>>;

/// A path of one plain component: not empty, not `.` or `..`, and holding no
/// `/`, `\` or `:`, so that it is its own file name on every platform.
pub open spec fn is_plain_file_name(p: Seq<char>) -> bool {
    &&& p.len() > 0
    &&& p != "."@
    &&& p != ".."@
    &&& lacks_char(p, '/')
    &&& lacks_char(p, '\\')
    &&& lacks_char(p, ':')
}

/// `p` is a plain file name whose final dot is at `k`, after its first character.
pub open spec fn final_dot_at(p: Seq<char>, k: int) -> bool {
    &&& is_plain_file_name(p)
    &&& 0 < k < p.len()
    &&& p[k] == '.'
    &&& lacks_char(p.skip(k + 1), '.')
}

/// Where `p` is a plain file name with a final dot after its first
/// character, `ext` is the text after that dot.
pub open spec fn extension_after_final_dot(p: Seq<char>, ext: Option<Seq<char>>) -> bool {
    forall|k: int| #[trigger] final_dot_at(p, k) ==> ext == Some(p.skip(k + 1))
}

/// The extension of the path's file name, without the dot.
///
/// Calls `Path::extension` and `OsStr::to_str`; on a path given as UTF-8
/// text the extension is UTF-8 as well. The result is named; what the
/// documentation of `Path::extension` says of a file name with a dot that is
/// not its first character is stated: the extension is the text after the
/// final dot. Paths of more than one component are left to the name.
#[verifier::external_body]
pub(crate) fn extension_of(path: &str) -> (r: Option<String>)
    ensures
        r is Some <==> path_extension(path@) is Some,
        r matches Some(e) ==> path_extension(path@) == Some(e@),
        extension_after_final_dot(
            path@,
            match r {
                Some(e) => Some(e@),
                None => None,
            },
        ),
{
    std::path::Path::new(path).extension().and_then(|e| e.to_str()).map(|e| e.to_string())
}

/// Whether the path is absolute.
///
/// Calls `Path::is_absolute`; the result is named, not written out.
#[verifier::external_body]
pub(crate) fn is_absolute(path: &str) -> (r: bool)
    ensures
        r == path_is_absolute(path@),
{
    std::path::Path::new(path).is_absolute()
}

/// Joins `p` onto `base`.
///
/// Calls `Path::join`. Its documentation says that an absolute `p` replaces
/// the base, and that a relative `p` is adjoined to the base: a plain file
/// name `p` becomes the final component, the file name, whose extension
/// `Path::extension` reads. So where `p` has a final dot after its first
/// character, the joined path's extension is the text after that dot. Beyond
/// that the result is named, not written out.
#[verifier::external_body]
pub(crate) fn join(base: &str, p: &str) -> (r: String)
    ensures
        r@ == path_join(base@, p@),
        path_is_absolute(p@) ==> r@ == p@,
        is_plain_file_name(p@) ==> extension_after_final_dot(p@, path_extension(r@)),
{
    std::path::Path::new(base).join(p).to_string_lossy().into_owned()
}

/// The path without its final component, if it has one.
///
/// Calls `Path::parent`; the result is named, not written out.
#[verifier::external_body]
pub(crate) fn parent_of(path: &str) -> (r: Option<String>)
    ensures
        r is Some <==> path_parent(path@) is Some,
        r matches Some(q) ==> path_parent(path@) == Some(q@),
{
    std::path::Path::new(path).parent().map(|q| q.to_string_lossy().into_owned())
}

} // verus!
