//! File-system paths as text: their last component and their equality,
//! through `std::path`.
use vstd::prelude::*;

verus! {

/// The last component of a path, as `Path::file_name` gives it.
pub uninterp spec fn path_file_name(p: Seq<char>) -> Option<Seq<char>>;

/// Whether two paths are equal as `Path`s (component by component).
pub uninterp spec fn paths_equal(a: Seq<char>, b: Seq<char>) -> bool;

/// Calls `Path::file_name`: the last component of the path, or `None` for a
/// path that ends in `..` or is a root or empty; the contract names it
/// [`path_file_name`].
#[verifier::external_body]
pub(crate) fn file_name(p: &str) -> (r: Option<String>)
    ensures
        match r {
            Some(n) => path_file_name(p@) == Some(n@),
            None => path_file_name(p@) is None,
        },
{
    std::path::Path::new(p).file_name().map(|n| n.to_string_lossy().into_owned())
}

/// Calls `<Path as PartialEq>::eq`: whether the paths have the same
/// components; the contract names it [`paths_equal`], and states that a
/// path equals itself (`Path` is `Eq`).
#[verifier::external_body]
pub(crate) fn same_path(a: &str, b: &str) -> (r: bool)
    ensures
        r == paths_equal(a@, b@),
        a@ == b@ ==> r,
{
    std::path::Path::new(a) == std::path::Path::new(b)
}

/// The path `rel` (relative) pushed onto `base`, as `PathBuf::push` builds
/// it on Unix: a `/` is put between them unless `base` is empty or already
/// ends with one.
pub open spec fn pushed(base: Seq<char>, rel: Seq<char>) -> Seq<char> {
    if base.len() == 0 || base[base.len() - 1] == '/' {
        base + rel
    } else {
        base + seq!['/'] + rel
    }
}

/// Pushes the relative path `rel` onto `base`.
pub fn path_push(base: &str, rel: &str) -> (r: String)
    requires
        !(rel@.len() > 0 && rel@[0] == '/'),
    ensures
        r@ == pushed(base@, rel@),
{
    let b = crate::text::chars_of(base);
    let mut r = base.to_string();
    if b.len() > 0 && b[b.len() - 1] != '/' {
        crate::text::push_char(&mut r, '/');
    }
    crate::text::push_str(&mut r, rel);
    r
}

} // verus!
