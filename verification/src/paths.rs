//! Paths as plain strings: joining components, and the file-name parts that
//! std's `Path` reports.
use vstd::prelude::*;

use crate::text::{chars_of, extend_chars, string_of};

verus! {

/// `base` extended by the component `comp`, as std's `PathBuf::push` does on
/// Unix: an absolute `comp` replaces `base`; otherwise a `/` is put between
/// them unless `base` is empty or already ends with one.
pub open spec fn path_join(base: Seq<char>, comp: Seq<char>) -> Seq<char> {
    if comp.len() > 0 && comp[0] == '/' {
        comp
    } else if base.len() == 0 || base.last() == '/' {
        base + comp
    } else {
        base + seq!['/'] + comp
    }
}

/// The optional text of an optional string.
pub open spec fn opt_view(o: Option<String>) -> Option<Seq<char>> {
    match o {
        Some(s) => Some(s@),
        None => None,
    }
}

/// Joins a path component onto a base path.
pub fn join(base: &str, comp: &str) -> (r: String)
    ensures
        r@ == path_join(base@, comp@),
{
    let b = chars_of(base);
    let c = chars_of(comp);
    if c.len() > 0 && c[0] == '/' {
        string_of(&c)
    } else if b.len() == 0 || b[b.len() - 1] == '/' {
        let mut r = b;
        extend_chars(&mut r, &c);
        string_of(&r)
    } else {
        let mut r = b;
        r.push('/');
        extend_chars(&mut r, &c);
        string_of(&r)
    }
}

/// What std's `Path::file_stem` reports for a path: its file name without the
/// final extension.
pub uninterp spec fn path_file_stem(path: Seq<char>) -> Option<Seq<char>>;

/// What std's `Path::extension` reports for a path: the part of its file name
/// after the final `.`, if there is one.
pub uninterp spec fn path_extension(path: Seq<char>) -> Option<Seq<char>>;

/// What std's `Path::parent` reports for a path: the path without its final
/// component, if it has one.
pub uninterp spec fn path_parent(path: Seq<char>) -> Option<Seq<char>>;

/// The file stem of a path (std `Path::file_stem`); the result is exactly
/// `path_file_stem` of the path. A path given as `&str` is valid UTF-8, so
/// every part of it converts back to a string.
#[verifier::external_body]
pub(crate) fn file_stem(path: &str) -> (r: Option<String>)
    ensures
        opt_view(r) == path_file_stem(path@),
{
    std::path::Path::new(path).file_stem().and_then(|s| s.to_str()).map(|s| s.to_string())
}

/// The extension of a path (std `Path::extension`); the result is exactly
/// `path_extension` of the path.
#[verifier::external_body]
pub(crate) fn extension(path: &str) -> (r: Option<String>)
    ensures
        opt_view(r) == path_extension(path@),
{
    std::path::Path::new(path).extension().and_then(|s| s.to_str()).map(|s| s.to_string())
}

/// The parent of a path (std `Path::parent`); the result is exactly
/// `path_parent` of the path.
#[verifier::external_body]
pub(crate) fn parent(path: &str) -> (r: Option<String>)
    ensures
        opt_view(r) == path_parent(path@),
{
    std::path::Path::new(path).parent().and_then(|p| p.to_str()).map(|s| s.to_string())
}

} // verus!
