//! File URIs, as the client names files.
use vstd::prelude::*;
use vstd::string::*;
use crate::paths::is_absolute;
use crate::text::opt_string;

verus! {

/// The local path that a URI names, if it names one.
pub uninterp spec fn uri_file_path(uri: Seq<char>) -> Option<Seq<char>>;

/// The `file:` URI of a path.
pub uninterp spec fn file_uri_of(path: Seq<char>) -> Option<Seq<char>>;

/// Relies on `url::Url::parse` followed by `Url::to_file_path`: the path named by a
/// URI, or nothing when the text is not a URI or names no local file.
#[verifier::external_body]
fn file_path_of_uri(uri: &str) -> (r: Option<String>)
    ensures
        opt_string(r) == uri_file_path(uri@),
{
    match url::Url::parse(uri) {
        Ok(u) => match u.to_file_path() {
            Ok(p) => Some(p.to_string_lossy().into_owned()),
            Err(_) => None,
        },
        Err(_) => None,
    }
}

/// Relies on `url::Url::from_file_path`: the `file:` URI of a path, which exists
/// only for an absolute path.
#[verifier::external_body]
fn uri_of_file_path(path: &str) -> (r: Option<String>)
    ensures
        opt_string(r) == file_uri_of(path@),
        !is_absolute(path@) ==> r is None,
{
    match url::Url::from_file_path(path) {
        Ok(u) => Some(u.to_string()),
        Err(_) => None,
    }
}

/// The path that a client's file URI names.
pub fn uri_to_path(uri: &str) -> (r: Option<String>)
    ensures
        opt_string(r) == uri_file_path(uri@),
{
    file_path_of_uri(uri)
}

/// The URI under which a file's diagnostics are published.
pub fn path_to_uri(path: &str) -> (r: Option<String>)
    ensures
        opt_string(r) == file_uri_of(path@),
        !is_absolute(path@) ==> r is None,
{
    uri_of_file_path(path)
}

/// A file named in a project request: the path of the URI when it is a file URI,
/// else the text itself taken as a path.
pub fn requested_file(raw: &str) -> (r: String)
    ensures
        r@ == match uri_file_path(raw@) {
            Some(p) => p,
            None => raw@,
        },
{
    match file_path_of_uri(raw) {
        Some(p) => p,
        None => String::from_str(raw),
    }
}

} // verus!
