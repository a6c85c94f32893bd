use vstd::prelude::*;

use crate::text::{ends_with, starts_with};

verus! {

/// `path` without the slashes it begins with.
pub open spec fn trim_leading_slashes(path: Seq<char>) -> Seq<char>
    decreases path.len(),
{
    if path.len() > 0 && path[0] == '/' {
        trim_leading_slashes(path.drop_first())
    } else {
        path
    }
}

/// The embedded file served for a request path: the path without its
/// leading slashes, or the single page itself for the root and for paths
/// under "api/".
pub open spec fn asset_name(path: Seq<char>) -> Seq<char> {
    let name = trim_leading_slashes(path);
    if name.len() == 0 || "api/"@.is_prefix_of(name) {
        "index.html"@
    } else {
        name
    }
}

/// The content type sent with an embedded file, by its extension.
pub open spec fn content_type_of(name: Seq<char>) -> Seq<char> {
    if ".html"@.is_suffix_of(name) {
        "text/html; charset=utf-8"@
    } else if ".js"@.is_suffix_of(name) {
        "application/javascript"@
    } else if ".css"@.is_suffix_of(name) {
        "text/css"@
    } else if ".svg"@.is_suffix_of(name) {
        "image/svg+xml"@
    } else if ".png"@.is_suffix_of(name) {
        "image/png"@
    } else if ".ico"@.is_suffix_of(name) {
        "image/x-icon"@
    } else if ".json"@.is_suffix_of(name) {
        "application/json"@
    } else {
        "text/plain"@
    }
}

/// The embedded file to serve for the request path `path`.
pub fn embedded_file_name(path: &str) -> (name: String)
    ensures
        name@ == asset_name(path@),
{
    let len = path.unicode_len();
    let mut start: usize = 0;
    assert(path@.skip(0) =~= path@);
    while start < len && path.get_char(start) == '/'
        invariant
            len == path@.len(),
            start <= len,
            trim_leading_slashes(path@) == trim_leading_slashes(path@.skip(start as int)),
        decreases len - start,
    {
        assert(path@.skip(start as int).drop_first() =~= path@.skip(start + 1));
        start = start + 1;
    }
    let rest = path.substring_char(start, len);
    assert(rest@ =~= path@.skip(start as int));
    assert(trim_leading_slashes(rest@) == rest@);
    if rest.unicode_len() == 0 || starts_with(rest, "api/") {
        String::from_str("index.html")
    } else {
        String::from_str(rest)
    }
}

/// The content type of the embedded file `name`.
pub fn content_type(name: &str) -> (kind: &'static str)
    ensures
        kind@ == content_type_of(name@),
{
    if ends_with(name, ".html") {
        "text/html; charset=utf-8"
    } else if ends_with(name, ".js") {
        "application/javascript"
    } else if ends_with(name, ".css") {
        "text/css"
    } else if ends_with(name, ".svg") {
        "image/svg+xml"
    } else if ends_with(name, ".png") {
        "image/png"
    } else if ends_with(name, ".ico") {
        "image/x-icon"
    } else if ends_with(name, ".json") {
        "application/json"
    } else {
        "text/plain"
    }
}

} // verus!
