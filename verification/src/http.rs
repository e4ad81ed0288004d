//! Plain HTTP requests: which file a request asks for, and the response
//! that carries it.

use vstd::prelude::*;
use vstd::slice::{slice_subrange, slice_to_vec};
use vstd::string::*;
use crate::json::{decimal, push_decimal};
use crate::scan::{
    ends_with, find, first_index, has_suffix, lemma_first_index_is_first, same_bytes,
};

verus! {

/// The path that a request names: the bytes between the first `GET ` and
/// the blank that follows it, with `/index.html` in place of `/`.
pub open spec fn spec_request_path(request: Seq<u8>) -> Option<Seq<u8>> {
    match first_index(request, "GET ".spec_bytes()) {
        None => None,
        Some(i) => {
            let rest = request.skip(i + "GET ".spec_bytes().len());
            match first_index(rest, " ".spec_bytes()) {
                None => None,
                Some(j) => if rest.take(j) == "/".spec_bytes() {
                    Some("/index.html".spec_bytes())
                } else {
                    Some(rest.take(j))
                },
            }
        },
    }
}

/// Whether a byte parts the segments of a path: a slash or a backslash.
pub open spec fn is_separator(b: u8) -> bool {
    b == 0x2F || b == 0x5C
}

/// Whether a segment that is exactly `..` begins at index `i` of `path`.
pub open spec fn parent_segment_at(path: Seq<u8>, i: int) -> bool {
    &&& 0 <= i
    &&& i + 2 <= path.len()
    &&& path[i] == 0x2E
    &&& path[i + 1] == 0x2E
    &&& (i == 0 || is_separator(path[i - 1]))
    &&& (i + 2 == path.len() || is_separator(path[i + 2]))
}

/// Whether a path names a place under the root directory: it begins with
/// a slash and none of its segments is `..`.
pub open spec fn safe_path(path: Seq<u8>) -> bool {
    &&& path.len() > 0
    &&& path[0] == 0x2F
    &&& forall|i: int| !parent_segment_at(path, i)
}

/// Whether a place lies under the root directory: it is the root followed
/// by a path that begins with a slash and never steps to a parent.
pub open spec fn under_root(place: Seq<u8>, static_dir: Seq<u8>) -> bool {
    &&& static_dir.len() <= place.len()
    &&& place.subrange(0, static_dir.len() as int) == static_dir
    &&& safe_path(place.subrange(static_dir.len() as int, place.len() as int))
}

/// The response to a request for a file that is not there.
pub open spec fn not_found_response() -> Seq<u8> {
    spec_error_response(404, "Not Found".spec_bytes())
}

/// The content type that goes with a path, by its extension.
pub open spec fn spec_content_type(path: Seq<u8>) -> Seq<u8> {
    if ends_with(path, ".html".spec_bytes()) {
        "text/html".spec_bytes()
    } else if ends_with(path, ".js".spec_bytes()) {
        "application/javascript".spec_bytes()
    } else if ends_with(path, ".css".spec_bytes()) {
        "text/css".spec_bytes()
    } else {
        "application/octet-stream".spec_bytes()
    }
}

/// The head of the response that carries a file of `len` bytes.
pub open spec fn spec_ok_header(content_type: Seq<u8>, len: nat) -> Seq<u8> {
    "HTTP/1.1 200 OK\r\nContent-Type: ".spec_bytes() + content_type
        + "\r\nContent-Length: ".spec_bytes() + decimal(len)
        + "\r\nConnection: close\r\n\r\n".spec_bytes()
}

/// The response that reports an error, without a body.
pub open spec fn spec_error_response(code: nat, message: Seq<u8>) -> Seq<u8> {
    "HTTP/1.1 ".spec_bytes() + decimal(code) + " ".spec_bytes() + message
        + "\r\nContent-Length: 0\r\nConnection: close\r\n\r\n".spec_bytes()
}

/// The whole response to a request for `path`: the file with its head
/// where the path stays under the root and the lookup found a file, else
/// 404 without a body.
pub open spec fn spec_file_response(path: Seq<u8>, content: Option<Seq<u8>>) -> Seq<u8> {
    match content {
        Some(body) => if safe_path(path) {
            spec_ok_header(spec_content_type(path), body.len()) + body
        } else {
            not_found_response()
        },
        None => not_found_response(),
    }
}

/// Returns the path that a request names, if it names one.
pub fn request_path(request: &[u8]) -> (r: Option<Vec<u8>>)
    ensures
        match spec_request_path(request@) {
            Some(path) => r matches Some(p) && p@ == path,
            None => r is None,
        },
{
    let method = "GET ".as_bytes();
    let i: usize = match find(request, method) {
        Some(i) => i,
        None => {
            return None;
        },
    };
    proof {
        lemma_first_index_is_first(request@, method@);
    }
    let total: usize = request.len();
    let start: usize = i + method.len();
    let rest = slice_subrange(request, start, total);
    assert(rest@ =~= request@.skip(start as int));
    let j: usize = match find(rest, " ".as_bytes()) {
        Some(j) => j,
        None => {
            return None;
        },
    };
    proof {
        lemma_first_index_is_first(rest@, " ".spec_bytes());
    }
    let path = slice_subrange(rest, 0, j);
    assert(path@ =~= rest@.take(j as int));
    if same_bytes(path, "/".as_bytes()) {
        Some(slice_to_vec("/index.html".as_bytes()))
    } else {
        Some(slice_to_vec(path))
    }
}

/// Tells whether a segment that is exactly `..` begins at index `i`.
fn parent_at(path: &[u8], i: usize) -> (b: bool)
    ensures
        b == parent_segment_at(path@, i as int),
{
    let n: usize = path.len();
    if n < 2 || i > n - 2 {
        return false;
    }
    if path[i] != 0x2E || path[i + 1] != 0x2E {
        return false;
    }
    if i > 0 && !(path[i - 1] == 0x2F || path[i - 1] == 0x5C) {
        return false;
    }
    if i + 2 < n && !(path[i + 2] == 0x2F || path[i + 2] == 0x5C) {
        return false;
    }
    true
}

/// Tells whether a path names a place under the root directory.
pub fn is_safe_path(path: &[u8]) -> (b: bool)
    ensures
        b == safe_path(path@),
{
    if path.len() == 0 || path[0] != 0x2F {
        return false;
    }
    let mut i: usize = 0;
    while i < path.len()
        invariant
            i <= path.len(),
            forall|j: int| 0 <= j < i ==> !parent_segment_at(path@, j),
        decreases path.len() - i,
    {
        if parent_at(path, i) {
            return false;
        }
        i = i + 1;
    }
    true
}

/// Returns the place of a requested file, the root directory followed by
/// the path, where that place lies under the root; for a path that does
/// not begin with a slash or that has a segment `..`, returns nothing.
pub fn file_path(static_dir: &[u8], path: &[u8]) -> (r: Option<Vec<u8>>)
    ensures
        safe_path(path@) ==> (r matches Some(place) && place@ == static_dir@ + path@),
        !safe_path(path@) ==> r is None,
        r matches Some(place) ==> under_root(place@, static_dir@),
{
    if !is_safe_path(path) {
        return None;
    }
    let mut place: Vec<u8> = slice_to_vec(static_dir);
    place.extend_from_slice(path);
    proof {
        let n = static_dir@.len() as int;
        assert(place@.subrange(0, n) =~= static_dir@);
        assert(place@.subrange(n, place@.len() as int) =~= path@);
    }
    Some(place)
}

/// Returns the content type that goes with a path.
pub fn content_type(path: &[u8]) -> (r: &'static str)
    ensures
        r.spec_bytes() == spec_content_type(path@),
{
    if has_suffix(path, ".html".as_bytes()) {
        "text/html"
    } else if has_suffix(path, ".js".as_bytes()) {
        "application/javascript"
    } else if has_suffix(path, ".css".as_bytes()) {
        "text/css"
    } else {
        "application/octet-stream"
    }
}

/// Returns the response that reports an error, without a body.
pub fn error_response(code: u16, message: &[u8]) -> (r: Vec<u8>)
    ensures
        r@ == spec_error_response(code as nat, message@),
{
    let mut r: Vec<u8> = slice_to_vec("HTTP/1.1 ".as_bytes());
    push_decimal(&mut r, code as u64);
    r.extend_from_slice(" ".as_bytes());
    r.extend_from_slice(message);
    r.extend_from_slice("\r\nContent-Length: 0\r\nConnection: close\r\n\r\n".as_bytes());
    r
}

/// Returns the whole response to a request for `path`, given what the
/// lookup of the file found. A path that leaves the root gets the 404
/// whatever was found.
pub fn file_response(path: &[u8], content: Option<&[u8]>) -> (r: Vec<u8>)
    ensures
        r@ == spec_file_response(
            path@,
            match content {
                Some(body) => Some(body@),
                None => None,
            },
        ),
{
    match content {
        Some(body) => {
            if !is_safe_path(path) {
                return error_response(404, "Not Found".as_bytes());
            }
            let mut r: Vec<u8> = slice_to_vec("HTTP/1.1 200 OK\r\nContent-Type: ".as_bytes());
            r.extend_from_slice(content_type(path).as_bytes());
            r.extend_from_slice("\r\nContent-Length: ".as_bytes());
            push_decimal(&mut r, body.len() as u64);
            r.extend_from_slice("\r\nConnection: close\r\n\r\n".as_bytes());
            r.extend_from_slice(body);
            r
        },
        None => error_response(404, "Not Found".as_bytes()),
    }
}

} // verus!
