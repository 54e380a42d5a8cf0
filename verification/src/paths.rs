//! File-system path arithmetic (std's `Path`), on paths held as strings.
//! These compute on the path text only; nothing here touches the disk.
//! Paths follow the Unix rules, the only platform the program is built for:
//! `/` separates components and starts an absolute path.

use vstd::prelude::*;
use crate::text::{chars_of, string_from_chars};

verus! {

/// What std's `Path::parent` returns for a path, as text.
pub uninterp spec fn parent_of(path: Seq<char>) -> Option<Seq<char>>;

/// Whether a path is absolute: on Unix, whether it starts with the root `/`.
pub open spec fn is_absolute_path(path: Seq<char>) -> bool {
    path.len() > 0 && path[0] == '/'
}

/// `rest` appended to `base`: `rest` alone when it is absolute, otherwise
/// `base`, a `/` unless `base` is empty or already ends with one, and `rest`.
pub open spec fn joined_path(base: Seq<char>, rest: Seq<char>) -> Seq<char> {
    if is_absolute_path(rest) {
        rest
    } else if base.len() == 0 || base.last() == '/' {
        base + rest
    } else {
        base + seq!['/'] + rest
    }
}

/// What std's `Path::file_name` returns for a path, as text.
pub uninterp spec fn file_name_of(path: Seq<char>) -> Option<Seq<char>>;

/// The directory holding `path` (std's `Path::parent`); `None` for a root
/// or an empty path. The contract names the result and says nothing more.
#[verifier::external_body]
pub(crate) fn path_parent(path: &str) -> (r: Option<String>)
    ensures
        match r {
            Some(p) => parent_of(path@) == Some(p@),
            None => parent_of(path@) is None,
        },
{
    std::path::Path::new(path).parent().map(|p| p.to_string_lossy().to_string())
}

/// Whether `path` is absolute: it starts with `/`.
pub(crate) fn path_is_absolute(path: &str) -> (r: bool)
    ensures
        r == is_absolute_path(path@),
{
    let cs = chars_of(path);
    cs.len() > 0 && cs[0] == '/'
}

/// `rest` appended to `base` as a path.
pub(crate) fn path_join(base: &str, rest: &str) -> (r: String)
    ensures
        r@ == joined_path(base@, rest@),
{
    if path_is_absolute(rest) {
        return rest.to_owned();
    }
    let mut out = chars_of(base);
    if out.len() > 0 && out[out.len() - 1] != '/' {
        out.push('/');
    }
    let tail = chars_of(rest);
    let ghost head = out@;
    for i in 0..tail.len()
        invariant
            out@ == head + tail@.take(i as int),
    {
        out.push(tail[i]);
        assert(head + tail@.take(i + 1) =~= (head + tail@.take(i as int)).push(tail@[i as int]));
    }
    assert(tail@.take(tail.len() as int) =~= tail@);
    assert(out@ =~= joined_path(base@, rest@));
    string_from_chars(&out)
}

/// The last component of `path` (std's `Path::file_name`), as text. The
/// contract names the result and says nothing more.
#[verifier::external_body]
pub(crate) fn path_file_name(path: &str) -> (r: Option<String>)
    ensures
        match r {
            Some(n) => file_name_of(path@) == Some(n@),
            None => file_name_of(path@) is None,
        },
{
    std::path::Path::new(path).file_name().map(|n| n.to_string_lossy().to_string())
}

} // verus!
