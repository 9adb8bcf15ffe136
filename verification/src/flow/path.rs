//! Paths of the host, which is a Unix system, as text.

use crate::text;
use vstd::prelude::*;
use vstd::string::{StrSliceExecFns, StringExecFns};

verus! {

/// Whether a path starts at the root.
pub open spec fn is_absolute_path(path: Seq<char>) -> bool {
    path.len() > 0 && path[0] == '/'
}

/// A path taken from another: an absolute one stays as it is, and a relative one
/// goes behind the other.
pub open spec fn joined(base: Seq<char>, path: Seq<char>) -> Seq<char> {
    if is_absolute_path(path) {
        path
    } else if base.len() == 0 || base.last() == '/' {
        base + path
    } else {
        base + "/"@ + path
    }
}

pub fn is_absolute(path: &str) -> (r: bool)
    ensures
        r == is_absolute_path(path@),
{
    path.unicode_len() > 0 && path.get_char(0) == '/'
}

pub fn join(base: &str, path: &str) -> (r: String)
    ensures
        r@ == joined(base@, path@),
{
    if is_absolute(path) {
        return String::from_str(path);
    }
    let len: usize = base.unicode_len();
    let r = String::from_str(base);
    if len == 0 || base.get_char(len - 1) == '/' {
        r.concat(path)
    } else {
        r.concat("/").concat(path)
    }
}

/// The path that `std::path::Path::parent` gives.
pub uninterp spec fn path_parent(path: Seq<char>) -> Option<Seq<char>>;

/// The name that `std::path::Path::file_name` gives.
pub uninterp spec fn path_file_name(path: Seq<char>) -> Option<Seq<char>>;

/// Calls `std::path::Path::parent`: the path without its final component, if
/// there is one. On the hosts that the plans are for, where `/` separates the
/// components, the path alone decides.
#[verifier::external_body]
pub(crate) fn parent(path: &str) -> (parent: Option<String>)
    ensures
        text::opt_view(parent) == path_parent(path@),
{
    std::path::Path::new(path).parent().map(|parent| parent.to_string_lossy().into_owned())
}

/// Calls `std::path::Path::file_name`: the final component of the path, if there
/// is one. On the hosts that the plans are for, where `/` separates the
/// components, the path alone decides.
#[verifier::external_body]
pub(crate) fn file_name(path: &str) -> (name: Option<String>)
    ensures
        text::opt_view(name) == path_file_name(path@),
{
    std::path::Path::new(path).file_name().map(|name| name.to_string_lossy().into_owned())
}

/// Joining two names one after the other gives the path that joining them to each
/// other first gives.
pub proof fn joining_is_associative(base: Seq<char>, first: Seq<char>, second: Seq<char>)
    requires
        first.len() > 0,
        first.last() != '/',
        !is_absolute_path(second),
    ensures
        joined(joined(base, first), second) == joined(base, first + "/"@ + second),
{
    reveal_strlit("/");
    assert(joined(base, first).last() == first.last());
    if !is_absolute_path(first) && base.len() > 0 && base.last() != '/' {
        assert(base + "/"@ + first + "/"@ + second =~= base + "/"@ + (first + "/"@ + second));
    } else if !is_absolute_path(first) {
        assert(base + first + "/"@ + second =~= base + (first + "/"@ + second));
    }
}

/// Three names joined one after the other, or all at once.
pub proof fn lemma_joined_three(base: Seq<char>, a: Seq<char>, b: Seq<char>, c: Seq<char>)
    requires
        a.len() > 0,
        b.len() > 0,
        a.last() != '/',
        b.last() != '/',
        !is_absolute_path(b),
        !is_absolute_path(c),
    ensures
        joined(joined(joined(base, a), b), c) == joined(
            base,
            a + "/"@ + b + "/"@ + c,
        ),
{
    joining_is_associative(base, a, b);
    assert((a + "/"@ + b).last() == b.last());
    joining_is_associative(base, a + "/"@ + b, c);
}

/// Four names joined one after the other, or all at once.
pub proof fn lemma_joined_four(
    base: Seq<char>,
    a: Seq<char>,
    b: Seq<char>,
    c: Seq<char>,
    d: Seq<char>,
)
    requires
        a.len() > 0,
        b.len() > 0,
        c.len() > 0,
        a.last() != '/',
        b.last() != '/',
        c.last() != '/',
        !is_absolute_path(b),
        !is_absolute_path(c),
        !is_absolute_path(d),
    ensures
        joined(joined(joined(joined(base, a), b), c), d) == joined(
            base,
            a + "/"@ + b + "/"@ + c + "/"@ + d,
        ),
{
    lemma_joined_three(base, a, b, c);
    assert((a + "/"@ + b + "/"@ + c).last() == c.last());
    joining_is_associative(base, a + "/"@ + b + "/"@ + c, d);
}

/// What is joined to an absolute path is absolute.
pub proof fn joined_to_absolute_is_absolute(base: Seq<char>, path: Seq<char>)
    requires
        is_absolute_path(base),
    ensures
        is_absolute_path(joined(base, path)),
{
}

} // verus!
