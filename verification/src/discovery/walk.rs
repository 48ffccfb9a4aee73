//! Which files and directories discovery looks at, and path helpers.
use vstd::prelude::*;
use crate::discovery::json::same_text;
use crate::text::chars_of;

verus! {

pub open spec fn ends_with(s: Seq<char>, suffix: Seq<char>) -> bool {
    s.len() >= suffix.len() && s.skip(s.len() - suffix.len()) == suffix
}

/// File names taken for justfiles.
pub open spec fn justfile_name(name: Seq<char>) -> bool {
    name == "justfile"@ || name == "Justfile"@ || name == ".justfile"@ || ends_with(name, ".just"@)
}

/// Directory names the walk never enters.
pub open spec fn ignored_dir_name(name: Seq<char>) -> bool {
    name == "node_modules"@ || name == "target"@ || name == "dist"@ || name == ".git"@
}

/// Whether `s` ends with `suffix`.
pub fn text_ends_with(s: &str, suffix: &str) -> (r: bool)
    ensures
        r == ends_with(s@, suffix@),
{
    let a = chars_of(s);
    let b = chars_of(suffix);
    if a.len() < b.len() {
        return false;
    }
    let off = a.len() - b.len();
    let mut i: usize = 0;
    while i < b.len()
        invariant
            i <= b.len(),
            a.len() == off + b.len(),
            a@ == s@,
            b@ == suffix@,
            forall|k: int| 0 <= k < i ==> a@[off + k] == b@[k],
        decreases b.len() - i,
    {
        if a[off + i] != b[i] {
            assert(s@.skip(off as int)[i as int] != suffix@[i as int]);
            return false;
        }
        i = i + 1;
    }
    assert(s@.skip(off as int) =~= suffix@);
    true
}

/// Whether a file of this name is a justfile: `justfile`, `Justfile`,
/// `.justfile` or any `*.just`.
pub fn is_justfile_name(name: &str) -> (r: bool)
    ensures
        r == justfile_name(name@),
{
    same_text(name, "justfile") || same_text(name, "Justfile") || same_text(name, ".justfile")
        || text_ends_with(name, ".just")
}

/// Whether the walk skips a directory (or file) of this name.
pub fn is_ignored_dir_name(name: &str) -> (r: bool)
    ensures
        r == ignored_dir_name(name@),
{
    same_text(name, "node_modules") || same_text(name, "target") || same_text(name, "dist")
        || same_text(name, ".git")
}

/// The pieces of a path between its `/`s, empty pieces included.
pub open spec fn path_segments(p: Seq<char>) -> Seq<Seq<char>>
    decreases p.len(),
{
    if p.len() == 0 {
        seq![Seq::empty()]
    } else {
        let r = path_segments(p.drop_last());
        if p.last() == '/' {
            r.push(Seq::empty())
        } else {
            r.update(r.len() - 1, r.last().push(p.last()))
        }
    }
}

/// The pieces that name something: not empty and not `.` (`..` is kept).
pub open spec fn named_segments(p: Seq<char>) -> Seq<Seq<char>> {
    path_segments(p).filter(|s: Seq<char>| s.len() > 0 && s != "."@)
}

/// Pieces joined with `/`.
pub open spec fn join_segments(ss: Seq<Seq<char>>) -> Seq<char>
    decreases ss.len(),
{
    if ss.len() == 0 {
        Seq::empty()
    } else if ss.len() == 1 {
        ss[0]
    } else {
        join_segments(ss.drop_last()) + "/"@ + ss.last()
    }
}

/// A path as POSIX resolution reads it: its named pieces joined with single
/// `/`s, `.` pieces dropped, and a trailing `/` kept.
pub open spec fn normal_form(p: Seq<char>) -> Seq<char> {
    let k = named_segments(p);
    join_segments(k) + if k.len() > 0 && p.last() == '/' { "/"@ } else { Seq::empty() }
}

/// `p` starts with exactly two `/`, which POSIX leaves to the system.
pub open spec fn two_slash_start(p: Seq<char>) -> bool {
    p.len() >= 2 && p[0] == '/' && p[1] == '/' && !(p.len() >= 3 && p[2] == '/')
}

/// What `std::path::absolute` gives for `p` on a POSIX system, whatever the
/// working directory: an absolute path; for an absolute `p` (not starting
/// with exactly two `/`), `p` in normal form; for a relative `p`, a path
/// ending with `/` and `p` in normal form.
pub open spec fn absolute_form(p: Seq<char>, a: Seq<char>) -> bool {
    &&& a.len() > 0 && a[0] == '/'
    &&& (p.len() > 0 && p[0] == '/' && !two_slash_start(p)) ==> a == "/"@ + normal_form(p)
    &&& (p.len() > 0 && p[0] != '/' && normal_form(p).len() > 0) ==> {
        &&& a.len() > normal_form(p).len()
        &&& a.skip(a.len() - normal_form(p).len() - 1) == "/"@ + normal_form(p)
    }
}

/// `std::path::absolute` on a path given as text (POSIX): by its
/// documentation the path is resolved with POSIX semantics against the
/// current directory without touching the file system, keeping `..` and a
/// trailing `/`. On failure (an empty path, no current directory) the path
/// itself comes back. The current directory is not named: only what holds
/// for every one is claimed.
#[verifier::external_body]
pub fn absolutize(path: &String) -> (r: String)
    ensures
        r@ == path@ || absolute_form(path@, r@),
{
    match std::path::absolute(std::path::Path::new(path.as_str())) {
        Ok(p) => p.to_string_lossy().into_owned(),
        Err(_) => path.clone(),
    }
}

/// What `Path::parent` gives for the path `p` (as text).
pub uninterp spec fn std_path_parent(p: Seq<char>) -> Option<Seq<char>>;

/// `Path::new(p).parent()`, as text: the path without its last component,
/// `None` for a root or the empty path.
#[verifier::external_body]
pub fn path_parent(p: &str) -> (r: Option<String>)
    ensures
        r.deep_view() == std_path_parent(p@),
        p@.len() == 0 ==> r is None,
{
    match std::path::Path::new(p).parent() {
        Some(q) => Some(q.to_string_lossy().into_owned()),
        None => None,
    }
}

} // verus!
