use vstd::prelude::*;
use vstd::string::{StrSliceExecFns, StringExecFns};
use crate::error::Error;

verus! {

/// Index of the `.` that opens the extension of the final segment of `p`:
/// the last `.` after the last `/`, if there is one.
pub open spec fn extension_dot(p: Seq<char>) -> Option<int>
    decreases p.len(),
{
    if p.len() == 0 {
        None
    } else if p.last() == '.' {
        Some(p.len() - 1)
    } else if p.last() == '/' {
        None
    } else {
        extension_dot(p.drop_last())
    }
}

/// Index at which the final segment of `p` starts: just after its last `/`.
pub open spec fn basename_start(p: Seq<char>) -> int
    decreases p.len(),
{
    if p.len() == 0 {
        0
    } else if p.last() == '/' {
        p.len() as int
    } else {
        basename_start(p.drop_last())
    }
}

/// A segment that is `.`, which names no file.
pub open spec fn is_current_dir(seg: Seq<char>) -> bool {
    seg.len() == 1 && seg[0] == '.'
}

/// A segment that is `..`, which names no file.
pub open spec fn is_parent_dir(seg: Seq<char>) -> bool {
    seg.len() == 2 && seg[0] == '.' && seg[1] == '.'
}

/// The file name of `p`, as a path's last component: empty and `.` segments
/// at its end are passed over; a root, an empty path or a final `..` has none.
pub open spec fn file_name(p: Seq<char>) -> Option<Seq<char>>
    decreases p.len(),
{
    let start = basename_start(p);
    let seg = p.subrange(start, p.len() as int);
    if seg.len() == 0 || is_current_dir(seg) {
        if 0 < start <= p.len() {
            file_name(p.subrange(0, start - 1))
        } else {
            None
        }
    } else if is_parent_dir(seg) {
        None
    } else {
        Some(seg)
    }
}

/// The file name of `p`, or `p` itself where it has none.
pub open spec fn file_name_or_path(p: Seq<char>) -> Seq<char> {
    match file_name(p) {
        Some(name) => name,
        None => p,
    }
}

/// What follows the extension's `.`; meaningful where `extension_dot(p)` is some.
pub open spec fn extension(p: Seq<char>) -> Seq<char> {
    p.subrange(extension_dot(p)->0 + 1, p.len() as int)
}

/// What precedes the extension's `.`, directory included.
pub open spec fn stem(p: Seq<char>) -> Seq<char> {
    p.subrange(0, extension_dot(p)->0)
}

/// `p` with its extension replaced by `ext`: same directory, same stem.
pub open spec fn with_extension(p: Seq<char>, ext: Seq<char>) -> Seq<char> {
    stem(p) + "."@ + ext
}

/// Where the extension's `.` and the final segment lie within a path.
pub proof fn lemma_extension_dot_bounds(p: Seq<char>)
    ensures
        extension_dot(p) matches Some(d) ==> 0 <= d < p.len() && p[d] == '.'
            && basename_start(p) <= d,
        0 <= basename_start(p) <= p.len(),
        basename_start(p) > 0 ==> p[basename_start(p) - 1] == '/',
        forall|k: int| basename_start(p) <= k < p.len() ==> p[k] != '/',
    decreases p.len(),
{
    if p.len() > 0 {
        let q = p.drop_last();
        lemma_extension_dot_bounds(q);
        assert(forall|k: int| 0 <= k < q.len() ==> q[k] == #[trigger] p[k]);
    }
}

/// The extension of the final segment of `path`: what follows its last `.`.
pub fn read_extension(path: &str) -> (r: Result<&str, Error>)
    ensures
        match extension_dot(path@) {
            Some(_) => r matches Ok(e) && e@ == extension(path@),
            None => r matches Err(Error::BadExtension(p)) && p@ == path@,
        },
{
    proof {
        lemma_extension_dot_bounds(path@);
    }
    let n = path.unicode_len();
    match find_extension_dot(path) {
        Some(d) => Ok(path.substring_char(d + 1, n)),
        None => Err(Error::bad_extension(path)),
    }
}

/// Scans `path` from its end for the `.` of its extension.
fn find_extension_dot(path: &str) -> (r: Option<usize>)
    ensures
        r matches Some(d) ==> extension_dot(path@) == Some(d as int),
        r is None ==> extension_dot(path@) is None,
{
    let n = path.unicode_len();
    let mut i: usize = n;
    assert(path@.subrange(0, n as int) =~= path@);
    while i > 0
        invariant
            i <= n == path@.len(),
            extension_dot(path@) == extension_dot(path@.subrange(0, i as int)),
        decreases i,
    {
        assert(path@.subrange(0, i as int).drop_last() =~= path@.subrange(0, i - 1));
        let c = path.get_char(i - 1);
        if c == '.' {
            return Some(i - 1);
        }
        if c == '/' {
            return None;
        }
        i = i - 1;
    }
    None
}

/// Scans `path[..end]` from its end for the start of its final segment.
fn segment_start(path: &str, end: usize) -> (r: usize)
    requires
        end <= path@.len(),
    ensures
        r == basename_start(path@.subrange(0, end as int)),
{
    let mut i: usize = end;
    while i > 0
        invariant
            i <= end <= path@.len(),
            basename_start(path@.subrange(0, end as int)) == basename_start(
                path@.subrange(0, i as int),
            ),
        decreases i,
    {
        assert(path@.subrange(0, i as int).drop_last() =~= path@.subrange(0, i - 1));
        if path.get_char(i - 1) == '/' {
            return i;
        }
        i = i - 1;
    }
    i
}

/// The file name of `path`, without its directory; the whole path where it
/// names no file (`/`, an empty path, or one ending in `..`).
pub fn display_filename(path: &str) -> (r: &str)
    ensures
        r@ == file_name_or_path(path@),
{
    let n = path.unicode_len();
    let mut end: usize = n;
    assert(path@.subrange(0, n as int) =~= path@);
    loop
        invariant
            end <= n == path@.len(),
            file_name(path@) == file_name(path@.subrange(0, end as int)),
        decreases end,
    {
        let ghost q = path@.subrange(0, end as int);
        let start = segment_start(path, end);
        proof {
            lemma_extension_dot_bounds(q);
        }
        let len = end - start;
        if len == 0 || (len == 1 && path.get_char(start) == '.') {
            if start == 0 {
                return path;
            }
            assert(q.subrange(0, start - 1) =~= path@.subrange(0, start - 1));
            end = start - 1;
        } else if len == 2 && path.get_char(start) == '.' && path.get_char(start + 1) == '.' {
            return path;
        } else {
            let r = path.substring_char(start, end);
            assert(r@ =~= q.subrange(start as int, end as int));
            return r;
        }
    }
}

/// `path` with the extension of its final segment replaced by `ext`.
pub fn replace_extension(path: &str, ext: &str) -> (r: Option<String>)
    ensures
        match extension_dot(path@) {
            Some(_) => r matches Some(s) && s@ == with_extension(path@, ext@),
            None => r is None,
        },
{
    match find_extension_dot(path) {
        Some(d) => {
            proof {
                lemma_extension_dot_bounds(path@);
            }
            let s = String::from_str(path.substring_char(0, d)).concat(".").concat(ext);
            Some(s)
        },
        None => None,
    }
}

} // verus!
