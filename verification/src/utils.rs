use vstd::prelude::*;
use vstd::string::{StrSliceExecFns, StringExecFns};

verus! {

/// True iff `v` holds a string whose characters equal those of `s`.
pub fn vec_contains_string(v: &Vec<String>, s: &String) -> (r: bool)
    ensures
        r == exists|k: int| 0 <= k < v@.len() && v@[k]@ == s@,
{
    let mut k: usize = 0;
    while k < v.len()
        invariant
            k <= v@.len(),
            forall|m: int| 0 <= m < k ==> v@[m]@ != s@,
        decreases v@.len() - k,
    {
        if v[k] == *s {
            assert(v@[k as int]@ == s@);
            return true;
        }
        k = k + 1;
    }
    false
}

/// Copies a list of strings, element for element.
pub fn clone_strings(v: &Vec<String>) -> (r: Vec<String>)
    ensures
        r@ == v@,
{
    let mut r: Vec<String> = Vec::new();
    let mut k: usize = 0;
    while k < v.len()
        invariant
            k <= v@.len(),
            r@.len() == k,
            forall|m: int| 0 <= m < k ==> r@[m] == v@[m],
        decreases v@.len() - k,
    {
        r.push(v[k].clone());
        k = k + 1;
    }
    assert(r@ =~= v@);
    r
}

/// True iff the path does not start at the filesystem root, which on a
/// POSIX system means it does not begin with a slash.  The empty path
/// counts as relative.
pub fn is_relative_path(path_str: &String) -> (r: bool)
    ensures
        r == !(path_str@.len() > 0 && path_str@[0] == '/'),
{
    let s: &str = path_str.as_str();
    if s.unicode_len() > 0 && s.get_char(0) == '/' {
        false
    } else {
        true
    }
}

/// Joins a working directory and a path: an absolute path stands on its
/// own, a relative one is appended to the directory with exactly one
/// slash between them (and an empty directory adds nothing).
pub fn join_path(cwd: &String, path: &String) -> (r: String)
    ensures
        (path@.len() > 0 && path@[0] == '/') ==> r@ == path@,
        !(path@.len() > 0 && path@[0] == '/') ==> r@ == (if cwd@.len() == 0 {
            path@
        } else if cwd@[cwd@.len() - 1] == '/' {
            cwd@ + path@
        } else {
            cwd@ + "/"@ + path@
        }),
{
    if !is_relative_path(path) {
        return path.clone();
    }
    let cwd_len: usize = cwd.as_str().unicode_len();
    if cwd_len == 0 {
        return path.clone();
    }
    if cwd.as_str().get_char(cwd_len - 1) == '/' {
        cwd.clone().concat(path.as_str())
    } else {
        cwd.clone().concat("/").concat(path.as_str())
    }
}

} // verus!
