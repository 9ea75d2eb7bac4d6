//! File-system paths as text. The library never touches the file system: it
//! takes a path apart and puts paths together, as `std::path` does on the
//! platform the library is built for.

use crate::text::{chars_of, text_of};
use std::path::Path;
use vstd::prelude::*;

verus! {

/// What `Path::join` makes of `base` and `rel`.
pub uninterp spec fn joined(base: Seq<char>, rel: Seq<char>) -> Seq<char>;

/// The final component of `path` as `Path::file_name` finds it, if there is
/// one.
pub uninterp spec fn file_name_of(path: Seq<char>) -> Option<Seq<char>>;

/// Whether `Path::parent` finds a parent of `path`: it finds none for a root
/// and for the empty path.
pub uninterp spec fn has_parent(path: Seq<char>) -> bool;

/// Whether `Path::has_root` holds of `path`.
pub uninterp spec fn has_root(path: Seq<char>) -> bool;

/// `Path::join`: `rel` adjoined to `base`.
#[verifier::external_body]
pub(crate) fn join(base: &str, rel: &str) -> (r: String)
    ensures
        r@ == joined(base@, rel@),
{
    Path::new(base).join(rel).to_string_lossy().into_owned()
}

/// `Path::file_name`: the final component of `path`.
#[verifier::external_body]
pub(crate) fn file_name(path: &str) -> (r: Option<String>)
    ensures
        r is Some <==> file_name_of(path@) is Some,
        r matches Some(name) ==> file_name_of(path@) == Some(name@),
{
    Path::new(path).file_name().map(|name| name.to_string_lossy().into_owned())
}

/// `Path::parent`, asked only whether there is one.
#[verifier::external_body]
pub(crate) fn parent_exists(path: &str) -> (r: bool)
    ensures
        r == has_parent(path@),
{
    Path::new(path).parent().is_some()
}

/// `Path::has_root`.
#[verifier::external_body]
pub(crate) fn is_rooted(path: &str) -> (r: bool)
    ensures
        r == has_root(path@),
{
    Path::new(path).has_root()
}

/// The position of the last `.` in `name`, or -1 if it holds none.
pub open spec fn last_dot(name: Seq<char>) -> int
    decreases name.len(),
{
    if name.len() == 0 {
        -1
    } else if name.last() == '.' {
        name.len() - 1
    } else {
        last_dot(name.drop_last())
    }
}

/// The extension of a file name: what follows its last `.`, unless the name
/// holds no `.` or only one at its start.
pub open spec fn extension_of_name(name: Seq<char>) -> Option<Seq<char>> {
    if last_dot(name) > 0 {
        Some(name.skip(last_dot(name) + 1))
    } else {
        None
    }
}

/// The stem of a file name: what precedes its last `.`, or the whole name if
/// it holds no `.` or only one at its start.
pub open spec fn stem_of_name(name: Seq<char>) -> Seq<char> {
    if last_dot(name) > 0 {
        name.take(last_dot(name))
    } else {
        name
    }
}

/// The extension of the final component of `path`.
pub open spec fn extension_of(path: Seq<char>) -> Option<Seq<char>> {
    match file_name_of(path) {
        Some(name) => extension_of_name(name),
        None => None,
    }
}

/// The stem of the final component of `path`.
pub open spec fn file_stem_of(path: Seq<char>) -> Option<Seq<char>> {
    match file_name_of(path) {
        Some(name) => Some(stem_of_name(name)),
        None => None,
    }
}

proof fn lemma_last_dot(name: Seq<char>, k: int)
    requires
        -1 <= k < name.len(),
        k >= 0 ==> name[k] == '.',
        forall|j: int| k < j < name.len() ==> name[j] != '.',
    ensures
        last_dot(name) == k,
    decreases name.len(),
{
    if name.len() > 0 && name.last() != '.' {
        lemma_last_dot(name.drop_last(), k);
    }
}

/// The position of the last `.` among `cs`, if there is one.
fn find_last_dot(cs: &Vec<char>) -> (r: Option<usize>)
    ensures
        match r {
            Some(k) => k < cs@.len() && k as int == last_dot(cs@),
            None => last_dot(cs@) == -1,
        },
{
    let mut i: usize = cs.len();
    while i > 0
        invariant
            i <= cs@.len(),
            forall|j: int| i <= j < cs@.len() ==> cs@[j] != '.',
        decreases i,
    {
        i -= 1;
        if cs[i] == '.' {
            proof {
                lemma_last_dot(cs@, i as int);
            }
            return Some(i);
        }
    }
    proof {
        lemma_last_dot(cs@, -1);
    }
    None
}

/// The extension of the final component of `path`, as `Path::extension`
/// gives it.
pub fn extension(path: &str) -> (r: Option<String>)
    ensures
        r is Some <==> extension_of(path@) is Some,
        r matches Some(e) ==> extension_of(path@) == Some(e@),
{
    match file_name(path) {
        Some(name) => {
            let cs = chars_of(name.as_str());
            let n = cs.len();
            match find_last_dot(&cs) {
                Some(k) => if k > 0 {
                    assert(cs@.skip(k + 1) =~= cs@.subrange(k + 1, n as int));
                    Some(text_of(name.as_str(), k + 1, n))
                } else {
                    None
                },
                None => None,
            }
        },
        None => None,
    }
}

/// The stem of the final component of `path`, as `Path::file_stem` gives it.
pub fn file_stem(path: &str) -> (r: Option<String>)
    ensures
        r is Some <==> file_stem_of(path@) is Some,
        r matches Some(s) ==> file_stem_of(path@) == Some(s@),
{
    match file_name(path) {
        Some(name) => {
            let cs = chars_of(name.as_str());
            match find_last_dot(&cs) {
                Some(k) => if k > 0 {
                    assert(cs@.take(k as int) =~= cs@.subrange(0, k as int));
                    Some(text_of(name.as_str(), 0, k))
                } else {
                    Some(name)
                },
                None => Some(name),
            }
        },
        None => None,
    }
}

} // verus!
