use vstd::prelude::*;
use vstd::string::*;

verus! {

/// The final component of a path, as `std::path::Path::file_name` gives it
/// (`None` when the last component is no file name: a root, or `..`).
pub uninterp spec fn file_name_of(p: Seq<char>) -> Option<Seq<char>>;

/// Position of the last `.` in `n`, or `-1` when `n` holds none.
pub open spec fn last_dot(n: Seq<char>) -> int
    decreases n.len(),
{
    if n.len() == 0 {
        -1
    } else if n.last() == '.' {
        n.len() - 1
    } else {
        last_dot(n.drop_last())
    }
}

/// The stem of a file name: the part before its last `.`, or the whole name
/// when it has no `.` past its first character.
pub open spec fn stem_of_name(n: Seq<char>) -> Seq<char> {
    if last_dot(n) <= 0 {
        n
    } else {
        n.subrange(0, last_dot(n))
    }
}

/// The stem of the path's final component, if it has one.
pub open spec fn file_stem_of(p: Seq<char>) -> Option<Seq<char>> {
    match file_name_of(p) {
        Some(n) => Some(stem_of_name(n)),
        None => None,
    }
}

/// Relies on std::path::Path::file_name: the last component of `p`, read back
/// as text (it is a part of `p`, so it is valid text).
#[verifier::external_body]
pub(crate) fn file_name(p: &str) -> (r: Option<&str>)
    ensures
        r.is_some() == file_name_of(p@).is_some(),
        r.is_some() ==> r.unwrap()@ == file_name_of(p@).unwrap(),
{
    std::path::Path::new(p).file_name()?.to_str()
}

/// Relies on std::path::Path::file_stem: `None` when there is no file name;
/// otherwise the file name up to its last `.`, or the whole file name when it
/// holds no `.` or only a leading one.
#[verifier::external_body]
pub(crate) fn file_stem(p: &str) -> (r: Option<&str>)
    ensures
        r.is_some() == file_stem_of(p@).is_some(),
        r.is_some() ==> r.unwrap()@ == file_stem_of(p@).unwrap(),
{
    std::path::Path::new(p).file_stem()?.to_str()
}

/// Whether two texts hold the same characters.
pub fn same_text(a: &str, b: &str) -> (r: bool)
    ensures
        r == (a@ == b@),
{
    let n = a.unicode_len();
    if n != b.unicode_len() {
        return false;
    }
    let mut i: usize = 0;
    while i < n
        invariant
            n == a@.len(),
            n == b@.len(),
            i <= n,
            forall|j: int| 0 <= j < i ==> a@[j] == b@[j],
        decreases n - i,
    {
        if a.get_char(i) != b.get_char(i) {
            return false;
        }
        i = i + 1;
    }
    assert(a@ =~= b@);
    true
}

} // verus!
