//! The distribution label of a dataset, read from its file name
//! (`<distribution>_n<count>_seed<seed>.bin`).

use vstd::prelude::*;

verus! {

/// The final component of a path, as `std::path::Path::file_name` gives it.
pub uninterp spec fn file_name_of(path: Seq<char>) -> Option<Seq<char>>;

/// Relies on `std::path::Path::file_name`: the last component of `path`, or
/// `None` when the path ends in `..` or is a root or empty. The answer depends
/// on the text of the path alone; a `&str` is valid UTF-8, so the lossy
/// conversion keeps it as it is.
#[verifier::external_body]
fn file_name(path: &str) -> (r: Option<String>)
    ensures
        match r {
            Some(name) => file_name_of(path@) == Some(name@),
            None => file_name_of(path@) is None,
        },
{
    std::path::Path::new(path).file_name().map(|s| s.to_string_lossy().to_string())
}

/// The two-character marker `_n` starts at position `i` of `s`.
pub open spec fn marker_at(s: Seq<char>, i: int) -> bool {
    0 <= i && i + 1 < s.len() && s[i] == '_' && s[i + 1] == 'n'
}

/// The position of the first marker at or after `from`, or `s.len()` when
/// there is none.
pub open spec fn marker_index(s: Seq<char>, from: int) -> int
    decreases s.len() - from,
{
    if from < 0 || from + 1 >= s.len() {
        s.len() as int
    } else if marker_at(s, from) {
        from
    } else {
        marker_index(s, from + 1)
    }
}

/// The text of `name` before the first `_n`, or the whole of it when the
/// marker does not occur.
pub open spec fn distribution_of(name: Seq<char>) -> Seq<char> {
    name.take(marker_index(name, 0))
}

/// The name that stands in for a path without a final component.
pub open spec fn unknown_name() -> Seq<char> {
    "unknown"@
}

/// The distribution label of the dataset at `path`.
pub open spec fn inferred_distribution(path: Seq<char>) -> Seq<char> {
    match file_name_of(path) {
        Some(name) => distribution_of(name),
        None => distribution_of(unknown_name()),
    }
}

proof fn lemma_marker_index_bounds(s: Seq<char>, from: int)
    requires
        0 <= from,
    ensures
        marker_index(s, from) <= s.len(),
        marker_index(s, from) < s.len() ==> marker_at(s, marker_index(s, from)),
        forall|j: int| from <= j < marker_index(s, from) ==> !marker_at(s, j),
    decreases s.len() - from,
{
    if from + 1 < s.len() && !marker_at(s, from) {
        lemma_marker_index_bounds(s, from + 1);
    }
}

/// The label carried by a file name: what precedes its first `_n`, or the
/// whole name when it has none.
pub fn distribution_from_name(name: &str) -> (r: String)
    ensures
        r@ == distribution_of(name@),
{
    let len = name.unicode_len();
    let mut i: usize = 0;
    while i < len && i + 1 < len
        invariant
            len == name@.len(),
            i <= len,
            marker_index(name@, 0) == marker_index(name@, i as int),
        decreases len - i,
    {
        if name.get_char(i) == '_' && name.get_char(i + 1) == 'n' {
            return String::from_str(name.substring_char(0, i));
        }
        i = i + 1;
    }
    proof {
        lemma_marker_index_bounds(name@, i as int);
    }
    assert(name@.take(len as int) =~= name@);
    String::from_str(name)
}

/// The distribution label of the dataset at `path`: taken from the file name,
/// or from `unknown` when the path has no final component.
pub fn infer_distribution(path: &str) -> (r: String)
    ensures
        r@ == inferred_distribution(path@),
{
    match file_name(path) {
        Some(name) => distribution_from_name(name.as_str()),
        None => distribution_from_name("unknown"),
    }
}

} // verus!
