//! Which entries of a directory are plan files.
//!
//! Reading the directory is left to the caller, who hands over what was found.

use crate::text::chars_of;
use crate::text::names;
use vstd::prelude::*;

verus! {

/// One entry of a directory, as it was found.
#[derive(Debug, Clone)]
pub struct DirEntry {
    /// The path of the entry.
    pub path: String,
    /// The last part of the path.
    pub file_name: String,
    /// Whether the entry is a regular file.
    pub is_file: bool,
}

/// Whether `text` ends with `suffix`.
pub open spec fn ends_with(text: Seq<char>, suffix: Seq<char>) -> bool {
    suffix.len() <= text.len() && text.skip(text.len() - suffix.len()) == suffix
}

/// Whether an entry is a plan file: a regular file whose name ends with `.yml` or `.yaml`.
pub open spec fn is_plan_file(entry: DirEntry) -> bool {
    entry.is_file && (ends_with(entry.file_name@, ".yml"@) || ends_with(
        entry.file_name@,
        ".yaml"@,
    ))
}

/// The paths of the plan files among the entries, in the order of the entries.
pub open spec fn plan_paths(entries: Seq<DirEntry>) -> Seq<Seq<char>>
    decreases entries.len(),
{
    if entries.len() == 0 {
        Seq::empty()
    } else if is_plan_file(entries.last()) {
        plan_paths(entries.drop_last()).push(entries.last().path@)
    } else {
        plan_paths(entries.drop_last())
    }
}

/// Whether `text` ends with `suffix`.
pub fn has_suffix(text: &Vec<char>, suffix: &Vec<char>) -> (yes: bool)
    ensures
        yes == ends_with(text@, suffix@),
{
    if suffix.len() > text.len() {
        return false;
    }
    let shift: usize = text.len() - suffix.len();
    let mut i: usize = 0;
    while i < suffix.len()
        invariant
            i <= suffix.len(),
            shift == text.len() - suffix.len(),
            forall|k: int| 0 <= k < i ==> text@[shift + k] == suffix@[k],
        decreases suffix.len() - i,
    {
        if text[shift + i] != suffix[i] {
            return false;
        }
        i += 1;
    }
    assert(text@.skip(shift as int) =~= suffix@);
    true
}

/// Picks the plan files among the entries of a directory and gives their paths.
pub fn filter_dir_content(content: &Vec<DirEntry>) -> (paths: Vec<String>)
    ensures
        names(paths@) == plan_paths(content@),
{
    let yml = chars_of(".yml");
    let yaml = chars_of(".yaml");
    let mut paths: Vec<String> = Vec::new();
    let mut i: usize = 0;
    while i < content.len()
        invariant
            i <= content.len(),
            yml@ == ".yml"@,
            yaml@ == ".yaml"@,
            names(paths@) == plan_paths(content@.take(i as int)),
        decreases content.len() - i,
    {
        proof {
            assert(content@.take(i + 1).drop_last() =~= content@.take(i as int));
        }
        let entry = &content[i];
        let name = chars_of(entry.file_name.as_str());
        if entry.is_file && (has_suffix(&name, &yml) || has_suffix(&name, &yaml)) {
            paths.push(entry.path.clone());
        }
        i += 1;
    }
    proof {
        assert(content@.take(content@.len() as int) =~= content@);
    }
    paths
}

} // verus!
