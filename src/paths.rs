//! Data-root path layout, as `/`-separated text.

use vstd::prelude::*;
use vstd::string::*;

verus! {

pub open spec fn is_absolute_path(p: Seq<char>) -> bool {
    p.len() > 0 && p[0] == '/'
}

/// `base` joined with `part`: an absolute `part` replaces `base`; otherwise
/// the two are separated by exactly the one `/` that `base` may already end
/// with (an empty `base` adds none).
pub open spec fn joined(base: Seq<char>, part: Seq<char>) -> Seq<char> {
    if is_absolute_path(part) || base.len() == 0 {
        part
    } else if base.last() == '/' {
        base + part
    } else {
        base + seq!['/'] + part
    }
}

pub fn is_absolute(p: &str) -> (r: bool)
    ensures
        r == is_absolute_path(p@),
{
    p.unicode_len() > 0 && p.get_char(0) == '/'
}

pub fn join_path(base: &str, part: &str) -> (r: String)
    ensures
        r@ == joined(base@, part@),
{
    let n = base.unicode_len();
    if is_absolute(part) || n == 0 {
        String::from_str(part)
    } else if base.get_char(n - 1) == '/' {
        String::from_str(base).concat(part)
    } else {
        let with_sep = String::from_str(base).concat("/");
        proof {
            reveal_strlit("/");
        }
        with_sep.concat(part)
    }
}

/// `data_root` as given when absolute, else anchored at `workspace_root`.
pub fn resolve_data_root_path(data_root: &str, workspace_root: &str) -> (r: String)
    ensures
        r@ == if is_absolute_path(data_root@) {
            data_root@
        } else {
            joined(workspace_root@, data_root@)
        },
{
    if is_absolute(data_root) {
        String::from_str(data_root)
    } else {
        join_path(workspace_root, data_root)
    }
}

/// Directory of one dataset: `<data_root>/datasets/<dataset_name>`.
pub fn dataset_root(data_root: &str, dataset_name: &str) -> (r: String)
    ensures
        r@ == joined(joined(data_root@, "datasets"@), dataset_name@),
{
    let datasets = join_path(data_root, "datasets");
    join_path(datasets.as_str(), dataset_name)
}

/// Record file of one dataset version:
/// `<dataset root>/versions/<version_id>/records.jsonl`.
pub fn records_path(data_root: &str, dataset_name: &str, version_id: &str) -> (r: String)
    ensures
        r@ == joined(
            joined(joined(joined(joined(data_root@, "datasets"@), dataset_name@), "versions"@), version_id@),
            "records.jsonl"@,
        ),
{
    let root = dataset_root(data_root, dataset_name);
    let versions = join_path(root.as_str(), "versions");
    let version = join_path(versions.as_str(), version_id);
    join_path(version.as_str(), "records.jsonl")
}

} // verus!
