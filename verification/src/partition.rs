//! Deterministic naming of output partitions: one file per
//! (logical key, sequence number) pair, placed in the key's own
//! subdirectory of the destination root.

use vstd::prelude::*;
use vstd::string::StrSliceExecFns;
use vstd::string::StringExecFns;
use crate::strings::{dec_str, format_usize};

verus! {

/// The suffix that marks an annotation input file.
pub open spec fn annotation_suffix() -> Seq<char> {
    "_meta.jsonl"@
}

/// The logical key of an input file name: the name with the annotation
/// suffix removed, or nothing when the name does not end in it.
pub open spec fn annotation_key(name: Seq<char>) -> Option<Seq<char>> {
    if name.len() >= annotation_suffix().len() && name.skip(
        name.len() - annotation_suffix().len(),
    ) == annotation_suffix() {
        Some(name.take(name.len() - annotation_suffix().len()))
    } else {
        None
    }
}

/// Derive the logical key from one input file's name.
pub fn logical_key(name: &str) -> (r: Option<String>)
    ensures
        r.deep_view() == annotation_key(name@),
{
    let sfx = "_meta.jsonl";
    let n = name.unicode_len();
    let m = sfx.unicode_len();
    if n < m {
        return None;
    }
    let mut i: usize = 0;
    while i < m
        invariant
            i <= m,
            m == annotation_suffix().len(),
            sfx@ == annotation_suffix(),
            n == name@.len(),
            m <= n,
            forall|j: int| 0 <= j < i ==> name@[n - m + j] == annotation_suffix()[j],
        decreases m - i,
    {
        if name.get_char(n - m + i) != sfx.get_char(i) {
            proof {
                let tail = name@.skip(n - m);
                assert(tail[i as int] == name@[n - m + i]);
                assert(tail != annotation_suffix());
            }
            return None;
        }
        i = i + 1;
    }
    proof {
        assert(name@.skip(n - m) =~= annotation_suffix());
    }
    let key = name.substring_char(0, n - m).to_owned();
    proof {
        assert(key@ =~= name@.take(n - m));
    }
    Some(key)
}

/// `<key>_part_<seq>.parquet`
pub open spec fn partition_file_name_spec(key: Seq<char>, part: int) -> Seq<char> {
    key + "_part_"@ + dec_str(part) + ".parquet"@
}

/// `<key>/<key>_part_<seq>.parquet`, relative to the destination root.
pub open spec fn partition_rel_path_spec(key: Seq<char>, part: int) -> Seq<char> {
    key + "/"@ + partition_file_name_spec(key, part)
}

/// The file name of one partition of `key`.
pub fn partition_file_name(key: &str, part: usize) -> (r: String)
    ensures
        r@ == partition_file_name_spec(key@, part as int),
{
    let mut out = key.to_owned();
    out.append("_part_");
    let digits = format_usize(part);
    out.append(digits.as_str());
    out.append(".parquet");
    proof {
        assert(out@ =~= partition_file_name_spec(key@, part as int));
    }
    out
}

/// The path of one partition of `key`, relative to the destination root:
/// the key names the subdirectory, the file name repeats it.
pub fn partition_rel_path(key: &str, part: usize) -> (r: String)
    ensures
        r@ == partition_rel_path_spec(key@, part as int),
{
    let mut out = key.to_owned();
    out.append("/");
    let name = partition_file_name(key, part);
    out.append(name.as_str());
    proof {
        assert(out@ =~= partition_rel_path_spec(key@, part as int));
    }
    out
}

} // verus!
