//! The safety rule for the write benchmark, read from `df -m` output.
use crate::text::{chars_of, concat, lines, lines_of, parse_int, parse_u64, texts, words, words_of};
use vstd::prelude::*;

verus! {

broadcast use vstd::string::group_string_axioms;

/// The least free space, in MiB, that a benchmark leaves room for.
pub const MIN_FREE_MB: u64 = 5000;

/// Whether the filesystem that `df -m` describes may host the benchmark: its data line
/// gives a size and an available amount (in MiB), more than 5000 MiB are available, and
/// at least a tenth of the filesystem is free.
pub open spec fn bench_allowed(df_stdout: Seq<char>) -> bool {
    let ls = lines(df_stdout);
    ls.len() > 1 && {
        let cols = words(ls[1]);
        &&& cols.len() > 3
        &&& parse_int(cols[3], false, 0, u64::MAX as int) matches Some(avail)
        &&& parse_int(cols[1], false, 0, u64::MAX as int) matches Some(total)
        &&& avail > 5000
        &&& avail * 10 >= total
    }
}

/// Whether `df -m <mount>` output shows room for the benchmark (fails closed on output it
/// cannot read).
pub fn ensure_capacity_safety(df_stdout: &str) -> (r: bool)
    ensures
        r == bench_allowed(df_stdout@),
{
    let text = chars_of(df_stdout);
    let ls = lines_of(&text);
    if ls.len() > 1 {
        let cols = words_of(&ls[1]);
        assert(texts(ls@)[1] == ls@[1]@);
        if cols.len() > 3 {
            assert(texts(cols@)[3] == cols@[3]@);
            assert(texts(cols@)[1] == cols@[1]@);
            match (parse_u64(&cols[3]), parse_u64(&cols[1])) {
                (Some(available_mb), Some(total_mb)) => {
                    return available_mb > MIN_FREE_MB && available_mb as u128 * 10
                        >= total_mb as u128;
                },
                _ => {
                    return false;
                },
            }
        }
    }
    false
}

/// The temporary file the benchmark writes on a mount point.
pub fn bench_file_path(mount_point: &str) -> (r: String)
    ensures
        r@ == mount_point@ + "/.tuxtests_bench.tmp"@,
{
    concat(mount_point, "/.tuxtests_bench.tmp")
}

} // verus!
