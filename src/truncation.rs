//! What happens to the file's length once the boundary is known.
use vstd::prelude::*;
use crate::boundary::{trim_boundary, lemma_boundary_of_trimmed};

verus! {

/// The length to set on the file: none in a dry run, else the boundary.
pub open spec fn planned_truncation(valid_len: u64, dry_run: bool) -> Option<u64> {
    if dry_run {
        None
    } else {
        Some(valid_len)
    }
}

/// The length of a file of `total_len` bytes once `plan` has been carried out.
pub open spec fn length_after(total_len: u64, plan: Option<u64>) -> u64 {
    match plan {
        Some(n) => n,
        None => total_len,
    }
}

/// Decides the truncation: the file is cut to `valid_len` unless this is a
/// dry run, which leaves it as it is.
pub fn truncation_length(valid_len: u64, dry_run: bool) -> (r: Option<u64>)
    ensures
        r == planned_truncation(valid_len, dry_run),
{
    if dry_run {
        None
    } else {
        Some(valid_len)
    }
}

/// A dry run leaves the file at its full length, whatever the boundary.
pub proof fn lemma_dry_run_keeps_length(total_len: u64, valid_len: u64)
    ensures
        length_after(total_len, planned_truncation(valid_len, true)) == total_len,
{
}

/// Trimming twice gives what trimming once gives: the second run finds the
/// boundary at the end of the already trimmed file, and leaves its length as
/// it is.
pub proof fn lemma_trim_is_idempotent(file: Seq<u8>, target_byte: u8)
    requires
        file.len() <= u64::MAX,
    ensures
        ({
            let first = trim_boundary(file, target_byte);
            let trimmed = file.subrange(0, first as int);
            let second = trim_boundary(trimmed, target_byte);
            &&& second == first
            &&& length_after(first as u64, planned_truncation(second as u64, false)) == first
        }),
{
    lemma_boundary_of_trimmed(file, target_byte);
    crate::boundary::lemma_boundary_is_maximal_suffix(file, target_byte);
}

} // verus!
