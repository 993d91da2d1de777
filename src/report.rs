//! The line that reports a file's size before and after the cut.
use vstd::prelude::*;
use vstd::string::StringExecFns;
use humansize::FileSize;

verus! {

/// The text of a size in bytes, in binary units (`KiB`, `MiB`, ...).
pub uninterp spec fn binary_size_text(n: u64) -> Seq<char>;

/// Relies on humansize's `FileSize::file_size` with `file_size_opts::BINARY`:
/// the text depends on the number alone, and for an unsigned integer the
/// result is always `Ok`.
#[verifier::external_body]
fn binary_size(n: u64) -> (r: String)
    ensures
        r@ == binary_size_text(n),
{
    n.file_size(humansize::file_size_opts::BINARY).unwrap()
}

/// The report: `cut <path> from <total> to <new>`.
pub open spec fn summary_text(path: Seq<char>, total: Seq<char>, new: Seq<char>) -> Seq<char> {
    "cut "@ + path + " from "@ + total + " to "@ + new
}

/// Puts the report together from the path and the two sizes' texts.
pub fn compose_summary(path: &str, total_text: &str, new_text: &str) -> (r: String)
    ensures
        r@ == summary_text(path@, total_text@, new_text@),
{
    let mut line = String::from_str("cut ");
    line.append(path);
    line.append(" from ");
    line.append(total_text);
    line.append(" to ");
    line.append(new_text);
    line
}

/// The report for a file of `total_len` bytes that is cut to `new_len`.
pub fn summary_line(path: &str, total_len: u64, new_len: u64) -> (r: String)
    ensures
        r@ == summary_text(path@, binary_size_text(total_len), binary_size_text(new_len)),
{
    let total_text = binary_size(total_len);
    let new_text = binary_size(new_len);
    compose_summary(path, total_text.as_str(), new_text.as_str())
}

} // verus!
