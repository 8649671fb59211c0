//! Verified core of a stream-trimming reconciliation tool.
//!
//! Given a catalog of recorded streams annotated with trim markers, the
//! library decides, per candidate stream, whether and how to cut a leading
//! segment off the stream's media file, how sibling artifact files are
//! renamed, and which catalog updates keep stored offsets consistent with
//! the shortened media. All file system work, the external transcoder and
//! the catalog connection live outside; this crate computes and checks the
//! decisions.

use vstd::prelude::*;

pub mod catalog;
pub mod date;
pub mod names;
pub mod parse;
pub mod plan;

verus! {

/// Decrement an offset by a trim amount, floored at zero.
///
/// Offsets are measured in milliseconds relative to the start of a stream;
/// after a leading segment of `trim_ms` milliseconds is cut, every stored
/// offset moves down by that amount, but never below zero.
pub fn decrement_floored(time_ms: i64, trim_ms: i64) -> (r: i64)
    requires
        trim_ms >= 0,
    ensures
        time_ms >= trim_ms ==> r == time_ms - trim_ms,
        time_ms < trim_ms ==> r == 0,
{
    if time_ms >= trim_ms {
        time_ms - trim_ms
    } else {
        0
    }
}

} // verus!
