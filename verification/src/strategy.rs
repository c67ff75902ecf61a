//! The choice among the conversions.

use vstd::prelude::*;

verus! {

/// The ways to come by the width of the table before its first row is
/// written. They write the same table and differ in what they keep in
/// memory and in when the first row can leave.
#[derive(Debug, Clone, Copy, PartialEq, Eq, Structural)]
pub enum Strategy {
    /// Keep every record until the last one is read, then render.
    FullMaterialization,
    /// Copy the input into a buffer and read the buffer twice.
    ReadTwiceBuffer,
    /// Read the input twice where it lies.
    TwoPassSeekable,
    /// Copy the input chunk by chunk into a spill area while a scanner
    /// estimates the width, then read the spill area.
    ChunkedSpill,
}

/// Chooses the conversion for a source.
///
/// A caller that wants the table in one piece gets full materialization.
/// Of those that want rows to leave as they are rendered, a source that
/// can be read again from its start is read twice where it lies; one that
/// cannot is buffered, unless it is known to be larger than
/// `buffer_limit` bytes, in which case it is spilled in chunks.
pub fn select_strategy(
    incremental: bool,
    seekable: bool,
    size_hint: Option<u64>,
    buffer_limit: u64,
) -> (strategy: Strategy)
    ensures
        strategy == if !incremental {
            Strategy::FullMaterialization
        } else if seekable {
            Strategy::TwoPassSeekable
        } else if size_hint matches Some(size) && size > buffer_limit {
            Strategy::ChunkedSpill
        } else {
            Strategy::ReadTwiceBuffer
        },
{
    if !incremental {
        Strategy::FullMaterialization
    } else if seekable {
        Strategy::TwoPassSeekable
    } else {
        match size_hint {
            Some(size) => {
                if size > buffer_limit {
                    Strategy::ChunkedSpill
                } else {
                    Strategy::ReadTwiceBuffer
                }
            },
            None => Strategy::ReadTwiceBuffer,
        }
    }
}

} // verus!
