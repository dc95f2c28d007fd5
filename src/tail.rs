//! Following a growing log file: where to resume reading, and what a read returns.
use vstd::prelude::*;

verus! {

/// What one read of a log's tail returns: the new text, and the offset to
/// resume from next time.
#[derive(Debug)]
pub struct TailResult {
    pub content: String,
    pub new_offset: u64,
}

/// Where to resume reading a file of `file_size` bytes last read up to
/// `offset`: there, unless the file has shrunk below it (it was rotated or
/// restarted), in which case from the start.
pub fn tail_start(file_size: u64, offset: u64) -> (r: u64)
    ensures
        r == if file_size < offset {
            0
        } else {
            offset
        },
{
    if file_size < offset {
        0
    } else {
        offset
    }
}

/// The result of reading `bytes_read` bytes, decoded as `content`, from `start`.
pub fn tail_result(content: String, start: u64, bytes_read: u64) -> (r: TailResult)
    requires
        start + bytes_read <= u64::MAX,
    ensures
        r.content == content,
        r.new_offset == start + bytes_read,
{
    TailResult { content, new_offset: start + bytes_read }
}

} // verus!
