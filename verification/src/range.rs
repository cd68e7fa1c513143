use vstd::prelude::*;

use vstd::slice::{slice_subrange, slice_to_vec};

verus! {

/// The outcome of a bounded range read: either the bytes read, or the
/// explicit end-of-file result. End of file is a normal terminal condition,
/// not a failure.
#[derive(Debug)]
pub enum RangeRead {
    Data(Vec<u8>),
    EndOfFile,
}

/// The end of the byte window a range read returns.
pub open spec fn spec_range_end(len: int, offset: int, max_bytes: int) -> int {
    if offset + max_bytes <= len {
        offset + max_bytes
    } else {
        len
    }
}

/// Serve a bounded read of an artifact's bytes: up to `max_bytes` bytes
/// starting at `offset`. A read that can return no bytes — an offset at or
/// past the end, or a zero-length request — yields the end-of-file result,
/// never an error.
pub fn read_range(data: &[u8], offset: u64, max_bytes: usize) -> (r: RangeRead)
    ensures
        (offset >= data@.len() || max_bytes == 0) ==> r is EndOfFile,
        (offset < data@.len() && max_bytes > 0) ==> (r matches RangeRead::Data(d) && d@
            == data@.subrange(
            offset as int,
            spec_range_end(data@.len() as int, offset as int, max_bytes as int),
        )),
{
    let len = data.len();
    if offset >= len as u64 || max_bytes == 0 {
        return RangeRead::EndOfFile;
    }
    let start = offset as usize;
    let end = if max_bytes <= len - start {
        start + max_bytes
    } else {
        len
    };
    let window = slice_subrange(data, start, end);
    RangeRead::Data(slice_to_vec(window))
}

} // verus!
