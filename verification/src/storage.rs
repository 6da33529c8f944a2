use vstd::prelude::*;

use crate::random::random_below;

verus! {

/// Where block `index` starts when a file is cut into blocks of `block_size` bytes.
pub open spec fn block_start(index: int, block_size: int) -> int {
    index * block_size
}

/// The byte offset of block `index` of a file cut into blocks of
/// `block_size` bytes, for a block that lies wholly inside a file of
/// `file_size` bytes.
pub fn offset_of_block(index: u64, block_size: u64, file_size: u64) -> (offset: u64)
    requires
        block_size > 0,
        index < file_size / block_size,
    ensures
        offset == block_start(index as int, block_size as int),
        offset % block_size == 0,
        offset + block_size <= file_size,
{
    assert(index * block_size + block_size <= file_size) by (nonlinear_arith)
        requires
            index < file_size / block_size,
            block_size > 0,
    ;
    assert((index * block_size) % (block_size as int) == 0) by (nonlinear_arith)
        requires
            block_size > 0,
    ;
    index * block_size
}

/// The offset of a block drawn at random among the whole blocks of
/// `block_size` bytes inside a file of `file_size` bytes.
pub fn random_block_offset(file_size: u64, block_size: u64) -> (offset: u64)
    requires
        block_size > 0,
        file_size / block_size > 0,
    ensures
        exists|index: u64| index < file_size / block_size && offset == #[trigger] block_start(index as int, block_size as int),
        offset % block_size == 0,
        offset + block_size <= file_size,
{
    let index = random_below(file_size / block_size);
    offset_of_block(index, block_size, file_size)
}

} // verus!
