//! Sizes of the records of a region file: each chunk is stored as a 4-byte
//! length, the compressed data and zero padding up to a whole block.
use vstd::prelude::*;
use crate::error::Error;
use crate::sectormanager::{reallocate_unchecked_ok, spec_reallocate, spec_required, SectorManager};
use crate::sectoroffset::{spec_block_count, BlockSize, SectorOffset};

verus! {

/// The number of zero bytes that pad `length` bytes to a multiple of 4096.
pub fn pad_size(length: u64) -> (r: u64)
    ensures
        r == (4096 - length % 4096) % 4096,
{
    let low = length & 4095;
    assert(low <= 4095 && low == length % 4096) by (bit_vector)
        requires
            low == length & 4095u64,
    ;
    let r = (4096 - low) & 4095;
    assert(r == (4096 - low) % 4096) by (bit_vector)
        requires
            low <= 4095,
            r == ((4096u64 - low) as u64) & 4095u64,
    ;
    r
}

/// `length` rounded up to a multiple of 4096.
pub fn padded_size(length: u64) -> (r: u64)
    requires
        length + 4095 <= u64::MAX,
    ensures
        r == (length + 4095) / 4096 * 4096,
        r % 4096 == 0,
{
    let r = (length + 4095) & 0xFFFF_FFFF_FFFF_F000u64;
    assert(r == (length + 4095) / 4096 * 4096 && r % 4096 == 0) by (bit_vector)
        requires
            length + 4095 <= 0xFFFF_FFFF_FFFF_FFFFu64,
            r == ((length + 4095u64) as u64) & 0xFFFF_FFFF_FFFF_F000u64,
    ;
    r
}

/// The number of blocks that a record of `length` compressed bytes takes
/// (its 4-byte length and the data, padded to whole blocks).
pub open spec fn record_blocks(length: int) -> int {
    (length + 4 + 4095) / 4096
}

/// Whether [`allocate_for_write`] can run on these arguments (see
/// [`SectorManager::reallocation_fits`]).
pub fn allocation_fits(manager: &SectorManager, old_sector: SectorOffset, length: u64) -> (r: bool)
    requires
        manager.wf(),
        length + 4 + 4095 <= u64::MAX,
    ensures
        r == (record_blocks(length as int) <= 8033 ==> {
            let size = spec_required(record_blocks(length as int));
            size.0 != 0 && spec_block_count(old_sector.spec_block_size()) < spec_block_count(size)
                ==> reallocate_unchecked_ok(manager.unused_ranges(), manager.end_range(), old_sector, size)
        }),
{
    let padded = padded_size(length + 4);
    if padded > BlockSize::MAX_BLOCK_COUNT as u64 * 4096 {
        return true;
    }
    let block_count = (padded / 4096) as u16;
    let required = BlockSize::required(block_count);
    proof {
        crate::sectormanager::lemma_required_is_spec(block_count as int, required);
    }
    manager.reallocation_fits(old_sector, required)
}

/// Moves the record of a chunk, now `length` compressed bytes long, from
/// `old_sector` to a sector of the smallest block size that holds it.
/// Fails with [`Error::ChunkTooLarge`] when the record takes more than
/// 8033 blocks, and with [`Error::AllocationFailure`] when no sector can
/// be had.
pub fn allocate_for_write(manager: &mut SectorManager, old_sector: SectorOffset, length: u64) -> (r: Result<SectorOffset, Error>)
    requires
        old(manager).wf(),
        length + 4 + 4095 <= u64::MAX,
        record_blocks(length as int) <= 8033 ==> {
            let size = spec_required(record_blocks(length as int));
            size.0 != 0 && spec_block_count(old_sector.spec_block_size()) < spec_block_count(size)
                ==> reallocate_unchecked_ok(old(manager).unused_ranges(), old(manager).end_range(), old_sector, size)
        },
    ensures
        final(manager).wf(),
        record_blocks(length as int) > 8033 ==> r == Err::<SectorOffset, Error>(Error::ChunkTooLarge)
            && final(manager).unused_ranges() == old(manager).unused_ranges()
            && final(manager).end_range() == old(manager).end_range(),
        record_blocks(length as int) <= 8033 ==> match spec_reallocate(
            old(manager).unused_ranges(),
            old(manager).end_range(),
            old_sector,
            spec_required(record_blocks(length as int)),
        ) {
            Some((sector, list, end)) => r == Ok::<SectorOffset, Error>(sector) && final(manager).unused_ranges() == list
                && final(manager).end_range() == end,
            None => r == Err::<SectorOffset, Error>(Error::AllocationFailure)
                && final(manager).unused_ranges() == old(manager).unused_ranges()
                && final(manager).end_range() == old(manager).end_range(),
        },
{
    let padded = padded_size(length + 4);
    if padded > BlockSize::MAX_BLOCK_COUNT as u64 * 4096 {
        return Err(Error::ChunkTooLarge);
    }
    let block_count = (padded / 4096) as u16;
    let required = BlockSize::required(block_count);
    proof {
        crate::sectormanager::lemma_required_is_spec(block_count as int, required);
    }
    manager.reallocate_err(old_sector, required)
}

} // verus!
