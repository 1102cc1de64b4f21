//! Layout rules for physically-contiguous DMA allocations.
//!
//! Allocation itself is the platform's work; this module decides how many
//! frames a request takes and how they must be aligned.
use vstd::prelude::*;

verus! {

/// Size of one allocatable frame.
pub const PAGE_SIZE: usize = 0x1000;

#[derive(Debug, Clone, Copy, PartialEq, Eq, Structural)]
pub enum DmaAllocationError {
    InvalidParam,
    OutOfMemory,
    Unsupported,
}

#[derive(Debug, Clone, Copy, PartialEq, Eq, Structural)]
pub struct AllocationLayout {
    pub frame_count: usize,
    pub alignment_frames: usize,
}

/// `value` is a power of two.
pub open spec fn power_of_two(value: usize) -> bool {
    value != 0 && value & ((value - 1) as usize) == 0
}

/// The frame layout a request calls for, or why it is refused.
pub open spec fn layout_spec(byte_length: usize, byte_alignment: usize) -> Result<
    AllocationLayout,
    DmaAllocationError,
> {
    if byte_length == 0 || !power_of_two(byte_alignment) || byte_length + (PAGE_SIZE - 1)
        > usize::MAX {
        Err(DmaAllocationError::InvalidParam)
    } else if byte_alignment > PAGE_SIZE && byte_alignment % PAGE_SIZE != 0 {
        Err(DmaAllocationError::InvalidParam)
    } else {
        Ok(
            AllocationLayout {
                frame_count: ((byte_length + (PAGE_SIZE - 1)) / (PAGE_SIZE as int)) as usize,
                alignment_frames: if byte_alignment <= PAGE_SIZE {
                    1
                } else {
                    byte_alignment / PAGE_SIZE
                },
            },
        )
    }
}

/// Round a byte length up to whole frames and express the alignment in
/// frames; alignments below one frame are satisfied by frame alignment.
pub fn allocation_layout(byte_length: usize, byte_alignment: usize) -> (result: Result<
    AllocationLayout,
    DmaAllocationError,
>)
    ensures
        result == layout_spec(byte_length, byte_alignment),
{
    if byte_length == 0 || byte_alignment == 0 || byte_alignment & (byte_alignment - 1) != 0 {
        return Err(DmaAllocationError::InvalidParam);
    }
    let padded = match byte_length.checked_add(PAGE_SIZE - 1) {
        Some(value) => value,
        None => return Err(DmaAllocationError::InvalidParam),
    };
    let frame_count = padded / PAGE_SIZE;
    let alignment_frames = if byte_alignment <= PAGE_SIZE {
        1
    } else {
        if byte_alignment % PAGE_SIZE != 0 {
            return Err(DmaAllocationError::InvalidParam);
        }
        byte_alignment / PAGE_SIZE
    };
    Ok(AllocationLayout { frame_count, alignment_frames })
}

/// An accepted layout covers the request with whole frames and wastes less
/// than one frame; an alignment above one frame is a whole number of frames.
pub proof fn lemma_layout_covers_request(byte_length: usize, byte_alignment: usize)
    requires
        layout_spec(byte_length, byte_alignment) is Ok,
    ensures
        ({
            let layout = layout_spec(byte_length, byte_alignment)->Ok_0;
            &&& layout.frame_count * PAGE_SIZE >= byte_length
            &&& layout.frame_count * PAGE_SIZE < byte_length + PAGE_SIZE
            &&& layout.frame_count >= 1
            &&& layout.alignment_frames >= 1
            &&& (byte_alignment > PAGE_SIZE ==> layout.alignment_frames * PAGE_SIZE
                == byte_alignment)
        }),
{
}

} // verus!
