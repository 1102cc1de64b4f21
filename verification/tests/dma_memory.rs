use ls2k1000la::dma_memory::{allocation_layout, AllocationLayout, DmaAllocationError, PAGE_SIZE};

#[test]
fn rounds_byte_length_without_weakening_alignment() {
    assert_eq!(allocation_layout(1, 32), Ok(AllocationLayout { frame_count: 1, alignment_frames: 1 }));
    assert_eq!(allocation_layout(PAGE_SIZE + 1, PAGE_SIZE * 4), Ok(AllocationLayout { frame_count: 2, alignment_frames: 4 }));
}

#[test]
fn rejects_invalid_or_overflowing_layouts() {
    assert_eq!(allocation_layout(0, 32), Err(DmaAllocationError::InvalidParam));
    assert_eq!(allocation_layout(64, 3), Err(DmaAllocationError::InvalidParam));
    assert_eq!(allocation_layout(usize::MAX, PAGE_SIZE), Err(DmaAllocationError::InvalidParam));
}

#[test]
fn exact_frames_and_unaligned_large_alignments() {
    assert_eq!(allocation_layout(PAGE_SIZE, 1), Ok(AllocationLayout { frame_count: 1, alignment_frames: 1 }));
    assert_eq!(allocation_layout(PAGE_SIZE * 3, PAGE_SIZE), Ok(AllocationLayout { frame_count: 3, alignment_frames: 1 }));
    assert_eq!(allocation_layout(64, 0), Err(DmaAllocationError::InvalidParam));
}
