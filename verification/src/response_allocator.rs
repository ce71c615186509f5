//! The allocator of output buffers: what the engine is given when it asks for
//! memory for a result, and what is freed when it hands the memory back.
//!
//! The engine names only a byte size, once when it asks and once when it hands
//! back. Both answers are computed from the size alone, so that the buffer is
//! freed with the layout with which it was allocated.

use crate::error::{ErrorCode, TritonError};
use crate::inference_response::MemoryType;
use vstd::prelude::*;

verus! {

/// The alignment of every output buffer.
pub const BUFFER_ALIGNMENT: usize = 8;

/// Size and alignment of a block of memory.
#[derive(Clone, Copy, Debug, PartialEq, Eq, Structural)]
pub struct BufferLayout {
    pub size: usize,
    pub align: usize,
}

/// The answer to a request for a buffer.
#[derive(Clone, Copy, Debug, PartialEq, Eq, Structural)]
pub enum Allocation {
    /// No memory is needed: the engine gets the null buffer.
    Empty,
    /// A block of this layout is to be allocated.
    Block(BufferLayout),
    /// No block of this size can be laid out.
    Unsupported,
}

/// The answer to a buffer that is handed back.
#[derive(Clone, Copy, Debug, PartialEq, Eq, Structural)]
pub enum Release {
    /// The buffer is the null buffer: nothing is freed.
    Nothing,
    /// The block is to be freed with this layout.
    Block(BufferLayout),
    /// No block of this size can have been laid out.
    Unsupported,
}

/// Whether a block of `byte_size` bytes, rounded up to the alignment, is no
/// larger than the largest block that can be allocated.
pub open spec fn can_lay_out(byte_size: usize) -> bool {
    byte_size <= isize::MAX - (BUFFER_ALIGNMENT - 1)
}

/// What `plan_allocation` answers.
pub open spec fn allocation_for(byte_size: usize) -> Allocation {
    if byte_size == 0 {
        Allocation::Empty
    } else if can_lay_out(byte_size) {
        Allocation::Block(BufferLayout { size: byte_size, align: BUFFER_ALIGNMENT })
    } else {
        Allocation::Unsupported
    }
}

/// What `plan_release` answers.
pub open spec fn release_for(byte_size: usize) -> Release {
    if byte_size == 0 {
        Release::Nothing
    } else if can_lay_out(byte_size) {
        Release::Block(BufferLayout { size: byte_size, align: BUFFER_ALIGNMENT })
    } else {
        Release::Unsupported
    }
}

/// The allocator that the engine calls for output buffers. It stands for the
/// engine's allocator object, which it knows by its handle.
#[derive(Debug)]
pub struct ResponseAllocator {
    pub _allocator: usize,
}

impl ResponseAllocator {
    /// The allocator of the engine's allocator object with this handle.
    pub fn new(handle: usize) -> (allocator: ResponseAllocator)
        ensures
            allocator._allocator == handle,
    {
        ResponseAllocator { _allocator: handle }
    }

    /// The handle of the engine's allocator object.
    pub fn raw_pointer(&self) -> (handle: usize)
        ensures
            handle == self._allocator,
    {
        self._allocator
    }

    /// Where every output buffer lives: in CPU memory, at location 0.
    pub fn memory_location(&self) -> (location: (MemoryType, i64))
        ensures
            location == (MemoryType::Cpu, 0i64),
    {
        (MemoryType::Cpu, 0)
    }

    /// Answers a request of the engine for `byte_size` bytes: the null buffer
    /// for no bytes, else a block of that size at the alignment of all buffers.
    pub fn plan_allocation(&self, byte_size: usize) -> (allocation: Allocation)
        ensures
            allocation == allocation_for(byte_size),
    {
        if byte_size == 0 {
            Allocation::Empty
        } else if byte_size <= isize::MAX as usize - (BUFFER_ALIGNMENT - 1) {
            Allocation::Block(BufferLayout { size: byte_size, align: BUFFER_ALIGNMENT })
        } else {
            Allocation::Unsupported
        }
    }

    /// Answers a buffer of `byte_size` bytes that the engine hands back.
    pub fn plan_release(&self, byte_size: usize) -> (release: Release)
        ensures
            release == release_for(byte_size),
    {
        if byte_size == 0 {
            Release::Nothing
        } else if byte_size <= isize::MAX as usize - (BUFFER_ALIGNMENT - 1) {
            Release::Block(BufferLayout { size: byte_size, align: BUFFER_ALIGNMENT })
        } else {
            Release::Unsupported
        }
    }

    /// The error that the engine gets for an output whose size cannot be laid out.
    pub fn layout_error() -> (error: TritonError)
        ensures
            error.code == ErrorCode::Internal,
            error.msg@ == "allocator failed to create layout"@,
    {
        TritonError::new(ErrorCode::Internal, "allocator failed to create layout".to_owned())
    }

    /// The error that the engine gets for an output for which no memory was left.
    pub fn allocation_error() -> (error: TritonError)
        ensures
            error.code == ErrorCode::Internal,
            error.msg@ == "allocator failed"@,
    {
        TritonError::new(ErrorCode::Internal, "allocator failed".to_owned())
    }
}

/// Pairing of allocation and release: for every byte size, the block that is
/// freed has the layout of the block that was allocated, nothing is freed where
/// nothing was allocated, and a size that was refused is refused again.
pub proof fn lemma_release_matches_allocation(byte_size: usize)
    ensures
        allocation_for(byte_size) == Allocation::Empty <==> release_for(byte_size)
            == Release::Nothing,
        allocation_for(byte_size) == Allocation::Unsupported <==> release_for(byte_size)
            == Release::Unsupported,
        forall|layout: BufferLayout|
            allocation_for(byte_size) == Allocation::Block(layout) <==> release_for(byte_size)
                == Release::Block(layout),
        forall|layout: BufferLayout|
            allocation_for(byte_size) == Allocation::Block(layout) ==> layout.size == byte_size
                && layout.align == BUFFER_ALIGNMENT,
{
}

} // verus!
