use vstd::prelude::*;

verus! {

/// An addressing descriptor into a plugin's linear memory: `length` bytes
/// starting at `offset`.
#[derive(Clone, Copy, Debug, PartialEq, Eq, Structural)]
pub struct MemoryBlock {
    pub offset: u64,
    pub length: u64,
}

impl MemoryBlock {
    pub fn new(offset: u64, length: u64) -> (r: MemoryBlock)
        ensures
            r.offset == offset,
            r.length == length,
    {
        MemoryBlock { offset, length }
    }

    /// The block lies inside a linear memory of `size` bytes.
    pub open spec fn fits(self, size: nat) -> bool {
        self.offset + self.length <= size
    }
}

/// The host-call state of a plugin: the size of its linear memory, the
/// input staged for the current call, and the output block that the guest
/// declared during the last call.
#[derive(Debug)]
pub struct Memory {
    pub size: u64,
    pub input: Vec<u8>,
    pub output_offset: u64,
    pub output_length: u64,
}

impl Memory {
    /// Fresh state for a new instance whose linear memory has `size` bytes.
    pub fn new(size: u64) -> (r: Memory)
        ensures
            r.is_fresh(size),
    {
        Memory { size, input: Vec::new(), output_offset: 0, output_length: 0 }
    }

    pub open spec fn is_fresh(self, size: u64) -> bool {
        &&& self.size == size
        &&& self.input@.len() == 0
        &&& self.output_offset == 0
        &&& self.output_length == 0
    }

    /// Translates a block to the host range `(start, end)` of linear memory,
    /// or `None` when the block reaches past the end of it.
    pub fn block_range(&self, block: MemoryBlock) -> (r: Option<(usize, usize)>)
        ensures
            r is Some <==> block.fits(self.size as nat) && block.offset + block.length
                <= usize::MAX,
            r matches Some((start, end)) ==> start == block.offset && end == block.offset
                + block.length,
    {
        if block.offset > self.size || block.length > self.size - block.offset {
            return None;
        }
        let end: u64 = block.offset + block.length;
        if end > usize::MAX as u64 {
            return None;
        }
        Some((block.offset as usize, end as usize))
    }

    /// The block the guest declared as its output.
    pub fn output_block(&self) -> (r: MemoryBlock)
        ensures
            r.offset == self.output_offset,
            r.length == self.output_length,
    {
        MemoryBlock::new(self.output_offset, self.output_length)
    }

    /// The host range of the declared output, if it lies inside linear memory.
    pub fn output_range(&self) -> (r: Option<(usize, usize)>)
        ensures
            r is Some <==> self.output_block_spec().fits(self.size as nat)
                && self.output_offset + self.output_length <= usize::MAX,
            r matches Some((start, end)) ==> start == self.output_offset && end
                == self.output_offset + self.output_length,
    {
        self.block_range(self.output_block())
    }

    pub open spec fn output_block_spec(self) -> MemoryBlock {
        MemoryBlock { offset: self.output_offset, length: self.output_length }
    }
}

} // verus!
