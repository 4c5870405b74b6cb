//! The approximate footprint of a buffered value, by which callers decide
//! when to flush.
use vstd::prelude::*;

verus! {

/// The fixed part of a byte array's footprint: pointer, length and capacity.
pub const BYTE_ARRAY_HEADER: usize = 24;

/// A value that reports roughly how many bytes it takes in memory.
pub trait RealMemorySize {
    /// The footprint of this value in bytes.
    spec fn spec_real_memory_size(&self) -> usize;

    fn real_memory_size(&self) -> (r: usize)
        ensures
            r == self.spec_real_memory_size(),
    ;
}

impl RealMemorySize for bool {
    open spec fn spec_real_memory_size(&self) -> usize {
        1
    }

    fn real_memory_size(&self) -> (r: usize) {
        1
    }
}

impl RealMemorySize for i16 {
    open spec fn spec_real_memory_size(&self) -> usize {
        2
    }

    fn real_memory_size(&self) -> (r: usize) {
        2
    }
}

impl RealMemorySize for i32 {
    open spec fn spec_real_memory_size(&self) -> usize {
        4
    }

    fn real_memory_size(&self) -> (r: usize) {
        4
    }
}

impl RealMemorySize for i64 {
    open spec fn spec_real_memory_size(&self) -> usize {
        8
    }

    fn real_memory_size(&self) -> (r: usize) {
        8
    }
}

impl RealMemorySize for u32 {
    open spec fn spec_real_memory_size(&self) -> usize {
        4
    }

    fn real_memory_size(&self) -> (r: usize) {
        4
    }
}

impl RealMemorySize for u64 {
    open spec fn spec_real_memory_size(&self) -> usize {
        8
    }

    fn real_memory_size(&self) -> (r: usize) {
        8
    }
}

impl RealMemorySize for Vec<u8> {
    open spec fn spec_real_memory_size(&self) -> usize {
        BYTE_ARRAY_HEADER.saturating_add(self@.len() as usize)
    }

    fn real_memory_size(&self) -> (r: usize) {
        BYTE_ARRAY_HEADER.saturating_add(self.len())
    }
}

/// The bytes that one entry of a level array takes, where the column has
/// that array at all.
pub open spec fn level_bytes(max_level: i16) -> usize {
    if max_level > 0 {
        2
    } else {
        0
    }
}

/// The sum of byte estimates as the appenders add them up: it stops at the
/// largest `usize`.
pub open spec fn sum_bytes(parts: Seq<usize>) -> usize
    decreases parts.len(),
{
    if parts.len() == 0 {
        0
    } else {
        sum_bytes(parts.drop_last()).saturating_add(parts.last())
    }
}

} // verus!
