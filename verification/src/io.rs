//! What the pool asks of the program's I/O.

use crate::error::LimboError;
use vstd::prelude::*;
use vstd::string::*;

verus! {

/// The program's I/O, as far as the pool needs it. Nothing is promised of an implementation: the
/// pool is correct for every answer.
pub trait IO {
    /// Memory that was mapped for an arena, before it is used.
    type Region;

    /// Maps memory for an arena, `len` bytes of it.
    fn map_arena(&self, len: usize) -> (res: Option<Self::Region>);

    /// Registers a region for fixed-buffer I/O, and returns the index under which it was
    /// registered. An I/O without fixed buffers keeps this refusal.
    fn register_fixed_buffer(&self, region: &Self::Region) -> (res: Result<u32, LimboError>)
        default_ensures
            res matches Err(LimboError::InternalError(text)) && text@ == "unsupported operation"@,
    {
        Err(LimboError::InternalError("unsupported operation".to_owned()))
    }

    /// The memory of a region, to be used. Memory of another length than was asked for counts as
    /// none.
    fn memory(&self, region: Self::Region) -> (res: &'static mut [u8]);
}

} // verus!
