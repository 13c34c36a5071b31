//! What the memory panel shows around the program counter.
use vstd::prelude::*;
use crate::machine::MEMORY_SIZE;

verus! {

/// The addresses that the memory panel lists for program counter `pc`: from 5
/// words before it (not below 0) up to, not including, 20 words after it, but
/// never past address `0xFFFE`.
pub fn memory_window(pc: u16) -> (r: (usize, usize))
    ensures
        r.0 == if pc >= 5 { pc - 5 } else { 0 },
        r.1 == if pc + 20 <= 0xFFFE { pc + 20 } else { 0xFFFE },
        r.0 <= r.1 < MEMORY_SIZE,
{
    let pc: usize = pc as usize;

    // show 5 rows before the PC and 20 rows after
    let start: usize = pc.saturating_sub(5);  // don't go below 0
    let end = if pc + 20 < 0xFFFE { pc + 20 } else { 0xFFFE };  // prevent going past end of memory
    (start, end)
}

} // verus!
